//! A drink vending machine: it accepts hundred coins only, dispenses three
//! drinks, and keeps each button's light matching what the balance can buy.

use vstd::prelude::*;

verus! {

/// The lit state of one drink button.
#[derive(Clone, Copy, Debug, Eq, Hash, PartialEq, Structural)]
pub enum ButtonLight {
    On,
    Off,
}

/// The three drink buttons' lights.
#[derive(Clone, Copy, Debug, Eq, Hash, PartialEq, Structural)]
pub struct Buttons {
    pub coke: ButtonLight,
    pub oolong_tea: ButtonLight,
    pub redbull: ButtonLight,
}

/// The drinks on offer.
#[derive(Debug, Eq, Hash, PartialEq, Structural)]
pub enum Drink {
    Coke,
    OolongTea,
    Redbull,
}

/// The money denominations a customer may offer.
#[derive(Debug, Eq, Hash, PartialEq, Structural)]
pub enum Money {
    One,
    Five,
    Ten,
    Fifty,
    OneHundred,
    FiveHundred,
    OneThousand,
    TenThousand,
}

/// The lights that a balance of `n` hundred coins turns on: a drink's button
/// is lit exactly when the balance covers its price.
pub open spec fn lights_for(n: nat) -> Buttons {
    Buttons {
        coke: if n >= 1 {
            ButtonLight::On
        } else {
            ButtonLight::Off
        },
        oolong_tea: if n >= 1 {
            ButtonLight::On
        } else {
            ButtonLight::Off
        },
        redbull: if n >= 2 {
            ButtonLight::On
        } else {
            ButtonLight::Off
        },
    }
}

/// A drink's price, in hundred coins.
pub open spec fn price(drink: Drink) -> nat {
    match drink {
        Drink::Coke => 1,
        Drink::OolongTea => 1,
        Drink::Redbull => 2,
    }
}

/// What a dispensed drink is called.
pub open spec fn drink_text(drink: Drink) -> Seq<char> {
    match drink {
        Drink::Coke => "Coke"@,
        Drink::OolongTea => "Oolong Tea"@,
        Drink::Redbull => "Redbull"@,
    }
}

/// The complaint when the balance does not cover a drink.
pub open spec fn refusal_text(drink: Drink) -> Seq<char> {
    match drink {
        Drink::Coke => "Could not get cola"@,
        Drink::OolongTea => "Could not get Oolong Tea"@,
        Drink::Redbull => "Could not get Redbull"@,
    }
}

impl Buttons {
    /// All three lights off.
    pub fn new() -> (b: Buttons)
        ensures
            b == lights_for(0),
    {
        Buttons { coke: ButtonLight::Off, oolong_tea: ButtonLight::Off, redbull: ButtonLight::Off }
    }
}

impl Default for Buttons {
    fn default() -> (b: Buttons)
        ensures
            b == lights_for(0),
    {
        Buttons::new()
    }
}

/// A vending machine: the count of deposited hundred coins (the only
/// denomination it accepts) and the current button lights.
pub struct VendingMachine {
    hundreds: u32,
    buttons: Buttons,
}

impl VendingMachine {
    /// The machine's balance, in hundred coins.
    pub closed spec fn balance(self) -> nat {
        self.hundreds as nat
    }

    /// The machine's current button lights.
    pub closed spec fn lights(self) -> Buttons {
        self.buttons
    }

    /// The machine is well formed when its lights match its balance.
    pub open spec fn well_formed(self) -> bool {
        self.lights() == lights_for(self.balance())
    }

    /// A new machine with no deposits and all lights off.
    pub fn new() -> (m: VendingMachine)
        ensures
            m.balance() == 0,
            m.well_formed(),
    {
        VendingMachine { hundreds: 0, buttons: Buttons::new() }
    }

    /// Recomputes the button lights from the balance.
    fn update_button_status(&mut self)
        ensures
            final(self).balance() == old(self).balance(),
            final(self).well_formed(),
    {
        let status = if self.hundreds >= 1 {
            Buttons {
                coke: ButtonLight::On,
                oolong_tea: ButtonLight::On,
                redbull: if self.hundreds >= 2 {
                    ButtonLight::On
                } else {
                    ButtonLight::Off
                },
            }
        } else {
            Buttons::new()
        };
        self.buttons = status;
    }

    /// Deposits one denomination: only a hundred coin is accepted and raises
    /// the balance by one; anything else is refused and changes nothing.
    pub fn deposit(&mut self, money: Money) -> (r: Result<(), String>)
        requires
            old(self).well_formed(),
            old(self).balance() < u32::MAX,
        ensures
            final(self).well_formed(),
            match r {
                Ok(()) => money == Money::OneHundred && final(self).balance() == old(
                    self,
                ).balance() + 1,
                Err(e) => money != Money::OneHundred && *final(self) == *old(self) && e@
                    == "Could not deposit"@,
            },
    {
        if money != Money::OneHundred {
            Err("Could not deposit".to_owned())
        } else {
            self.hundreds = self.hundreds + 1;
            self.update_button_status();
            Ok(())
        }
    }

    /// Dispenses a cola when the balance covers it.
    fn get_cola(&mut self) -> (r: Result<String, String>)
        ensures
            final(self).lights() == old(self).lights(),
            match r {
                Ok(msg) => old(self).balance() >= 1 && final(self).balance() == old(self).balance()
                    - 1 && msg@ == "Coke"@,
                Err(e) => old(self).balance() < 1 && *final(self) == *old(self) && e@
                    == "Could not get cola"@,
            },
    {
        if self.hundreds == 0 {
            Err("Could not get cola".to_owned())
        } else {
            self.hundreds = self.hundreds - 1;
            Ok("Coke".to_owned())
        }
    }

    /// Dispenses an oolong tea when the balance covers it.
    fn get_oolong_tea(&mut self) -> (r: Result<String, String>)
        ensures
            final(self).lights() == old(self).lights(),
            match r {
                Ok(msg) => old(self).balance() >= 1 && final(self).balance() == old(self).balance()
                    - 1 && msg@ == "Oolong Tea"@,
                Err(e) => old(self).balance() < 1 && *final(self) == *old(self) && e@
                    == "Could not get Oolong Tea"@,
            },
    {
        if self.hundreds == 0 {
            Err("Could not get Oolong Tea".to_owned())
        } else {
            self.hundreds = self.hundreds - 1;
            Ok("Oolong Tea".to_owned())
        }
    }

    /// Dispenses a redbull when the balance covers its price of two coins.
    fn get_redbull(&mut self) -> (r: Result<String, String>)
        ensures
            final(self).lights() == old(self).lights(),
            match r {
                Ok(msg) => old(self).balance() >= 2 && final(self).balance() == old(self).balance()
                    - 2 && msg@ == "Redbull"@,
                Err(e) => old(self).balance() < 2 && *final(self) == *old(self) && e@
                    == "Could not get Redbull"@,
            },
    {
        if self.hundreds < 2 {
            Err("Could not get Redbull".to_owned())
        } else {
            self.hundreds = self.hundreds - 2;
            Ok("Redbull".to_owned())
        }
    }

    /// Presses one drink button: when the balance covers the drink's price,
    /// the drink's name comes back and its price is taken; otherwise a
    /// complaint comes back and nothing changes. The lights follow suit.
    pub fn press_button(&mut self, drink: Drink) -> (r: Result<String, String>)
        requires
            old(self).well_formed(),
        ensures
            final(self).well_formed(),
            match r {
                Ok(msg) => old(self).balance() >= price(drink) && final(self).balance() == old(
                    self,
                ).balance() - price(drink) && msg@ == drink_text(drink),
                Err(e) => old(self).balance() < price(drink) && final(self).balance() == old(
                    self,
                ).balance() && e@ == refusal_text(drink),
            },
    {
        let result = match drink {
            Drink::Coke => self.get_cola(),
            Drink::OolongTea => self.get_oolong_tea(),
            Drink::Redbull => self.get_redbull(),
        };
        self.update_button_status();
        result
    }

    /// Reads the current button lights.
    pub fn get_button_status(&self) -> (b: Buttons)
        ensures
            b == self.lights(),
    {
        self.buttons
    }
}

impl Default for VendingMachine {
    fn default() -> (m: VendingMachine)
        ensures
            m.balance() == 0,
            m.well_formed(),
    {
        VendingMachine::new()
    }
}

} // verus!
