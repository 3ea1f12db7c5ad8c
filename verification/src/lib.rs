//! A small library of classic coding exercises, each verified against an
//! explicit contract: bank-account OCR with checksum validation and
//! single-digit correction, a FizzBuzz formatter, semantic-version parsing
//! and printing, an anagram test, and a drink vending machine.

pub mod anagram;
pub mod classifier;
pub mod corrector;
pub mod fizzbuzz;
pub mod printer;
pub mod recognizer;
pub mod segmenter;
pub mod semver;
pub mod text;
pub mod validator;
pub mod vending;
