use katas::classifier::{classify_account, EntryStatus};
use katas::corrector::{correct_account_number, CorrectionResult};
use katas::printer::print_account_number;
use katas::recognizer::{generate_one_off_patterns, recognize_account_number, recognize_digit};
use katas::segmenter::{cat_number, segment_entry, FormatError};
use katas::validator::{is_valid_account_number, validate_account_number, PreconditionError};

fn zero_pattern() -> [[char; 3]; 3] {
    [[' ', '_', ' '], ['|', ' ', '|'], ['|', '_', '|']]
}

fn one_pattern() -> [[char; 3]; 3] {
    [[' ', ' ', ' '], [' ', ' ', '|'], [' ', ' ', '|']]
}

fn two_pattern() -> [[char; 3]; 3] {
    [[' ', '_', ' '], [' ', '_', '|'], ['|', '_', ' ']]
}

fn three_pattern() -> [[char; 3]; 3] {
    [[' ', '_', ' '], [' ', '_', '|'], [' ', '_', '|']]
}

fn four_pattern() -> [[char; 3]; 3] {
    [[' ', ' ', ' '], ['|', '_', '|'], [' ', ' ', '|']]
}

fn five_pattern() -> [[char; 3]; 3] {
    [[' ', '_', ' '], ['|', '_', ' '], [' ', '_', '|']]
}

fn six_pattern() -> [[char; 3]; 3] {
    [[' ', '_', ' '], ['|', '_', ' '], ['|', '_', '|']]
}

fn seven_pattern() -> [[char; 3]; 3] {
    [[' ', '_', ' '], [' ', ' ', '|'], [' ', ' ', '|']]
}

fn eight_pattern() -> [[char; 3]; 3] {
    [[' ', '_', ' '], ['|', '_', '|'], ['|', '_', '|']]
}

fn nine_pattern() -> [[char; 3]; 3] {
    [[' ', '_', ' '], ['|', '_', '|'], [' ', '_', '|']]
}

/// The three printed rows of one digit's canonical glyph.
fn glyph_rows(d: char) -> [&'static str; 3] {
    match d {
        '0' => [" _ ", "| |", "|_|"],
        '1' => ["   ", "  |", "  |"],
        '2' => [" _ ", " _|", "|_ "],
        '3' => [" _ ", " _|", " _|"],
        '4' => ["   ", "|_|", "  |"],
        '5' => [" _ ", "|_ ", " _|"],
        '6' => [" _ ", "|_ ", "|_|"],
        '7' => [" _ ", "  |", "  |"],
        '8' => [" _ ", "|_|", "|_|"],
        _ => [" _ ", "|_|", " _|"],
    }
}

/// Builds the raw three-row entry text whose cells are the canonical glyphs
/// of the given digits.
fn entry_text(digits: &str) -> String {
    let mut rows = [String::new(), String::new(), String::new()];
    for d in digits.chars() {
        let g = glyph_rows(d);
        for (r, row) in rows.iter_mut().enumerate() {
            row.push_str(g[r]);
        }
    }
    format!("{}\n{}\n{}", rows[0], rows[1], rows[2])
}

#[test]
fn lib_test_cat_number() {
    let numbers =
        "    _  _     _  _  _  _  _ \n  | _| _||_||_ |_   ||_||_|\n  ||_  _|  | _||_|  ||_| _|";
    let one = cat_number(&numbers, 0);
    assert_eq!(one, one_pattern());
    let two = cat_number(&numbers, 1);
    assert_eq!(two, two_pattern());
    let three = cat_number(&numbers, 2);
    assert_eq!(three, three_pattern());
    let four = cat_number(&numbers, 3);
    assert_eq!(four, four_pattern());
    let six = cat_number(&numbers, 5);
    assert_eq!(six, six_pattern());
    let seven = cat_number(&numbers, 6);
    assert_eq!(seven, seven_pattern());
    let eight = cat_number(&numbers, 7);
    assert_eq!(eight, eight_pattern());
    let nine = cat_number(&numbers, 8);
    assert_eq!(nine, nine_pattern());
}

#[test]
fn recognizer_test_cat_number() {
    let numbers =
        "    _  _     _  _  _  _  _ \n  | _| _||_||_ |_   ||_||_|\n  ||_  _|  | _||_|  ||_| _|";
    let one = cat_number(&numbers, 0);
    assert_eq!(one, one_pattern());
    let two = cat_number(&numbers, 1);
    assert_eq!(two, two_pattern());
    let three = cat_number(&numbers, 2);
    assert_eq!(three, three_pattern());
    let four = cat_number(&numbers, 3);
    assert_eq!(four, four_pattern());
    let six = cat_number(&numbers, 5);
    assert_eq!(six, six_pattern());
    let seven = cat_number(&numbers, 6);
    assert_eq!(seven, seven_pattern());
    let eight = cat_number(&numbers, 7);
    assert_eq!(eight, eight_pattern());
    let nine = cat_number(&numbers, 8);
    assert_eq!(nine, nine_pattern());
}

#[test]
fn test_recognize_digit_zero() {
    assert_eq!(recognize_digit(zero_pattern()), '0');
}

#[test]
fn test_recognize_digit_one() {
    assert_eq!(recognize_digit(one_pattern()), '1');
}

#[test]
fn test_recognize_digit_two() {
    assert_eq!(recognize_digit(two_pattern()), '2');
}

#[test]
fn test_recognize_digit_three() {
    assert_eq!(recognize_digit(three_pattern()), '3');
}

#[test]
fn test_recognize_digit_four() {
    assert_eq!(recognize_digit(four_pattern()), '4');
}

#[test]
fn test_recognize_digit_five() {
    assert_eq!(recognize_digit(five_pattern()), '5');
}

#[test]
fn test_recognize_digit_six() {
    assert_eq!(recognize_digit(six_pattern()), '6');
}

#[test]
fn test_recognize_digit_seven() {
    assert_eq!(recognize_digit(seven_pattern()), '7');
}

#[test]
fn test_recognize_digit_eight() {
    assert_eq!(recognize_digit(eight_pattern()), '8');
}

#[test]
fn test_recognize_digit_nine() {
    assert_eq!(recognize_digit(nine_pattern()), '9');
}

#[test]
fn test_recognize_digit_unmatched_is_unknown() {
    let blank = [[' ', ' ', ' '], [' ', ' ', ' '], [' ', ' ', ' ']];
    assert_eq!(recognize_digit(blank), '?');
    let scribble = [['_', '_', '_'], ['|', '|', '|'], ['_', '_', '_']];
    assert_eq!(recognize_digit(scribble), '?');
}

#[test]
fn test_recognize_all_digits() {
    let test_cases = [
        (zero_pattern(), '0'),
        (one_pattern(), '1'),
        (two_pattern(), '2'),
        (three_pattern(), '3'),
        (four_pattern(), '4'),
        (five_pattern(), '5'),
        (six_pattern(), '6'),
        (seven_pattern(), '7'),
        (eight_pattern(), '8'),
        (nine_pattern(), '9'),
    ];

    for (pattern, expected) in test_cases.iter() {
        assert_eq!(recognize_digit(*pattern), *expected);
    }
}

#[test]
fn lib_test_parse_account_number_zero() {
    let zero_account_number_pattern = " _  _  _  _  _  _  _  _  _ \n| || || || || || || || || |\n|_||_||_||_||_||_||_||_||_|\n                           ";

    assert_eq!(
        "000000000",
        recognize_account_number(&zero_account_number_pattern)
    );
}

#[test]
fn lib_test_parse_account_number_11111111() {
    let zero_account_number_pattern = "                           \n  |  |  |  |  |  |  |  |  |\n  |  |  |  |  |  |  |  |  |\n                           ";

    assert_eq!(
        "111111111",
        recognize_account_number(&zero_account_number_pattern)
    );
}

#[test]
fn lib_test_parse_account_number_123456789() {
    let zero_account_number_pattern = "    _  _     _  _  _  _  _ \n  | _| _||_||_ |_   ||_||_|\n  ||_  _|  | _||_|  ||_| _|\n                           ";

    assert_eq!(
        "123456789",
        recognize_account_number(&zero_account_number_pattern)
    );
}

#[test]
fn recognizer_test_parse_account_number_zero() {
    let zero_account_number_pattern = " _  _  _  _  _  _  _  _  _ \n| || || || || || || || || |\n|_||_||_||_||_||_||_||_||_|\n                           ";

    assert_eq!(
        "000000000",
        recognize_account_number(&zero_account_number_pattern)
    );
}

#[test]
fn recognizer_test_parse_account_number_11111111() {
    let zero_account_number_pattern = "                           \n  |  |  |  |  |  |  |  |  |\n  |  |  |  |  |  |  |  |  |\n                           ";

    assert_eq!(
        "111111111",
        recognize_account_number(&zero_account_number_pattern)
    );
}

#[test]
fn recognizer_test_parse_account_number_123456789() {
    let zero_account_number_pattern = "    _  _     _  _  _  _  _ \n  | _| _||_||_ |_   ||_||_|\n  ||_  _|  | _||_|  ||_| _|\n                           ";

    assert_eq!(
        "123456789",
        recognize_account_number(&zero_account_number_pattern)
    );
}

#[test]
fn test_generate_one_off_patterns() {
    let one_off_patterns_from_zero = generate_one_off_patterns(zero_pattern());
    assert!(one_off_patterns_from_zero.contains(&('8' as char)));

    let one_off_patterns_from_eight = generate_one_off_patterns(eight_pattern());
    assert!(one_off_patterns_from_eight.contains(&('0' as char)));

    let one_off_patterns_from_one = generate_one_off_patterns(one_pattern());
    assert!(one_off_patterns_from_one.contains(&('7' as char)));

    let one_off_patterns_from_seven = generate_one_off_patterns(seven_pattern());
    assert!(one_off_patterns_from_seven.contains(&('1' as char)));

    let one_off_patterns_from_five = generate_one_off_patterns(five_pattern());
    assert!(one_off_patterns_from_five.contains(&('6' as char)));
    assert!(one_off_patterns_from_five.contains(&('9' as char)));
}

#[test]
fn test_one_off_patterns_include_self() {
    let from_two = generate_one_off_patterns(two_pattern());
    assert_eq!(from_two, vec!['2']);
}

#[test]
fn test_check_sum_true() {
    assert!(is_valid_account_number("123456789"));
    assert!(is_valid_account_number("345882865"));
}

#[test]
fn test_check_sum_false() {
    assert!(!is_valid_account_number("123456780"));
}

#[test]
fn test_print_account_number_true() {
    assert_eq!("457508000", print_account_number("457508000"));
}

#[test]
fn test_print_account_number_invalid_checksum() {
    assert_eq!("664371495 ERR", print_account_number("664371495"));
}

#[test]
fn test_print_account_number_invalid_number() {
    assert_eq!("86110??36 ILL", print_account_number("86110??36"));
}

#[test]
fn test_validate_account_number_signals_precondition_violations() {
    assert_eq!(validate_account_number("123456789"), Ok(true));
    assert_eq!(validate_account_number("123456780"), Ok(false));
    assert_eq!(validate_account_number("12345678?"), Err(PreconditionError));
    assert_eq!(validate_account_number("12345678"), Err(PreconditionError));
}

#[test]
fn test_classify_statuses() {
    assert_eq!(classify_account("457508000"), EntryStatus::Valid);
    assert_eq!(classify_account("664371495"), EntryStatus::ChecksumError);
    assert_eq!(classify_account("86110??36"), EntryStatus::Illegible);
    assert_eq!(classify_account("?????????"), EntryStatus::Illegible);
}

#[test]
fn test_segment_entry_well_formed() {
    let text = entry_text("123456789");
    let glyphs = segment_entry(&text).unwrap();
    assert_eq!(glyphs.len(), 9);
    assert_eq!(glyphs[0], one_pattern());
    assert_eq!(glyphs[4], five_pattern());
    assert_eq!(glyphs[8], nine_pattern());
}

#[test]
fn test_segment_entry_short_row() {
    let text = " _  _  _  _  _  _  _  _  _\n| || || || || || || || || |\n|_||_||_||_||_||_||_||_||_|";
    assert_eq!(segment_entry(&text), Err(FormatError));
}

#[test]
fn test_segment_entry_missing_row() {
    let text = " _  _  _  _  _  _  _  _  _ \n| || || || || || || || || |";
    assert_eq!(segment_entry(&text), Err(FormatError));
}

#[test]
fn test_end_to_end_checksum_error() {
    let text = entry_text("664371495");
    let number = recognize_account_number(&text);
    assert_eq!(number, "664371495");
    assert_eq!(classify_account(&number), EntryStatus::ChecksumError);
    assert_eq!(print_account_number(&number), "664371495 ERR");
}

#[test]
fn test_end_to_end_illegible() {
    // The cells at positions 5 and 6 are blanked out: they match no
    // canonical glyph and recognize as '?'.
    let base = entry_text("861100036");
    let mut lines: Vec<String> = base.lines().map(|l| l.to_string()).collect();
    for line in lines.iter_mut() {
        line.replace_range(15..21, "      ");
    }
    let text = format!("{}\n{}\n{}", lines[0], lines[1], lines[2]);
    let number = recognize_account_number(&text);
    assert_eq!(number, "86110??36");
    assert_eq!(classify_account(&number), EntryStatus::Illegible);
    assert_eq!(print_account_number(&number), "86110??36 ILL");
}

#[test]
fn test_correction_unique() {
    // "111111111" fails the checksum; the only single-cell repair within
    // Hamming distance 1 is '1' -> '7' at the leftmost position.
    let text = entry_text("111111111");
    let glyphs = segment_entry(&text).unwrap();
    assert_eq!(
        correct_account_number(&glyphs),
        CorrectionResult::Unique("711111111".to_string())
    );
}

#[test]
fn test_correction_ambiguous() {
    // "123456780" fails the checksum and two distinct repairs exist:
    // '3' -> '9' at position 2 and '5' -> '9' at position 4.
    let text = entry_text("123456780");
    let glyphs = segment_entry(&text).unwrap();
    assert_eq!(correct_account_number(&glyphs), CorrectionResult::Ambiguous);
}

#[test]
fn test_correction_repairs_single_unknown_cell() {
    // Cell 0 of "123456789" loses one stroke: it matches nothing exactly
    // (the entry reads "?23456789") but is within distance 1 of '1' only,
    // and restoring '1' passes the checksum.
    let base = entry_text("123456789");
    let mut lines: Vec<String> = base.lines().map(|l| l.to_string()).collect();
    lines[1].replace_range(0..3, "   ");
    let text = format!("{}\n{}\n{}", lines[0], lines[1], lines[2]);
    assert_eq!(recognize_account_number(&text), "?23456789");
    let glyphs = segment_entry(&text).unwrap();
    assert_eq!(
        correct_account_number(&glyphs),
        CorrectionResult::Unique("123456789".to_string())
    );
}

#[test]
fn test_correction_unresolvable_no_near_miss() {
    // "222222222" fails the checksum and '2' has no one-off neighbor among
    // the canonical glyphs, so no repair exists.
    let text = entry_text("222222222");
    let glyphs = segment_entry(&text).unwrap();
    assert_eq!(
        correct_account_number(&glyphs),
        CorrectionResult::Unresolvable
    );
}

#[test]
fn test_correction_unresolvable_two_unknowns() {
    let base = entry_text("861100036");
    let mut lines: Vec<String> = base.lines().map(|l| l.to_string()).collect();
    for line in lines.iter_mut() {
        line.replace_range(15..21, "      ");
    }
    let text = format!("{}\n{}\n{}", lines[0], lines[1], lines[2]);
    let glyphs = segment_entry(&text).unwrap();
    assert_eq!(
        correct_account_number(&glyphs),
        CorrectionResult::Unresolvable
    );
}

#[test]
fn test_correction_on_valid_entry_returns_the_entry_itself() {
    // Every cell's own digit is a distance-0 candidate, so a valid entry's
    // only surviving trial is the entry itself.
    let text = entry_text("457508000");
    let glyphs = segment_entry(&text).unwrap();
    assert_eq!(
        correct_account_number(&glyphs),
        CorrectionResult::Unique("457508000".to_string())
    );
}
