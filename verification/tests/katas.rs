use katas::anagram::is_anagram;
use katas::fizzbuzz::fizz_buzz;
use katas::semver::{ParseVersionError, Version};
use katas::text::chars_to_string;

#[test]
fn test_is_anagram_simple() {
    assert!(is_anagram("listen", "silent"));
}

#[test]
fn test_is_anagram_rejects_different_letters() {
    assert!(!is_anagram("abc", "abd"));
}

#[test]
fn test_is_anagram_counts_multiplicity() {
    assert!(!is_anagram("aab", "abb"));
}

#[test]
fn test_fizz_buzz_divisible_by_3() {
    assert_eq!(fizz_buzz(3), String::from("Fizz"));
    assert_eq!(fizz_buzz(6), String::from("Fizz"));
    assert_eq!(fizz_buzz(9), String::from("Fizz"));
    assert_eq!(fizz_buzz(12), String::from("Fizz"));
}

#[test]
fn test_fizz_buzz_divisible_by_5() {
    assert_eq!(fizz_buzz(5), String::from("Buzz"));
    assert_eq!(fizz_buzz(10), String::from("Buzz"));
    assert_eq!(fizz_buzz(20), String::from("Buzz"));
}

#[test]
fn test_fizz_buzz_divisible_by_3_and_5() {
    assert_eq!(fizz_buzz(15), String::from("FizzBuzz"));
    assert_eq!(fizz_buzz(30), String::from("FizzBuzz"));
    assert_eq!(fizz_buzz(45), String::from("FizzBuzz"));
}

#[test]
fn test_fizz_buzz_not_divisible_by_3_or_5() {
    assert_eq!(fizz_buzz(1), String::from("1"));
    assert_eq!(fizz_buzz(11), String::from("11"));
    assert_eq!(fizz_buzz(13), String::from("13"));
}

#[test]
fn test_fizz_buzz_negative_and_zero() {
    assert_eq!(fizz_buzz(0), String::from("FizzBuzz"));
    assert_eq!(fizz_buzz(-3), String::from("Fizz"));
    assert_eq!(fizz_buzz(-10), String::from("Buzz"));
    assert_eq!(fizz_buzz(-7), String::from("-7"));
}

#[test]
fn to_string_test() {
    let version = Version::new(1, 2, 3);
    assert_eq!(version.to_string(), "1.2.3");
}

#[test]
fn test_parse_valid_version() {
    let version: Version = "1.2.3".parse().unwrap();
    assert_eq!(
        version,
        Version {
            major: 1,
            minor: 2,
            patch: 3
        }
    );
}

#[test]
fn test_parse_invalid_version() {
    let result: Result<Version, _> = "1.2.a".parse();
    assert_eq!(result, Err(ParseVersionError));
}

#[test]
fn test_parse_version_wrong_piece_count() {
    assert_eq!("1.2".parse::<Version>(), Err(ParseVersionError));
    assert_eq!("1.2.3.4".parse::<Version>(), Err(ParseVersionError));
    assert_eq!("".parse::<Version>(), Err(ParseVersionError));
    assert_eq!("1..3".parse::<Version>(), Err(ParseVersionError));
}

#[test]
fn test_parse_version_leading_zeros() {
    let version: Version = "01.002.0".parse().unwrap();
    assert_eq!(version, Version::new(1, 2, 0));
}

#[test]
fn test_parse_version_u64_bounds() {
    let version: Version = "18446744073709551615.0.0".parse().unwrap();
    assert_eq!(version.major, u64::MAX);
    assert_eq!(
        "18446744073709551616.0.0".parse::<Version>(),
        Err(ParseVersionError)
    );
}

#[test]
fn test_version_round_trip_text() {
    let version: Version = "12.0.345".parse().unwrap();
    assert_eq!(version.to_string(), "12.0.345");
}

#[test]
fn test_chars_to_string_builds_each_character() {
    let v = vec!['a', 'b', 'c'];
    assert_eq!(chars_to_string(&v), "abc");
    let empty: Vec<char> = vec![];
    assert_eq!(chars_to_string(&empty), "");
}
