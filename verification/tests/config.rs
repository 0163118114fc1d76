use measurements::config::{
    check_url_parts, parse_number, Error, ParseError, Strings, TestEnv, UrlError,
};
use measurements::storage::{Bytes, Gibibytes, Gigabytes, Kibibytes, Kilobytes, Mebibytes,
    Megabytes, Storage};

use std::mem::size_of;

#[test]
fn config_is_zero_cost() {
    assert_eq!(size_of::<Storage<Bytes>>(), size_of::<usize>());
    assert_eq!(size_of::<Storage<Kilobytes>>(), size_of::<usize>());
    assert_eq!(size_of::<Storage<Megabytes>>(), size_of::<usize>());
    assert_eq!(size_of::<Storage<Gigabytes>>(), size_of::<usize>());
}

#[test]
fn config_parsing_simple() {
    assert_eq!(
        "15 GB".parse::<Storage<Gigabytes>>().expect("parse"),
        Storage::<Gigabytes>::from(15)
    );
    assert_eq!(
        "15 GiB".parse::<Storage<Gibibytes>>().expect("parse"),
        Storage::<Gibibytes>::from(15)
    );
}

#[test]
fn config_parsing_does_unit_conversions() {
    assert_eq!(
        "1024 B".parse::<Storage<Kibibytes>>().expect("parse"),
        Storage::<Kibibytes>::from(1)
    );

    assert_eq!(
        "4096 KiB".parse::<Storage<Kibibytes>>().expect("parse"),
        Storage::<Mebibytes>::from(4)
    );
}

#[test]
fn test_env_returns_what_was_put() {
    let mut env = TestEnv::new();
    assert_eq!(env.get("SOME_KEY"), Ok(None));
    env.put("SOME_KEY", String::from("value"));
    assert_eq!(env.get("SOME_KEY"), Ok(Some(String::from("value"))));
    assert_eq!(env.get("OTHER_KEY"), Ok(None));
    env.put("SOME_KEY", String::from("newer"));
    assert_eq!(env.get("SOME_KEY"), Ok(Some(String::from("newer"))));
}

#[test]
fn parse_number_accepts_plain_and_signed_decimals() {
    assert_eq!(parse_number("10"), Ok(10));
    assert_eq!(parse_number("+10"), Ok(10));
    assert_eq!(parse_number("0"), Ok(0));
    assert_eq!(parse_number("18446744073709551615"), Ok(u64::MAX));
}

#[test]
fn parse_number_rejects_everything_else() {
    assert_eq!(parse_number(""), Err(ParseError::NotANumber));
    assert_eq!(parse_number("abc"), Err(ParseError::NotANumber));
    assert_eq!(parse_number("10 "), Err(ParseError::NotANumber));
    assert_eq!(parse_number("-10"), Err(ParseError::NotANumber));
    assert_eq!(parse_number("18446744073709551616"), Err(ParseError::NotANumber));
}

#[test]
fn url_parts_are_checked_in_order() {
    assert_eq!(check_url_parts("tcp", true, Some(8086), "/", false), Ok(8086));
    assert_eq!(
        check_url_parts("tcp", false, Some(8086), "/", false),
        Err(ParseError::UrlError(UrlError::MissingHost))
    );
    assert_eq!(
        check_url_parts("http", true, Some(8086), "/", false),
        Err(ParseError::UrlError(UrlError::UnsupportedScheme))
    );
    assert_eq!(
        check_url_parts("tcp", true, None, "/", false),
        Err(ParseError::UrlError(UrlError::MissingPort))
    );
    assert_eq!(
        check_url_parts("tcp", true, Some(8086), "/api", false),
        Err(ParseError::UrlError(UrlError::PathNotAllowed))
    );
    assert_eq!(
        check_url_parts("tcp", true, Some(8086), "/", true),
        Err(ParseError::UrlError(UrlError::FragmentNotAllowed))
    );
}

#[test]
fn parse_combinator_distinguishes_absent_and_invalid() {
    let mut env = TestEnv::new();
    env.put("GOOD", String::from("128"));
    env.put("BAD", String::from("x"));
    assert_eq!(
        measurements::config::parse(&env, "GOOD", parse_number),
        Ok(Some(128))
    );
    assert_eq!(
        measurements::config::parse(&env, "MISSING", parse_number),
        Ok(None)
    );
    assert_eq!(
        measurements::config::parse(&env, "BAD", parse_number),
        Err(Error::InvalidEnvVar)
    );
}
