use measurements::storage::{
    Bytes, Gibibytes, Gigabytes, Kibibytes, Kilobytes, Mebibytes, Megabytes, Storage, ToStorage,
};
use measurements::time::{Microseconds, Time};
use measurements::{MeasureError, NumberError};

#[test]
fn round_trip_through_display_and_parse() {
    let q = Storage::<Gigabytes>::from(15);
    assert_eq!(q.display(), "15 gigabytes");
    assert_eq!(q.display().parse::<Storage<Gigabytes>>().expect("parse"), q);

    let q = Storage::<Kilobytes>::from(1);
    assert_eq!(q.display(), "1 kilobyte");
    assert_eq!(q.display().parse::<Storage<Kilobytes>>().expect("parse"), q);

    let q = Storage::<Bytes>::from(0);
    assert_eq!(q.display(), "0 bytes");
    assert_eq!(q.display().parse::<Storage<Bytes>>().expect("parse"), q);

    let q = Time::<Microseconds>::from(42);
    assert_eq!(q.display(), "42 microseconds");
    assert_eq!(q.display().parse::<Time<Microseconds>>().expect("parse"), q);
}

#[test]
fn display_writes_exact_fractions() {
    let q: Storage<Kilobytes> = Storage::<Kilobytes>::from(1) + Storage::<Bytes>::from(512);
    assert_eq!(q.display(), "1.5 kilobytes");

    let q: Storage<Kilobytes> = Storage::<Bytes>::from(1).into();
    assert_eq!(q.display(), "0.0009765625 kilobytes");
}

#[test]
fn alias_equivalence() {
    let parse = |s: &str| s.parse::<Time<Microseconds>>().expect("parse");
    assert_eq!(parse("5 us"), parse("5 \u{b5}s"));
    let parse = |s: &str| s.parse::<Time<measurements::time::Seconds>>().expect("parse");
    assert_eq!(parse("5 sec"), parse("5 s"));
    let parse = |s: &str| s.parse::<Time<measurements::time::Minutes>>().expect("parse");
    assert_eq!(parse("5 min"), parse("5 m"));
    let parse = |s: &str| s.parse::<Time<measurements::time::Hours>>().expect("parse");
    assert_eq!(parse("5 hr"), parse("5 h"));
    let parse = |s: &str| s.parse::<Storage<Kilobytes>>().expect("parse");
    assert_eq!(parse("5 kb"), parse("5 kilobytes"));
    assert_eq!(parse("5 kb"), parse("5 kilobyte"));
}

#[test]
fn case_insensitivity() {
    let parse = |s: &str| s.parse::<Storage<Gigabytes>>().expect("parse");
    assert_eq!(parse("15 gb"), parse("15 GB"));
    assert_eq!(parse("15 GB"), parse("15 Gb"));
    assert_eq!(parse("15 gB"), parse("15 gb"));
}

#[test]
fn whitespace_tolerance() {
    let parse = |s: &str| s.parse::<Storage<Gigabytes>>().expect("parse");
    assert_eq!(parse("15GB"), parse(" 15 gb "));
    assert_eq!(parse(" 15 gb "), parse("15 gb"));
}

#[test]
fn conversion_correctness() {
    assert_eq!(
        "1024 B".parse::<Storage<Kilobytes>>().expect("parse"),
        Storage::<Kilobytes>::from(1)
    );
    assert_eq!(
        "4096 KB".parse::<Storage<Megabytes>>().expect("parse"),
        Storage::<Megabytes>::from(4)
    );
}

#[test]
fn literal_helper_equivalence() {
    assert_eq!(5.bytes(), Storage::<Bytes>::from(5));
    assert_eq!(5.kilobytes(), Storage::<Kilobytes>::from(5));
    assert_eq!(5.kibibytes(), Storage::<Kibibytes>::from(5));
    assert_eq!(5.megabytes(), Storage::<Megabytes>::from(5));
    assert_eq!(5.mebibytes(), Storage::<Mebibytes>::from(5));
    assert_eq!(5.gigabytes(), Storage::<Gigabytes>::from(5));
    assert_eq!(5.gibibytes(), Storage::<Gibibytes>::from(5));
}

#[test]
fn cross_unit_ordering() {
    assert_eq!(Storage::<Bytes>::from(2048), Storage::<Kilobytes>::from(2));
    assert!(Storage::<Kilobytes>::from(1) > Storage::<Bytes>::from(1000));
    assert!(Storage::<Bytes>::from(1000) < Storage::<Kilobytes>::from(1));
    assert!(Storage::<Kibibytes>::from(1) == Storage::<Bytes>::from(1024));
}

#[test]
fn arithmetic_normalizes_to_base_units() {
    let sum: Storage<Kilobytes> = Storage::<Kilobytes>::from(1) + Storage::<Megabytes>::from(1);
    assert_eq!(sum, Storage::<Bytes>::from(1024 + 1048576));
    let diff: Storage<Megabytes> = Storage::<Megabytes>::from(1) - Storage::<Kilobytes>::from(1);
    assert_eq!(diff, Storage::<Bytes>::from(1048576 - 1024));
    let ratio: Storage<Kilobytes> = Storage::<Kilobytes>::from(1) / Storage::<Bytes>::from(256);
    assert_eq!(ratio, Storage::<Bytes>::from(4));
}

#[test]
fn error_cases() {
    assert_eq!(
        "15 xyz".parse::<Storage<Gigabytes>>(),
        Err(MeasureError::InvalidUnit)
    );
    assert!(matches!(
        "abc GB".parse::<Storage<Gigabytes>>(),
        Err(MeasureError::InvalidNumber(_))
    ));
    assert_eq!(
        "".parse::<Storage<Bytes>>(),
        Err(MeasureError::InvalidNumber(NumberError::Empty))
    );
    assert_eq!(
        "15".parse::<Storage<Bytes>>(),
        Err(MeasureError::InvalidUnit)
    );
    assert_eq!(
        "99999999999999999999 b".parse::<Storage<Bytes>>(),
        Err(MeasureError::InvalidNumber(NumberError::Overflow))
    );
    assert_eq!(
        "1 b 2".parse::<Storage<Bytes>>(),
        Err(MeasureError::InvalidNumber(NumberError::InvalidDigit))
    );
}

#[test]
fn errors_describe_themselves() {
    assert_eq!(
        MeasureError::InvalidUnit.message(),
        "invalid unit found in string"
    );
    assert_eq!(
        MeasureError::InvalidNumber(NumberError::Empty).message(),
        "invalid number: empty"
    );
    assert_eq!(
        MeasureError::InvalidNumber(NumberError::Overflow).message(),
        "invalid number: too large"
    );
}
