use measurements::storage::{Bytes, Gigabytes, Kilobytes, Megabytes, Storage, ToStorage};

use std::mem::size_of;

#[test]
fn storage_is_zero_cost() {
    assert_eq!(size_of::<Storage<Bytes>>(), size_of::<u64>());
    assert_eq!(size_of::<Storage<Kilobytes>>(), size_of::<u64>());
    assert_eq!(size_of::<Storage<Megabytes>>(), size_of::<u64>());
    assert_eq!(size_of::<Storage<Gigabytes>>(), size_of::<u64>());
}

#[test]
fn storage_parsing_simple() {
    assert_eq!(
        "15 GB".parse::<Storage<Gigabytes>>().expect("parse"),
        Storage::<Gigabytes>::from(15)
    );
    assert_eq!(
        "15 MB".parse::<Storage<Megabytes>>().expect("parse"),
        Storage::<Megabytes>::from(15)
    );
}

#[test]
fn storage_parsing_does_unit_conversions() {
    assert_eq!(
        "1024 B".parse::<Storage<Kilobytes>>().expect("parse"),
        Storage::<Kilobytes>::from(1)
    );

    assert_eq!(
        "4096 KB".parse::<Storage<Kilobytes>>().expect("parse"),
        Storage::<Megabytes>::from(4)
    );
}

#[test]
fn parsing_is_case_insensitive() {
    assert_eq!(
        "15 gb".parse::<Storage<Gigabytes>>().expect("parse"),
        Storage::<Gigabytes>::from(15)
    );
    assert_eq!(
        "15 gB".parse::<Storage<Megabytes>>().expect("parse"),
        "15 GB".parse::<Storage<Gigabytes>>().expect("parse"),
    );
    assert_eq!(
        "15 Gb".parse::<Storage<Megabytes>>().expect("parse"),
        "15 gb".parse::<Storage<Gigabytes>>().expect("parse"),
    );
}

#[test]
fn parsing_handles_leading_and_trailing_whitespace() {
    assert_eq!(
        " 15 GB".parse::<Storage<Gigabytes>>().expect("parse ' 15 GB'"),
        Storage::<Gigabytes>::from(15)
    );
    assert_eq!(
        "15GB".parse::<Storage<Gigabytes>>().expect("parse '15GB'"),
        Storage::<Gigabytes>::from(15)
    );
    assert_eq!(
        "15 gb ".parse::<Storage<Gigabytes>>().expect("parse '15 gb '"),
        Storage::<Gigabytes>::from(15)
    );
    assert_eq!(
        " 15 gb ".parse::<Storage<Gigabytes>>().expect("parse ' 15 gb '"),
        Storage::<Gigabytes>::from(15)
    );
}

#[test]
fn integer_conversions_dsl() {
    assert_eq!(10.bytes(), Storage::<Bytes>::from(10));
    assert_eq!(22.kilobytes(), Storage::<Kilobytes>::from(22));
    assert_eq!(90.megabytes(), Storage::<Megabytes>::from(90));
    assert_eq!(128.gigabytes(), Storage::<Gigabytes>::from(128));
}
