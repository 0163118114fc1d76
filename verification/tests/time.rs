use measurements::time::{
    Hours, Microseconds, Milliseconds, Minutes, Nanoseconds, Seconds, Span, Time, ToTime,
};

use std::mem::size_of;

#[test]
fn time_is_zero_cost() {
    assert_eq!(size_of::<Time<Nanoseconds>>(), size_of::<u64>());
    assert_eq!(size_of::<Time<Milliseconds>>(), size_of::<u64>());
    assert_eq!(size_of::<Time<Hours>>(), size_of::<u64>());
}

#[test]
fn microseconds_supports_unicode() {
    assert_eq!(
        "5 \u{b5}s".parse::<Time<Microseconds>>().expect("parse \u{b5}s"),
        "5 us".parse::<Time<Microseconds>>().expect("parse us")
    );
}

#[test]
fn seconds_suffix_sec_or_s() {
    assert_eq!(
        "5 sec".parse::<Time<Seconds>>().expect("parse sec"),
        "5 s".parse::<Time<Seconds>>().expect("parse s")
    );
}

#[test]
fn minutes_suffix_min_or_m() {
    assert_eq!(
        "5 min".parse::<Time<Minutes>>().expect("parse min"),
        "5 m".parse::<Time<Minutes>>().expect("parse m")
    );
}

#[test]
fn hours_suffix_hr_or_h() {
    assert_eq!(
        "5 hr".parse::<Time<Hours>>().expect("parse hr"),
        "5 h".parse::<Time<Hours>>().expect("parse h")
    );
}

#[test]
fn time_integer_conversions_dsl() {
    assert_eq!(7.nanoseconds(), Time::<Nanoseconds>::from(7));
    assert_eq!(7.microseconds(), Time::<Microseconds>::from(7));
    assert_eq!(7.milliseconds(), Time::<Milliseconds>::from(7));
    assert_eq!(7.seconds(), Time::<Seconds>::from(7));
    assert_eq!(7.minutes(), Time::<Minutes>::from(7));
    assert_eq!(7.hours(), Time::<Hours>::from(7));
}

#[test]
fn time_parsing_does_unit_conversions() {
    assert_eq!(
        "1000 ns".parse::<Time<Microseconds>>().expect("parse"),
        Time::<Microseconds>::from(1)
    );
    assert_eq!(
        "1000 us".parse::<Time<Milliseconds>>().expect("parse"),
        Time::<Milliseconds>::from(1)
    );
}

#[test]
fn time_parsing_simple() {
    assert_eq!(
        "200 ms".parse::<Time<Milliseconds>>().expect("parse"),
        Time::<Milliseconds>::from(200)
    );
    assert_eq!(
        "15 ns".parse::<Time<Nanoseconds>>().expect("parse"),
        Time::<Nanoseconds>::from(15)
    );
}

#[test]
fn span_round_trip_through_milliseconds() {
    let t = Time::<Milliseconds>::from(1500);
    let d = t.to_span();
    assert_eq!(d, Span { secs: 1, nanos: 500_000_000 });

    // sub-millisecond precision is dropped on the way out
    let t = Time::<Nanoseconds>::from(999_999);
    assert_eq!(t.to_span(), Span { secs: 0, nanos: 0 });
}

#[test]
fn span_conversion_sums_seconds_and_nanos() {
    let d = Span { secs: 2, nanos: 345 };
    let t: Time<Nanoseconds> = Time::from_span(d);
    // two seconds of 100_000_000 base units each, plus the nanoseconds
    assert_eq!(t, Time::<Nanoseconds>::from(200_000_345));
}

#[test]
fn time_display_uses_singular_exactly_at_one() {
    assert_eq!(Time::<Seconds>::from(1).display(), "1 second");
    assert_eq!(Time::<Seconds>::from(2).display(), "2 seconds");
    assert_eq!(Time::<Milliseconds>::from(0).display(), "0 milliseconds");
}
