use gifplan::duration::{Duration, DurationField, ParseError};

#[test]
fn parse_seconds_only() {
    assert_eq!(Duration::from_str("90"), Ok(Duration { h: 0, m: 0, s: 90 }));
}

#[test]
fn parse_minutes_seconds() {
    assert_eq!(Duration::from_str("1:05"), Ok(Duration { h: 0, m: 1, s: 5 }));
}

#[test]
fn parse_hours_minutes_seconds() {
    assert_eq!(Duration::from_str("2:00:30"), Ok(Duration { h: 2, m: 0, s: 30 }));
}

#[test]
fn parse_four_parts_rejected() {
    assert_eq!(Duration::from_str("1:2:3:4"), Err(ParseError::WrongComponentCount));
}

#[test]
fn parse_empty_rejected() {
    assert_eq!(
        Duration::from_str(""),
        Err(ParseError::NotAnInteger(DurationField::Seconds))
    );
}

#[test]
fn parse_names_first_bad_field() {
    assert_eq!(
        Duration::from_str("x:05"),
        Err(ParseError::NotAnInteger(DurationField::Minutes))
    );
    assert_eq!(
        Duration::from_str("1:x"),
        Err(ParseError::NotAnInteger(DurationField::Seconds))
    );
    assert_eq!(
        Duration::from_str("x:2:3"),
        Err(ParseError::NotAnInteger(DurationField::Hours))
    );
    assert_eq!(
        Duration::from_str("1:x:3"),
        Err(ParseError::NotAnInteger(DurationField::Minutes))
    );
    assert_eq!(
        Duration::from_str("1:2:x"),
        Err(ParseError::NotAnInteger(DurationField::Seconds))
    );
}

#[test]
fn parse_component_overflow_rejected() {
    assert_eq!(
        Duration::from_str("4294967296"),
        Err(ParseError::NotAnInteger(DurationField::Seconds))
    );
    assert_eq!(
        Duration::from_str("4294967295"),
        Ok(Duration { h: 0, m: 0, s: 4294967295 })
    );
}

#[test]
fn parse_accepts_uncanonical_components() {
    assert_eq!(Duration::from_str("0:99:99"), Ok(Duration { h: 0, m: 99, s: 99 }));
}

#[test]
fn to_seconds_additive() {
    assert_eq!(Duration { h: 1, m: 30, s: 15 }.to_seconds(), 5415);
}

#[test]
fn to_seconds_zero() {
    assert_eq!(Duration { h: 0, m: 0, s: 0 }.to_seconds(), 0);
}

#[test]
fn to_seconds_largest_components() {
    let d = Duration { h: u32::MAX, m: u32::MAX, s: u32::MAX };
    assert_eq!(
        d.to_seconds(),
        u32::MAX as u64 * 3600 + u32::MAX as u64 * 60 + u32::MAX as u64
    );
}

#[test]
fn from_seconds_floor() {
    let total = (3661.9f64).floor() as u32;
    assert_eq!(Duration::from_seconds(total), Duration { h: 1, m: 1, s: 1 });
}

#[test]
fn from_seconds_boundaries() {
    assert_eq!(Duration::from_seconds(0), Duration { h: 0, m: 0, s: 0 });
    assert_eq!(Duration::from_seconds(3599), Duration { h: 0, m: 59, s: 59 });
    assert_eq!(Duration::from_seconds(3600), Duration { h: 1, m: 0, s: 0 });
}

#[test]
fn renders_without_padding() {
    assert_eq!(Duration { h: 1, m: 2, s: 3 }.to_text(), "1:2:3");
    assert_eq!(Duration { h: 0, m: 0, s: 0 }.to_text(), "0:0:0");
    assert_eq!(Duration { h: 10, m: 59, s: 7 }.to_text(), "10:59:7");
}

#[test]
fn parse_of_rendered_text_round_trips() {
    let cases = [
        Duration { h: 0, m: 0, s: 0 },
        Duration { h: 5, m: 59, s: 59 },
        Duration { h: 123, m: 4, s: 56 },
        Duration { h: u32::MAX, m: 59, s: 59 },
    ];
    for d in cases {
        assert_eq!(Duration::from_str(&d.to_text()), Ok(d));
    }
}
