use asn1_values::error::ERR_TIME_RANGE;
use asn1_values::time::Asn1GeneralizedTime;
use asn1_values::time::Asn1Time;
use asn1_values::time::MAX_REPRESENTABLE_SECS;

fn system_now_secs() -> u64 {
    match std::time::SystemTime::now().duration_since(std::time::UNIX_EPOCH) {
        Ok(d) => d.as_secs(),
        Err(_) => 0,
    }
}

#[test]
fn epoch_renders_as_new_years_day_1970() {
    let t = Asn1Time::from_unix(0).unwrap();
    assert_eq!(t.as_ref().text(), "Jan  1 00:00:00 1970 GMT");
}

#[test]
fn single_digit_days_are_space_padded() {
    let t = Asn1Time::from_unix(86400).unwrap();
    assert_eq!(t.as_ref().text(), "Jan  2 00:00:00 1970 GMT");
}

#[test]
fn leap_day_renders() {
    let t = Asn1Time::from_unix(951827696).unwrap();
    assert_eq!(t.as_ref().text(), "Feb 29 12:34:56 2000 GMT");
}

#[test]
fn last_representable_instant_renders() {
    let t = Asn1Time::from_unix(MAX_REPRESENTABLE_SECS - 1).unwrap();
    assert_eq!(t.as_ref().text(), "Dec 31 23:59:59 9999 GMT");
}

#[test]
fn out_of_range_instant_is_rejected() {
    let e = Asn1Time::from_unix(MAX_REPRESENTABLE_SECS).unwrap_err();
    assert_eq!(e.codes(), &vec![ERR_TIME_RANGE]);
}

#[test]
fn offset_from_a_fixed_now_is_exact() {
    let t = Asn1Time::from_now_offset(0, 1).unwrap();
    assert_eq!(t.as_ref().text(), "Jan  2 00:00:00 1970 GMT");
}

#[test]
fn offset_landing_out_of_range_is_rejected() {
    let e = Asn1Time::from_now_offset(MAX_REPRESENTABLE_SECS - 86400, 1).unwrap_err();
    assert_eq!(e.codes(), &vec![ERR_TIME_RANGE]);
    let ok = Asn1Time::from_now_offset(MAX_REPRESENTABLE_SECS - 86400 - 1, 1).unwrap();
    assert_eq!(ok.as_ref().text(), "Dec 31 23:59:59 9999 GMT");
}

#[test]
fn zero_days_from_now_renders_the_current_date() {
    let before = system_now_secs();
    let t = Asn1Time::days_from_now(0).unwrap();
    let after = system_now_secs();
    let text = t.as_ref().text();
    let mut matched = false;
    for s in before..=after {
        if text == Asn1Time::from_unix(s).unwrap().as_ref().text() {
            matched = true;
        }
    }
    assert!(matched);
}

#[test]
fn a_year_from_now_renders_one_year_later() {
    let before = system_now_secs();
    let t = Asn1Time::days_from_now(365).unwrap();
    let after = system_now_secs();
    let text = t.as_ref().text();
    let mut matched = false;
    for s in before..=after {
        let shifted = Asn1Time::from_unix(s + 365 * 86400).unwrap();
        if text == shifted.as_ref().text() {
            matched = true;
        }
    }
    assert!(matched);
}

#[test]
fn generalized_time_renders_like_time() {
    let g = Asn1GeneralizedTime::from_unix(951827696).unwrap();
    assert_eq!(g.as_ref().text(), "Feb 29 12:34:56 2000 GMT");
    let e = Asn1GeneralizedTime::from_unix(MAX_REPRESENTABLE_SECS).unwrap_err();
    assert_eq!(e.codes(), &vec![ERR_TIME_RANGE]);
}
