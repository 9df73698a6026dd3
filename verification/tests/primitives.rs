use asn1_values::bit_string::Asn1BitString;
use asn1_values::error::ERR_NEGATIVE_INDEX;
use asn1_values::integer::Asn1Integer;

#[test]
fn integer_starts_at_zero() {
    let i = Asn1Integer::new();
    assert_eq!(i.as_ref().get(), 0);
}

#[test]
fn integer_set_then_get_positive() {
    let mut i = Asn1Integer::new();
    i.as_mut().set(42).unwrap();
    assert_eq!(i.as_ref().get(), 42);
}

#[test]
fn integer_set_then_get_negative() {
    let mut i = Asn1Integer::new();
    i.as_mut().set(-1).unwrap();
    assert_eq!(i.as_ref().get(), -1);
}

#[test]
fn integer_set_then_get_extremes() {
    let mut i = Asn1Integer::new();
    i.as_mut().set(i32::MAX).unwrap();
    assert_eq!(i.as_ref().get(), i32::MAX as i64);
    i.as_mut().set(i32::MIN).unwrap();
    assert_eq!(i.as_ref().get(), i32::MIN as i64);
}

#[test]
fn bit_set_true_then_get() {
    let mut b = Asn1BitString::new();
    b.as_mut().set_bit(0, true).unwrap();
    assert!(b.as_ref().get_bit(0));
    b.as_mut().set_bit(19, true).unwrap();
    assert!(b.as_ref().get_bit(19));
    assert!(b.as_ref().get_bit(0));
}

#[test]
fn bit_set_false_then_get() {
    let mut b = Asn1BitString::new();
    b.as_mut().set_bit(5, true).unwrap();
    b.as_mut().set_bit(5, false).unwrap();
    assert!(!b.as_ref().get_bit(5));
}

#[test]
fn bit_get_beyond_buffer_is_false() {
    let b = Asn1BitString::new();
    assert!(!b.as_ref().get_bit(0));
    assert!(!b.as_ref().get_bit(1000));
}

#[test]
fn bit_clear_beyond_buffer_is_a_no_op() {
    let mut b = Asn1BitString::from_bytes(vec![0x80]);
    b.as_mut().set_bit(100, false).unwrap();
    assert!(b.as_ref().get_bit(0));
    assert!(!b.as_ref().get_bit(100));
}

#[test]
fn bit_negative_index_is_rejected() {
    let mut b = Asn1BitString::new();
    let e = b.as_mut().set_bit(-1, true).unwrap_err();
    assert_eq!(e.codes(), &vec![ERR_NEGATIVE_INDEX]);
    assert!(!b.as_ref().get_bit(0));
}

#[test]
fn bit_buffer_contents_are_addressed_most_significant_first() {
    let b = Asn1BitString::from_bytes(vec![0b1010_0000, 0b0000_0001]);
    assert!(b.as_ref().get_bit(0));
    assert!(!b.as_ref().get_bit(1));
    assert!(b.as_ref().get_bit(2));
    assert!(b.as_ref().get_bit(15));
    assert!(!b.as_ref().get_bit(14));
}
