use asn1_values::error::ERR_BAD_ENCODING;
use asn1_values::octet_string::Asn1OctetString;
use asn1_values::strings::Asn1String;
use asn1_values::strings::StrKind;

#[test]
fn slice_and_len_agree_after_construction() {
    let s = Asn1String::from_bytes(StrKind::Ia5String, b"Hello".to_vec());
    assert_eq!(s.as_ref().as_slice().len(), s.as_ref().len());
    let empty = Asn1String::from_bytes(StrKind::PrintableString, Vec::new());
    assert_eq!(empty.as_ref().as_slice().len(), empty.as_ref().len());
    assert_eq!(empty.as_ref().len(), 0);
}

#[test]
fn slice_exposes_the_stored_bytes() {
    let s = Asn1String::from_bytes(StrKind::Ia5String, vec![0x48, 0x69]);
    assert_eq!(s.as_ref().as_slice(), &[0x48, 0x69]);
    assert_eq!(s.as_ref().len(), 2);
}

#[test]
fn ascii_converts_byte_for_byte() {
    let s = Asn1String::from_bytes(StrKind::Ia5String, b"Hello".to_vec());
    let t = s.as_ref().as_utf8().unwrap();
    assert_eq!(t.as_str(), "Hello");
}

#[test]
fn eight_bit_text_converts_as_character_codes() {
    let s = Asn1String::from_bytes(StrKind::TeletexString, vec![0x63, 0x61, 0x66, 0xE9]);
    let t = s.as_ref().as_utf8().unwrap();
    assert_eq!(t.as_str(), "caf\u{e9}");
}

#[test]
fn two_byte_units_convert_big_endian() {
    let s = Asn1String::from_bytes(StrKind::BmpString, vec![0x00, 0x48, 0x00, 0x69, 0x20, 0x1E]);
    let t = s.as_ref().as_utf8().unwrap();
    assert_eq!(t.as_str(), "Hi\u{201e}");
}

#[test]
fn two_byte_units_reject_odd_length() {
    let s = Asn1String::from_bytes(StrKind::BmpString, vec![0x00]);
    let e = s.as_ref().as_utf8().unwrap_err();
    assert_eq!(e.codes(), &vec![ERR_BAD_ENCODING]);
}

#[test]
fn two_byte_units_reject_surrogates() {
    let s = Asn1String::from_bytes(StrKind::BmpString, vec![0xD8, 0x00, 0x00, 0x41]);
    let e = s.as_ref().as_utf8().unwrap_err();
    assert_eq!(e.codes(), &vec![ERR_BAD_ENCODING]);
}

#[test]
fn multi_byte_text_decodes() {
    let s = Asn1String::from_bytes(
        StrKind::Utf8String,
        vec![0x63, 0x61, 0x66, 0xC3, 0xA9, 0x20, 0xE2, 0x82, 0xAC, 0x20, 0xF0, 0x9F, 0x98, 0x80],
    );
    let t = s.as_ref().as_utf8().unwrap();
    assert_eq!(t.as_str(), "caf\u{e9} \u{20ac} \u{1f600}");
}

#[test]
fn multi_byte_text_rejects_bad_continuation() {
    let s = Asn1String::from_bytes(StrKind::Utf8String, vec![0xC3, 0x28]);
    let e = s.as_ref().as_utf8().unwrap_err();
    assert_eq!(e.codes(), &vec![ERR_BAD_ENCODING]);
}

#[test]
fn multi_byte_text_rejects_overlong_encodings() {
    let s = Asn1String::from_bytes(StrKind::Utf8String, vec![0xC0, 0x80]);
    let e = s.as_ref().as_utf8().unwrap_err();
    assert_eq!(e.codes(), &vec![ERR_BAD_ENCODING]);
}

#[test]
fn multi_byte_text_rejects_encoded_surrogates() {
    let s = Asn1String::from_bytes(StrKind::Utf8String, vec![0xED, 0xA0, 0x80]);
    let e = s.as_ref().as_utf8().unwrap_err();
    assert_eq!(e.codes(), &vec![ERR_BAD_ENCODING]);
}

#[test]
fn multi_byte_text_rejects_truncated_scalars() {
    let s = Asn1String::from_bytes(StrKind::Utf8String, vec![0x41, 0xE2, 0x82]);
    let e = s.as_ref().as_utf8().unwrap_err();
    assert_eq!(e.codes(), &vec![ERR_BAD_ENCODING]);
}

#[test]
fn octets_render_printable_text() {
    let o = Asn1OctetString::from_bytes(b"Hello".to_vec());
    assert_eq!(o.as_ref().text(), "Hello");
}

#[test]
fn octets_dot_out_unprintable_bytes() {
    let o = Asn1OctetString::from_bytes(vec![0x41, 0x00, 0x7F, 0x0A, 0x42]);
    assert_eq!(o.as_ref().text(), "A..\nB");
}

#[test]
fn octet_clone_is_identical_and_independent() {
    let o = Asn1OctetString::from_bytes(vec![1, 2, 3]);
    let c = o.clone();
    assert_eq!(c.as_ref().as_slice(), o.as_ref().as_slice());
    assert_eq!(c.as_ref().text(), o.as_ref().text());
    drop(c);
    assert_eq!(o.as_ref().as_slice(), &[1, 2, 3]);
}
