use asn1_values::error::ERR_UNKNOWN_IDENTIFIER;
use asn1_values::object::Asn1Object;
use asn1_values::object::Nid;

#[test]
fn recognized_identifier_resolves_and_round_trips() {
    let o = Asn1Object::from_nid(Nid::CommonName).unwrap();
    assert_eq!(o.as_ref().text(), "commonName");
    assert_eq!(o.as_ref().nid(), Some(Nid::CommonName));
}

#[test]
fn every_recognized_identifier_round_trips() {
    let all = [
        Nid::CommonName,
        Nid::CountryName,
        Nid::LocalityName,
        Nid::StateOrProvinceName,
        Nid::OrganizationName,
        Nid::OrganizationalUnitName,
        Nid::RsaEncryption,
    ];
    for n in all {
        let o = Asn1Object::from_nid(n).unwrap();
        assert_eq!(o.as_ref().nid(), Some(n));
    }
}

#[test]
fn unrecognized_identifier_fails_resolution() {
    let e = Asn1Object::from_nid(Nid::Undef).unwrap_err();
    assert_eq!(e.codes(), &vec![ERR_UNKNOWN_IDENTIFIER]);
}

#[test]
fn registered_names_render() {
    let o = Asn1Object::from_nid(Nid::OrganizationalUnitName).unwrap();
    assert_eq!(o.as_ref().text(), "organizationalUnitName");
    let r = Asn1Object::from_nid(Nid::RsaEncryption).unwrap();
    assert_eq!(r.as_ref().text(), "rsaEncryption");
}

#[test]
fn unrecognized_arcs_render_dotted() {
    let o = Asn1Object::from_arcs(vec![1, 2, 840, 113549]);
    assert_eq!(o.as_ref().nid(), None);
    assert_eq!(o.as_ref().text(), "1.2.840.113549");
}

#[test]
fn recognized_arcs_reverse_map() {
    let o = Asn1Object::from_arcs(vec![2, 5, 4, 3]);
    assert_eq!(o.as_ref().nid(), Some(Nid::CommonName));
    assert_eq!(o.as_ref().text(), "commonName");
}

#[test]
fn empty_identifier_renders_empty() {
    let o = Asn1Object::new();
    assert_eq!(o.as_ref().nid(), None);
    assert_eq!(o.as_ref().text(), "");
}

#[test]
fn long_rendering_is_truncated() {
    let arc: u64 = 123456789012345678;
    let o = Asn1Object::from_arcs(vec![arc, arc, arc, arc, arc]);
    let full = format!("{0}.{0}.{0}.{0}.{0}", arc);
    assert_eq!(full.len(), 94);
    let expected: String = full.chars().take(79).collect();
    assert_eq!(o.as_ref().text(), expected);
}

#[test]
fn clone_is_identical_and_independently_destroyed() {
    let o = Asn1Object::from_nid(Nid::CommonName).unwrap();
    let c = o.clone();
    assert_eq!(c.as_ref().text(), o.as_ref().text());
    drop(c);
    assert_eq!(o.as_ref().text(), "commonName");
    assert_eq!(o.as_ref().nid(), Some(Nid::CommonName));
}
