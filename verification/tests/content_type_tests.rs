use typechain::ContentType;

#[test]
fn test_get_type() {
    assert_eq!(
        ContentType::new("application/json").get_type(),
        "application"
    );
}

#[test]
fn test_get_type_no_subtypes() {
    assert_eq!(
        ContentType::new("application-json").get_type(),
        "application-json"
    );
}

#[test]
fn test_get_subtype() {
    let ct = ContentType::new("application/json");
    assert_eq!(ct.num_subtypes(), 1);
    assert_eq!(ct.get_subtype(0), Some("json"));
}

#[test]
fn test_get_subtype_no_subtypes() {
    let ct = ContentType::new("application-json");
    assert_eq!(ct.num_subtypes(), 0);
    assert_eq!(ct.get_subtype(0), None);
}

#[test]
fn test_get_subtype_two_subtypes() {
    let ct = ContentType::new("application/json+base64");
    assert_eq!(ct.num_subtypes(), 2);
    assert_eq!(ct.get_subtype(0), Some("json"));
    assert_eq!(ct.get_subtype(1), Some("base64"));
}

#[test]
fn test_get_subtype_three_subtypes() {
    let ct = ContentType::new("application/json+sbox+base64");
    assert_eq!(ct.num_subtypes(), 3);
    assert_eq!(ct.get_subtype(0), Some("json"));
    assert_eq!(ct.get_subtype(1), Some("sbox"));
    assert_eq!(ct.get_subtype(2), Some("base64"));
}

#[test]
fn test_iter_subtypes_three_subtypes() {
    let ct = ContentType::new("application/json+sbox+base64");
    let mut cti = ct.iter_subtypes();
    assert_eq!(cti.next(), Some("json"));
    assert_eq!(cti.next(), Some("sbox"));
    assert_eq!(cti.next(), Some("base64"));
    assert_eq!(cti.next(), None);
}

#[test]
fn test_pop_subtype() {
    let mut ct = ContentType::new("application/json+sbox+base64");
    ct.pop_subtype();
    assert_eq!(ct.as_ref(), "application/json+sbox");
    ct.pop_subtype();
    assert_eq!(ct.as_ref(), "application/json");
    ct.pop_subtype();
    assert_eq!(ct.as_ref(), "application");
}

#[test]
fn test_push_subtype() {
    let mut ct = ContentType::new("application");
    assert_eq!(ct.as_ref(), "application");
    ct.push_subtype("json");
    assert_eq!(ct.as_ref(), "application/json");
    ct.push_subtype("sbox");
    assert_eq!(ct.as_ref(), "application/json+sbox");
    ct.push_subtype("base64");
    assert_eq!(ct.as_ref(), "application/json+sbox+base64");
}

#[test]
fn test_last_subtype() {
    let ct = ContentType::new("application/json+base64");
    assert_eq!(ct.last_subtype(), Some("base64"));
    let none = ContentType::new("application-json");
    assert_eq!(none.last_subtype(), None);
}

#[test]
fn test_push_then_pop_is_identity_on_render() {
    let mut ct = ContentType::new("application/json+base64");
    ct.pop_subtype();
    assert_eq!(ct.as_ref(), "application/json");
    ct.push_subtype("sbox");
    ct.pop_subtype();
    assert_eq!(ct.as_ref(), "application/json");
}

#[test]
fn test_pop_subtype_zero_tags_is_noop() {
    let mut ct = ContentType::new("application-json");
    ct.pop_subtype();
    assert_eq!(ct.as_ref(), "application-json");
    assert_eq!(ct.num_subtypes(), 0);
}

#[test]
fn test_empty_source() {
    let ct = ContentType::new("");
    assert_eq!(ct.num_subtypes(), 0);
    assert_eq!(ct.get_type(), "");
    assert_eq!(ct.as_ref(), "");
}

#[test]
fn test_leading_slash() {
    let ct = ContentType::new("/json");
    assert_eq!(ct.get_type(), "");
    assert_eq!(ct.num_subtypes(), 1);
    assert_eq!(ct.get_subtype(0), Some("json"));
}

#[test]
fn test_trailing_plus() {
    let ct = ContentType::new("a/b+");
    assert_eq!(ct.num_subtypes(), 2);
    assert_eq!(ct.get_subtype(0), Some("b"));
    assert_eq!(ct.get_subtype(1), Some(""));
    assert_eq!(ct.last_subtype(), Some(""));
}

#[test]
fn test_eq_is_on_render() {
    let mut popped = ContentType::new("application/json+base64");
    popped.pop_subtype();
    let fresh = ContentType::new("application/json");
    assert!(popped.eq(&fresh));
    assert!(!popped.eq(&ContentType::new("application/json+base64")));
}
