use gaugen::hooks::{add_hook, Hooks};
use gaugen::json::{one_member, push_member, set_member, Json};
use gaugen::scalar::Scalar;

#[test]
fn parse_reads_every_kind_of_value() {
    let doc = Json::parse(r#"{"b": [1, 2.5, -3, "x", null, true, {"k": false}], "a": "é\n"}"#).unwrap();
    // members come in the order of their names
    let members = doc.as_object().unwrap();
    assert_eq!(members.len(), 2);
    assert_eq!(members[0].0, "a");
    assert_eq!(members[0].1, Json::Text("é\n".to_string()));
    assert_eq!(members[1].0, "b");
    let items = doc.get("b").unwrap().as_array().unwrap();
    assert_eq!(items.len(), 7);
    assert_eq!(items[0], Json::Number("1".to_string()));
    assert_eq!(items[1], Json::Number("2.5".to_string()));
    assert_eq!(items[2], Json::Number("-3".to_string()));
    assert_eq!(items[3], Json::Text("x".to_string()));
    assert_eq!(items[4], Json::Null);
    assert_eq!(items[5], Json::Bool(true));
    assert_eq!(items[6], Json::Object(vec![("k".to_string(), Json::Bool(false))]));
    assert_eq!(items[1].as_scalar(), Some(Scalar::new(2_500_000)));
    assert_eq!(items[0].as_natural(10), Some(1));
    assert_eq!(items[1].as_natural(10), None);
    assert_eq!(items[3].as_str(), Some("x"));
    assert_eq!(items[3].as_scalar(), None);
}

#[test]
fn parse_refuses_what_is_no_json() {
    assert_eq!(Json::parse(""), None);
    assert_eq!(Json::parse("{"), None);
    assert_eq!(Json::parse("[1,]"), None);
    assert_eq!(Json::parse("nul"), None);
    assert_eq!(Json::parse("1 2"), None);
    assert_eq!(Json::parse("7"), Some(Json::Number("7".to_string())));
    assert_eq!(Json::parse(" null "), Some(Json::Null));
}

#[test]
fn parse_keeps_the_last_of_members_with_one_name() {
    let doc = Json::parse(r#"{"a": 1, "a": 2}"#).unwrap();
    assert_eq!(doc.as_object().unwrap().len(), 1);
    assert_eq!(doc.field_natural("a", 9), Some(2));
}

#[test]
fn get_finds_the_first_member_of_a_name() {
    let doc = Json::Object(vec![
        ("a".to_string(), Json::Bool(true)),
        ("b".to_string(), Json::Null),
        ("a".to_string(), Json::Bool(false)),
    ]);
    assert_eq!(doc.get("a"), Some(&Json::Bool(true)));
    assert_eq!(doc.get("b"), Some(&Json::Null));
    assert_eq!(doc.get("c"), None);
    assert_eq!(Json::Null.get("a"), None);
    assert_eq!(Json::Array(vec![]).get("a"), None);
    assert_eq!(doc.only_member(), None);
    let one = Json::Object(vec![("k".to_string(), Json::Null)]);
    assert_eq!(one.only_member(), Some(("k", &Json::Null)));
}

#[test]
fn values_are_made_and_copied() {
    let number = Json::number(Scalar::new(-1_250_000));
    assert_eq!(number, Json::Number("-1.250000".to_string()));
    assert_eq!(Json::natural(42), Json::Number("42".to_string()));
    assert_eq!(Json::text("hé"), Json::Text("hé".to_string()));
    let mut members = one_member("a", Json::Null);
    push_member(&mut members, "b", Json::array(vec![number.clone(), Json::Bool(true)]));
    let object = Json::object(members);
    let copy = object.clone();
    assert_eq!(copy, object);
    assert_eq!(copy.get("b").unwrap().as_array().unwrap()[0].as_scalar(), Some(Scalar::new(-1_250_000)));
}

#[test]
fn set_member_replaces_or_appends() {
    let mut members = one_member("a", Json::Null);
    set_member(&mut members, "b", Json::Bool(true));
    set_member(&mut members, "a", Json::Bool(false));
    assert_eq!(members, vec![("a".to_string(), Json::Bool(false)), ("b".to_string(), Json::Bool(true))]);
}

#[test]
fn add_hook_sets_properties_by_component() {
    let mut hooks = Hooks::new();
    assert!(hooks.get("speed").is_none());
    add_hook(&mut hooks, "speed", "value", Json::number(Scalar::from_int(120)));
    add_hook(&mut hooks, "gear", "front_color", Json::text("ff808080"));
    add_hook(&mut hooks, "speed", "caption", Json::text("kt"));
    add_hook(&mut hooks, "speed", "value", Json::number(Scalar::from_int(130)));
    assert_eq!(hooks.components.len(), 2);
    assert_eq!(
        hooks.get("speed").unwrap(),
        &vec![
            ("value".to_string(), Json::Number("130.000000".to_string())),
            ("caption".to_string(), Json::Text("kt".to_string())),
        ]
    );
    assert_eq!(hooks.get("gear").unwrap(), &vec![("front_color".to_string(), Json::Text("ff808080".to_string()))]);
    assert!(hooks.get("flaps").is_none());
}

#[test]
fn numbers_with_an_exponent_are_read() {
    let doc = Json::parse(r#"[1e-7, 2.5e-6, 1.5e3, 1e16, 0.00004]"#).unwrap();
    let items = doc.as_array().unwrap();
    assert_eq!(items[0], Json::Number("1e-7".to_string()));
    assert_eq!(items[0].as_scalar(), Some(Scalar::new(0)));
    assert_eq!(items[1].as_scalar(), Some(Scalar::new(2)));
    assert_eq!(items[2].as_scalar(), Some(Scalar::from_int(1500)));
    assert_eq!(items[3].as_scalar(), None);
    assert_eq!(items[4].as_scalar(), Some(Scalar::new(40)));
    assert_eq!(Json::Number("-3E2".to_string()).as_scalar(), Some(Scalar::from_int(-300)));
    assert_eq!(Json::Text("3e2".to_string()).as_scalar(), None);
}
