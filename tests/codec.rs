use dynamodb_email_indexer::attribute_helper::{AttrValue, AttributeHelper, AttributeMap, DecodeError};
use dynamodb_email_indexer::email::Email;
use dynamodb_email_indexer::message::Message;

fn map(entries: Vec<(&str, AttrValue)>) -> AttributeMap {
    AttributeMap { entries: entries.into_iter().map(|(k, v)| (k.to_string(), v)).collect() }
}

fn s(v: &str) -> AttrValue {
    AttrValue::S(v.to_string())
}

fn field_of(e: &DecodeError) -> String {
    match e {
        DecodeError::FieldMissingOrWrongType { field } => field.clone(),
    }
}

#[test]
fn parse_string_present() {
    let m = map(vec![("id", s("e1")), ("subject", s("hello"))]);
    assert_eq!(AttributeHelper::parse_string(&m, "subject").ok(), Some("hello".to_string()));
}

#[test]
fn parse_string_missing() {
    let m = map(vec![("id", s("e1"))]);
    let e = AttributeHelper::parse_string(&m, "body").err().unwrap();
    assert_eq!(field_of(&e), "body");
    assert_eq!(e.message(), "body missing");
}

#[test]
fn parse_string_wrong_tag() {
    let m = map(vec![("to", AttrValue::Ss(vec!["a@x.com".to_string()]))]);
    assert!(AttributeHelper::parse_string(&m, "to").is_err());
    let m = map(vec![("id", AttrValue::Other)]);
    assert!(AttributeHelper::parse_string(&m, "id").is_err());
}

#[test]
fn parse_string_first_entry_wins() {
    let m = map(vec![("id", s("first")), ("id", s("second"))]);
    assert_eq!(AttributeHelper::parse_string(&m, "id").ok(), Some("first".to_string()));
}

#[test]
fn parse_int_64_values() {
    let m = map(vec![
        ("a", s("42")),
        ("b", s("-7")),
        ("c", s("+3")),
        ("d", s("007")),
        ("max", s("9223372036854775807")),
        ("min", s("-9223372036854775808")),
    ]);
    assert_eq!(AttributeHelper::parse_int_64(&m, "a").ok(), Some(42));
    assert_eq!(AttributeHelper::parse_int_64(&m, "b").ok(), Some(-7));
    assert_eq!(AttributeHelper::parse_int_64(&m, "c").ok(), Some(3));
    assert_eq!(AttributeHelper::parse_int_64(&m, "d").ok(), Some(7));
    assert_eq!(AttributeHelper::parse_int_64(&m, "max").ok(), Some(i64::MAX));
    assert_eq!(AttributeHelper::parse_int_64(&m, "min").ok(), Some(i64::MIN));
}

#[test]
fn parse_int_64_rejects() {
    let m = map(vec![
        ("empty", s("")),
        ("word", s("abc")),
        ("space", s(" 1")),
        ("sign", s("-")),
        ("over", s("9223372036854775808")),
        ("set", AttrValue::Ss(vec!["1".to_string()])),
    ]);
    for name in ["empty", "word", "space", "sign", "over", "set", "absent"] {
        let e = AttributeHelper::parse_int_64(&m, name).err().unwrap();
        assert_eq!(field_of(&e), name);
    }
}

#[test]
fn parse_string_array_values() {
    let m = map(vec![("to", AttrValue::Ss(vec!["a@x.com".to_string(), "b@x.com".to_string()])), ("id", s("e1"))]);
    assert_eq!(
        AttributeHelper::parse_string_array(&m, "to").ok(),
        Some(vec!["a@x.com".to_string(), "b@x.com".to_string()])
    );
    assert!(AttributeHelper::parse_string_array(&m, "id").is_err());
    assert!(AttributeHelper::parse_string_array(&m, "cc").is_err());
}

fn sample_email() -> Email {
    Email {
        id: "e1".to_string(),
        timestamp: Some(-42),
        subject: "hello".to_string(),
        body: "world".to_string(),
        to: vec!["a@x.com".to_string()],
    }
}

#[test]
fn email_attributes_image() {
    let m = sample_email().attributes();
    let names: Vec<&str> = m.entries.iter().map(|(k, _)| k.as_str()).collect();
    assert_eq!(names, vec!["id", "subject", "body", "to", "timestamp"]);
    assert!(matches!(&m.entries[4].1, AttrValue::S(t) if t == "-42"));
    assert!(matches!(&m.entries[3].1, AttrValue::Ss(v) if v == &vec!["a@x.com".to_string()]));
}

#[test]
fn email_round_trip() {
    let m = sample_email().attributes();
    let e = Email::from(&m).ok().unwrap();
    assert_eq!(e.id, "e1");
    assert_eq!(e.timestamp, Some(-42));
    assert_eq!(e.subject, "hello");
    assert_eq!(e.body, "world");
    assert_eq!(e.to, vec!["a@x.com".to_string()]);
}

#[test]
fn email_from_reports_first_bad_field() {
    let m = map(vec![("id", s("e1")), ("timestamp", s("soon")), ("subject", s("x"))]);
    assert_eq!(field_of(&Email::from(&m).err().unwrap()), "timestamp");
    let m = map(vec![("id", s("e1")), ("timestamp", s("1")), ("subject", s("x")), ("to", AttrValue::Ss(vec![]))]);
    assert_eq!(field_of(&Email::from(&m).err().unwrap()), "body");
}

#[test]
fn email_without_timestamp() {
    let m = map(vec![("id", s("e1")), ("subject", s("hello")), ("body", s("world")), ("to", AttrValue::Ss(vec!["a@x.com".to_string()]))]);
    let e = Email::from(&m).ok().unwrap();
    assert_eq!(e.timestamp, None);
    let d = e.to_document();
    let names: Vec<&str> = d.fields.iter().map(|(k, _)| k.as_str()).collect();
    assert_eq!(names, vec!["id", "subject", "body", "to"]);
    let image = e.attributes();
    assert_eq!(image.entries.len(), 4);
}

#[test]
fn parse_optional_int_64_values() {
    let m = map(vec![("t", s("12")), ("bad", s("x")), ("set", AttrValue::Ss(vec![]))]);
    assert_eq!(AttributeHelper::parse_optional_int_64(&m, "t").ok(), Some(Some(12)));
    assert_eq!(AttributeHelper::parse_optional_int_64(&m, "absent").ok(), Some(None));
    assert_eq!(field_of(&AttributeHelper::parse_optional_int_64(&m, "bad").err().unwrap()), "bad");
    assert!(AttributeHelper::parse_optional_int_64(&m, "set").is_err());
}

#[test]
fn email_document_fields() {
    let mut e = sample_email();
    e.to.push("b@x.com".to_string());
    let d = e.to_document();
    assert_eq!(d.identity, "e1");
    let names: Vec<&str> = d.fields.iter().map(|(k, _)| k.as_str()).collect();
    assert_eq!(names, vec!["id", "timestamp", "subject", "body", "to", "to"]);
}

#[test]
fn message_round_trip_and_identity() {
    let msg = Message {
        pk: "user#1".to_string(),
        sk: "msg#9".to_string(),
        subject: "hi".to_string(),
        body: "there".to_string(),
    };
    assert_eq!(msg.identity(), "user#1:msg#9");
    let d = msg.to_document();
    assert_eq!(d.identity, "user#1:msg#9");
    let m = msg.attributes();
    let back = Message::from(&m).ok().unwrap();
    assert_eq!((back.pk.as_str(), back.sk.as_str(), back.subject.as_str(), back.body.as_str()), ("user#1", "msg#9", "hi", "there"));
}

#[test]
fn message_from_missing_sk() {
    let m = map(vec![("PK", s("p")), ("subject", s("x")), ("body", s("y"))]);
    assert_eq!(field_of(&Message::from(&m).err().unwrap()), "SK");
}
