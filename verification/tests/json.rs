use ddg::json::{Json, Member};
use ddg::record::field;
use ddg::text::TextFault;
use ddg::{DecodeError, KeyScanner};

fn member(key: &str, value: Json) -> Member {
    Member { key: key.to_string(), value }
}

#[test]
fn parse_reads_every_kind_of_value() {
    let document = Json::parse(r#"{"n":null,"b":[true,false],"i":18446744073709551615,"s":"téxt","o":{}}"#);
    assert_eq!(
        document,
        Ok(Json::Object(vec![
            member("n", Json::Null),
            member("b", Json::Array(vec![Json::Bool(true), Json::Bool(false)])),
            member("i", Json::Number(u64::MAX)),
            member("s", Json::Str("t\u{e9}xt".to_string())),
            member("o", Json::Object(vec![])),
        ]))
    );
}

#[test]
fn parse_keeps_other_numbers_as_their_text() {
    assert_eq!(Json::parse("-5"), Ok(Json::Decimal("-5".to_string())));
    assert_eq!(Json::parse("1.5"), Ok(Json::Decimal("1.5".to_string())));
    assert_eq!(Json::parse("0"), Ok(Json::Number(0)));
    assert_eq!(Json::parse("42"), Ok(Json::Number(42)));
}

#[test]
fn parse_keeps_the_order_of_members() {
    let document = Json::parse(r#"{"z":1,"a":2,"m":3}"#).unwrap();
    match document {
        Json::Object(members) => {
            let keys: Vec<&str> = members.iter().map(|m| m.key.as_str()).collect();
            assert_eq!(keys, vec!["z", "a", "m"]);
        }
        other => panic!("expected an object, got {:?}", other),
    }
}

#[test]
fn parse_sees_a_repeated_key_once() {
    let document = Json::parse(r#"{"a":1,"b":2,"a":3}"#);
    assert_eq!(
        document,
        Ok(Json::Object(vec![member("a", Json::Number(3)), member("b", Json::Number(2))]))
    );
}

#[test]
fn parse_tells_a_short_text_from_a_wrong_one() {
    assert_eq!(Json::parse(""), Err(TextFault::Truncated));
    assert_eq!(Json::parse("[1,"), Err(TextFault::Truncated));
    assert_eq!(Json::parse("\"open"), Err(TextFault::Truncated));
    assert_eq!(Json::parse("[1,]"), Err(TextFault::Malformed));
    assert_eq!(Json::parse("nil"), Err(TextFault::Malformed));
    assert_eq!(DecodeError::from_fault(TextFault::Truncated), DecodeError::UnexpectedEndOfInput);
    assert_eq!(DecodeError::from_fault(TextFault::Malformed), DecodeError::Syntax);
}

#[test]
fn from_value_copies_a_tree() {
    let mut inner = serde_json::Map::new();
    inner.insert("k".to_string(), serde_json::Value::String("v".to_string()));
    inner.insert("n".to_string(), serde_json::Value::from(7u64));
    inner.insert("m".to_string(), serde_json::Value::from(-7i64));
    let value = serde_json::Value::Array(vec![
        serde_json::Value::Null,
        serde_json::Value::Bool(true),
        serde_json::Value::Object(inner),
    ]);
    assert_eq!(
        Json::from_value(&value),
        Json::Array(vec![
            Json::Null,
            Json::Bool(true),
            Json::Object(vec![
                member("k", Json::Str("v".to_string())),
                member("n", Json::Number(7)),
                member("m", Json::Decimal("-7".to_string())),
            ]),
        ])
    );
}

#[test]
fn scanner_hands_out_keys_and_values_in_turn() {
    let members = vec![member("a", Json::Number(1)), member("b", Json::Null)];
    let mut scanner = KeyScanner::new(&members);
    assert_eq!(scanner.next_key().map(String::as_str), Some("a"));
    assert_eq!(scanner.next_value(), &Json::Number(1));
    assert_eq!(scanner.next_key().map(String::as_str), Some("b"));
    assert_eq!(scanner.next_value(), &Json::Null);
    assert_eq!(scanner.next_key(), None);
    assert_eq!(scanner.next_key(), None);
    let nothing: Vec<Member> = Vec::new();
    let mut scanner = KeyScanner::new(&nothing);
    assert_eq!(scanner.next_key(), None);
}

#[test]
fn field_finds_the_one_member_of_a_name() {
    let members = vec![
        member("a", Json::Number(1)),
        member("b", Json::Number(2)),
        member("a", Json::Number(3)),
    ];
    assert_eq!(field(&members, "b"), Ok(&Json::Number(2)));
    assert_eq!(field(&members, "a"), Err(DecodeError::DuplicateKey("a".to_string())));
    assert_eq!(field(&members, "c"), Err(DecodeError::MissingRequiredField("c".to_string())));
    assert_eq!(field(&members, "A"), Err(DecodeError::MissingRequiredField("A".to_string())));
}

#[test]
fn same_text_compares_characters() {
    assert!(ddg::error::same_text("Topics", "Topics"));
    assert!(!ddg::error::same_text("Topics", "topics"));
    assert!(!ddg::error::same_text("Topics", "Topic"));
    assert!(ddg::error::same_text("", ""));
}
