use nickel_query::data::{Field, FieldMetadata, Value};
use nickel_query::json::encode_field;

fn full_field() -> Field {
    Field {
        value: Some(Value::Int(42)),
        metadata: FieldMetadata {
            doc: Some(String::from("the answer")),
            contract: Some(String::from("Number")),
            typ: Some(String::from("Number")),
            default_value: Some(Value::Bool(true)),
            provenance: Some(String::from("config.ncl")),
        },
    }
}

#[test]
fn structured_document_has_value_and_metadata_members() {
    let s = encode_field(&full_field());
    let v: serde_json::Value = serde_json::from_str(&s).expect("the encoder emits valid JSON");
    let o = v.as_object().expect("the document is an object");
    assert_eq!(o.len(), 2);
    assert!(o.contains_key("value"));
    assert!(o.contains_key("metadata"));
}

#[test]
fn structured_document_round_trips_every_sub_field() {
    let s = encode_field(&full_field());
    let v: serde_json::Value = serde_json::from_str(&s).unwrap();
    assert_eq!(v.get("value").unwrap().as_i64(), Some(42));
    let m = v.get("metadata").unwrap();
    assert_eq!(m.get("doc").unwrap().as_str(), Some("the answer"));
    assert_eq!(m.get("contract").unwrap().as_str(), Some("Number"));
    assert_eq!(m.get("type").unwrap().as_str(), Some("Number"));
    assert_eq!(m.get("default").unwrap().as_bool(), Some(true));
    assert_eq!(m.get("provenance").unwrap().as_str(), Some("config.ncl"));
}

#[test]
fn absent_sub_fields_stay_null_not_defaulted() {
    let f = Field {
        value: Some(Value::Int(42)),
        metadata: FieldMetadata {
            doc: Some(String::from("the answer")),
            contract: None,
            typ: None,
            default_value: None,
            provenance: Some(String::from("X")),
        },
    };
    let s = encode_field(&f);
    let v: serde_json::Value = serde_json::from_str(&s).unwrap();
    assert_eq!(v.get("value").unwrap().as_i64(), Some(42));
    let m = v.get("metadata").unwrap();
    assert_eq!(m.get("doc").unwrap().as_str(), Some("the answer"));
    assert!(m.get("contract").unwrap().is_null());
    assert!(m.get("default").unwrap().is_null());
}

#[test]
fn absent_value_is_null() {
    let f = Field {
        value: None,
        metadata: FieldMetadata {
            doc: None,
            contract: None,
            typ: None,
            default_value: None,
            provenance: None,
        },
    };
    let s = encode_field(&f);
    assert_eq!(
        s,
        "{\"value\":null,\"metadata\":{\"doc\":null,\"contract\":null,\"type\":null,\"default\":null,\"provenance\":null}}"
    );
}

#[test]
fn string_values_are_escaped_and_recovered() {
    let tricky = "a \"quoted\" piece, a \\ backslash,\nand\ta tab";
    let f = Field {
        value: Some(Value::Str(String::from(tricky))),
        metadata: FieldMetadata {
            doc: Some(String::from("line one\r\nline two")),
            contract: None,
            typ: None,
            default_value: None,
            provenance: None,
        },
    };
    let s = encode_field(&f);
    let v: serde_json::Value = serde_json::from_str(&s).expect("escapes must stay valid JSON");
    assert_eq!(v.get("value").unwrap().as_str(), Some(tricky));
    assert_eq!(
        v.get("metadata").unwrap().get("doc").unwrap().as_str(),
        Some("line one\r\nline two")
    );
}

#[test]
fn integer_values_cover_the_edges() {
    for (n, expect) in [
        (0i64, "0"),
        (-1i64, "-1"),
        (i64::MAX, "9223372036854775807"),
        (i64::MIN, "-9223372036854775808"),
    ] {
        let f = Field {
            value: Some(Value::Int(n)),
            metadata: FieldMetadata {
                doc: None,
                contract: None,
                typ: None,
                default_value: None,
                provenance: None,
            },
        };
        let s = encode_field(&f);
        let v: serde_json::Value = serde_json::from_str(&s).unwrap();
        assert_eq!(v.get("value").unwrap().as_i64(), Some(n));
        assert!(s.starts_with(&format!("{{\"value\":{expect},")));
    }
}

#[test]
fn decoder_round_trips_the_encoder() {
    let cases = vec![
        full_field(),
        Field {
            value: Some(Value::Str(String::from("with \"quotes\" and \\ and \n"))),
            metadata: FieldMetadata {
                doc: None,
                contract: None,
                typ: Some(String::from("String")),
                default_value: Some(Value::Int(-12)),
                provenance: None,
            },
        },
        Field {
            value: None,
            metadata: FieldMetadata {
                doc: None,
                contract: None,
                typ: None,
                default_value: None,
                provenance: None,
            },
        },
        Field {
            value: Some(Value::Int(i64::MIN)),
            metadata: FieldMetadata {
                doc: Some(String::from("")),
                contract: None,
                typ: None,
                default_value: Some(Value::Int(i64::MAX)),
                provenance: None,
            },
        },
    ];
    for f in cases {
        let encoded = encode_field(&f);
        let decoded = nickel_query::decode::decode_field(&encoded);
        assert_eq!(decoded, Some(f));
    }
}

#[test]
fn decoder_rejects_what_is_not_canonical() {
    assert_eq!(nickel_query::decode::decode_field(""), None);
    assert_eq!(nickel_query::decode::decode_field("{}"), None);
    assert_eq!(nickel_query::decode::decode_field("{\"value\":1}"), None);
    let good = encode_field(&full_field());
    let mut trailing = good.clone();
    trailing.push(' ');
    assert_eq!(nickel_query::decode::decode_field(&trailing), None);
    assert!(nickel_query::decode::decode_field(&good).is_some());
}
