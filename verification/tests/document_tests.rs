use ue_object_reader::parser::ast::{ParseError, PropValue, Uuid};
use ue_object_reader::parser::literal::{
    kv_list_literal, linkedto_list_literal, nsloc_text_literal, string_literal, uuid_literal,
};
use ue_object_reader::parser::prop::{prop_custom_props, prop_kv, prop_value};
use ue_object_reader::read_object;

fn cv(s: &str) -> Vec<char> {
    s.chars().collect()
}

fn rem(s: &str, q: usize) -> String {
    s.chars().skip(q).collect()
}

#[test]
fn read_two_objects_in_source_order() {
    let text = "Begin Object Name=\"A\"\n   NodePosX=1\nEnd Object\nBegin Level Name=\"B\"\n   NodePosX=2\nEnd Level\n";
    let doc = read_object(text).unwrap();
    assert_eq!(doc.0.len(), 2);
    assert_eq!(doc.0[0].header.object_type, "Object".to_string());
    assert_eq!(doc.0[1].header.object_type, "Level".to_string());
    assert_eq!(doc.0[0].header.header_props[0].key, "Name".to_string());
    assert!(matches!(
        doc.0[0].header.header_props[0].value,
        PropValue::String(ref s) if s == "A"
    ));
    assert!(matches!(
        doc.0[1].header.header_props[0].value,
        PropValue::String(ref s) if s == "B"
    ));
}

#[test]
fn read_object_rejects_trailing_garbage() {
    let good = "Begin Object\nEnd Object\nBegin Object\nEnd Object";
    assert!(read_object(good).is_ok());
    let bad = "Begin Object\nEnd Object\nBegin Object\nEnd Object junk";
    assert!(read_object(bad).is_err());
    let bad = "Begin Object\nEnd Object\nxyz";
    assert!(read_object(bad).is_err());
}

#[test]
fn read_object_rejects_empty_and_leftover_whitespace() {
    assert!(read_object("").is_err());
    assert!(read_object("Begin Object\nEnd Object\n\n").is_err());
}

#[test]
fn read_object_accepts_crlf_line_endings() {
    let text = "Begin Object Name=\"A\"\r\n   NodePosX=7\r\nEnd Object\r\n";
    let doc = read_object(text).unwrap();
    assert_eq!(doc.0.len(), 1);
    assert_eq!(doc.0[0].elements.len(), 1);
}

#[test]
fn uuid_value_round_trips_through_encoding() {
    let input = "914EEC5D4C41B6D45E6DB79302BCC5BA";
    let (_, u) = uuid_literal(&cv(input), 0).unwrap();
    let hex = u.encode_hex();
    assert_eq!(hex, "914eec5d4c41b6d45e6db79302bcc5ba".to_string());
    let (q2, u2) = uuid_literal(&cv(&hex), 0).unwrap();
    assert_eq!(q2, 32);
    assert_eq!(u2, u);
}

#[test]
fn uuid_encoding_keeps_leading_zeros() {
    let u = Uuid { value: 0xABC };
    assert_eq!(u.encode_hex(), "00000000000000000000000000000abc".to_string());
}

#[test]
fn string_escapes_decode_to_original() {
    let input = "\"a\\\\b\\\"c\\nd\\te\\rf\\'g\"";
    let (q, v) = string_literal(&cv(input), 0).unwrap();
    assert_eq!(rem(input, q), "");
    assert_eq!(v, "a\\b\"c\nd\te\rf'g".to_string());
    assert!(string_literal(&cv("\"unterminated"), 0).is_err());
    assert!(string_literal(&cv("\"bad \\q escape\""), 0).is_err());
}

#[test]
fn kv_list_trailing_comma_is_insignificant() {
    let plain = r#"(MemberName="X",NodePosX=3)"#;
    let comma = r#"(MemberName="X",NodePosX=3,)"#;
    let (qa, va) = kv_list_literal(&cv(plain), 0).unwrap();
    let (qb, vb) = kv_list_literal(&cv(comma), 0).unwrap();
    assert_eq!(va, vb);
    assert_eq!(rem(plain, qa), "");
    assert_eq!(rem(comma, qb), "");
}

#[test]
fn none_is_always_an_object_reference() {
    let input = "None";
    let (q, v) = prop_value(&cv(input), 0).unwrap();
    assert_eq!(rem(input, q), "");
    assert_eq!(
        v,
        PropValue::ObjectReference("None".to_string(), "None".to_string())
    );
    let input = "AnyKey=None";
    let (_, p) = prop_kv(&cv(input), 0).unwrap();
    assert_eq!(
        p.value,
        PropValue::ObjectReference("None".to_string(), "None".to_string())
    );
}

#[test]
fn double_with_zero_integer_part_keeps_its_sign() {
    let input = "X=-0.5";
    let (_, p) = prop_kv(&cv(input), 0).unwrap();
    match p.value {
        PropValue::Double(d) => {
            assert!(d.negative);
            assert_eq!(d.int_abs, 0);
            assert_eq!(d.frac, vec![5u8]);
        },
        other => panic!("expected a fractional value, got {:?}", other),
    }
    let input = "X=0.25";
    let (_, p) = prop_kv(&cv(input), 0).unwrap();
    match p.value {
        PropValue::Double(d) => {
            assert!(!d.negative);
            assert_eq!(d.int_abs, 0);
            assert_eq!(d.frac, vec![2u8, 5u8]);
        },
        other => panic!("expected a fractional value, got {:?}", other),
    }
}

#[test]
fn integer_range_edges() {
    let input = "K=-9223372036854775808";
    let (_, p) = prop_kv(&cv(input), 0).unwrap();
    assert_eq!(p.value, PropValue::Integer(i64::MIN));
    let input = "K=9223372036854775807";
    let (_, p) = prop_kv(&cv(input), 0).unwrap();
    assert_eq!(p.value, PropValue::Integer(i64::MAX));
    assert!(prop_kv(&cv("K=9223372036854775808"), 0).is_err());
    assert!(prop_kv(&cv("K=-9223372036854775809"), 0).is_err());
}

#[test]
fn unsupported_custom_property_domain_fails() {
    assert!(prop_custom_props(&cv("CustomProperties Foo (A=1)"), 0).is_err());
    assert!(prop_custom_props(&cv("CustomProperties Pin (A=1)"), 0).is_ok());
}

#[test]
fn property_without_value_or_key_fails() {
    assert!(prop_kv(&cv("K=Maybe"), 0).is_err());
    assert!(prop_kv(&cv("=5"), 0).is_err());
    assert!(prop_kv(&cv("NoEquals"), 0).is_err());
}

#[test]
fn nsloc_text_tolerates_trailing_comma() {
    let plain = r#"NSLOCTEXT("A","B","C")"#;
    let comma = r#"NSLOCTEXT("A","B","C",)"#;
    let (qa, va) = nsloc_text_literal(&cv(plain), 0).unwrap();
    let (qb, vb) = nsloc_text_literal(&cv(comma), 0).unwrap();
    assert_eq!(va, ("A".to_string(), "B".to_string(), "C".to_string()));
    assert_eq!(va, vb);
    assert_eq!(rem(plain, qa), "");
    assert_eq!(rem(comma, qb), "");
}

#[test]
fn empty_linked_list_parses() {
    let (q, v) = linkedto_list_literal(&cv("()"), 0).unwrap();
    assert_eq!(q, 2);
    assert_eq!(v, vec![]);
}

#[test]
fn parse_error_carries_a_message() {
    let err = read_object("not a document").unwrap_err();
    let msg = err.message();
    assert!(!msg.is_empty());
}

#[test]
fn parse_error_message_renders_the_trail() {
    let err = ParseError::at("string literal").within("property");
    assert_eq!(
        err.message(),
        "while parsing property: while parsing string literal".to_string()
    );
    let err = ParseError::at("boolean");
    assert_eq!(err.message(), "while parsing boolean".to_string());
}

#[test]
fn doubled_trailing_comma_fails() {
    // A trailing comma is tolerated only where an item run ends: doubling
    // it turns the text before `,)` into a failed item attempt.
    assert!(kv_list_literal(&cv("(A=1,)"), 0).is_ok());
    assert!(kv_list_literal(&cv("(A=1,,)"), 0).is_err());
}
