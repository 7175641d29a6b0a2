use loom_core::dictionary::Dictionary;
use loom_core::error::LoomError;
use loom_core::floats::FloatBits;
use loom_core::text::{
    bool_to_text, chars_of, contains, ends_with, int_to_text, join, less_than, starts_with,
    unsigned_to_text,
};
use loom_core::types::{LiteralValue, LoomValue, Position};

#[test]
fn integers_render_in_decimal() {
    assert_eq!(int_to_text(0), "0");
    assert_eq!(int_to_text(7), "7");
    assert_eq!(int_to_text(-45), "-45");
    assert_eq!(int_to_text(1234567890), "1234567890");
    assert_eq!(int_to_text(i64::MAX), "9223372036854775807");
    assert_eq!(int_to_text(i64::MIN), "-9223372036854775808");
    assert_eq!(unsigned_to_text(u64::MAX), "18446744073709551615");
    assert_eq!(bool_to_text(true), "true");
    assert_eq!(bool_to_text(false), "false");
}

#[test]
fn prefixes_suffixes_and_infixes() {
    assert!(starts_with("deploy-all", "deploy"));
    assert!(!starts_with("deploy-all", "all"));
    assert!(starts_with("x", ""));
    assert!(!starts_with("ab", "abc"));
    assert!(ends_with("deploy-all", "all"));
    assert!(!ends_with("deploy-all", "deploy"));
    assert!(ends_with("", ""));
    assert!(contains("deploy-all", "y-a"));
    assert!(contains("deploy-all", ""));
    assert!(!contains("deploy-all", "yy"));
    assert!(!contains("ab", "abc"));
    assert!(contains("héllo wörld", "o w"));
}

#[test]
fn strings_compare_by_characters() {
    assert!(less_than("a", "b"));
    assert!(!less_than("b", "a"));
    assert!(less_than("ab", "abc"));
    assert!(!less_than("abc", "ab"));
    assert!(!less_than("same", "same"));
    assert!(less_than("", "a"));
    assert!(!less_than("", ""));
    assert!(less_than("Z", "a"));
    assert_eq!(less_than("é", "z"), "é" < "z");
}

#[test]
fn join_puts_the_separator_between_neighbours() {
    let none: Vec<String> = vec![];
    assert_eq!(join(&none, ", "), "");
    assert_eq!(join(&vec!["a".to_string()], ", "), "a");
    assert_eq!(join(&vec!["a".to_string(), "b".to_string(), "c".to_string()], ", "), "a, b, c");
    assert_eq!(chars_of("añb"), vec!['a', 'ñ', 'b']);
}

#[test]
fn float_bits_compare_as_numbers() {
    let of = |x: f64| FloatBits::from_bits(x.to_bits());
    let samples = [
        0.0,
        -0.0,
        1.0,
        -1.0,
        2.5,
        -2.5,
        f64::MIN_POSITIVE,
        f64::MAX,
        f64::MIN,
        f64::INFINITY,
        f64::NEG_INFINITY,
        f64::NAN,
        1e-300,
        -1e300,
    ];
    for a in samples {
        for b in samples {
            assert_eq!(of(a).equals(of(b)), a == b, "{} == {}", a, b);
            assert_eq!(of(a).less_than(of(b)), a < b, "{} < {}", a, b);
        }
        assert_eq!(of(a).is_nan(), a.is_nan());
        assert_eq!(of(a).is_zero(), a == 0.0);
        assert_eq!(of(a).negated().to_bits(), (-a).to_bits());
    }
}

#[test]
fn dictionary_keeps_insertion_order_and_replaces_in_place() {
    let mut d: Dictionary<i32> = Dictionary::new();
    assert!(d.is_empty());
    d.insert("b".to_string(), 1);
    d.insert("a".to_string(), 2);
    d.insert("b".to_string(), 3);
    assert_eq!(d.len(), 2);
    assert_eq!(d.get("b"), Some(&3));
    assert_eq!(d.get("a"), Some(&2));
    assert_eq!(d.get("c"), None);
    assert!(d.contains_key("a"));
    assert!(!d.contains_key("c"));
    assert_eq!(d.key_at(0), "b");
    assert_eq!(d.key_at(1), "a");
    assert_eq!(*d.value_at(0), 3);
}

#[test]
fn literal_equality_is_by_variant_and_contents() {
    let a = LiteralValue::Array(vec![LiteralValue::Number(1), LiteralValue::String("x".into())]);
    let b = LiteralValue::Array(vec![LiteralValue::Number(1), LiteralValue::String("x".into())]);
    let c = LiteralValue::Array(vec![LiteralValue::Number(1)]);
    assert!(a.equals(&b));
    assert!(!a.equals(&c));
    assert!(!LiteralValue::Number(1).equals(&LiteralValue::String("1".into())));
    assert!(LiteralValue::Json("{}".into()).equals(&LiteralValue::Json("{}".into())));
    assert!(!LiteralValue::Boolean(true).equals(&LiteralValue::Boolean(false)));
    assert_eq!(a.clone(), b);
    assert_eq!(LiteralValue::Number(4).kind_name(), "Number");
    assert_eq!(LoomValue::Empty.type_label(), "empty");
    assert_eq!(LoomValue::Literal(LiteralValue::Number(4)).type_label(), "literal");
}

#[test]
fn json_literal_is_the_compact_form_of_the_document() {
    let r = LiteralValue::json(" { \"b\" : 1 , \"a\" : [1, 2] } ").unwrap();
    assert_eq!(r, LiteralValue::Json("{\"a\":[1,2],\"b\":1}".to_string()));
}

#[test]
fn json_literal_of_a_broken_document_is_a_validation_error() {
    match LiteralValue::json("{\"a\": ") {
        Err(LoomError::ValidationError { message, position }) => {
            assert!(message.starts_with("JSON error: "));
            assert!(message.len() > "JSON error: ".len());
            assert_eq!(position, None);
        }
        other => panic!("unexpected {:?}", other),
    }
}

#[test]
fn position_renders_line_and_column() {
    assert_eq!(Position::new(12, 3).to_text(), "12:3");
    let start = Position::default();
    assert_eq!(start.line, 1);
    assert_eq!(start.column, 1);
    assert_eq!(start.file, None);
}

#[test]
fn values_convert_to_what_they_are() {
    assert_eq!(LoomValue::Literal(LiteralValue::Boolean(true)).into_bool().unwrap(), true);
    assert_eq!(LoomValue::Literal(LiteralValue::Number(5)).into_number().unwrap(), 5);
    assert_eq!(LoomValue::Literal(LiteralValue::String("s".into())).into_string().unwrap(), "s");
    match LoomValue::Literal(LiteralValue::Number(5)).into_bool() {
        Err(LoomError::ConversionError { from_type, to_type, value, position }) => {
            assert_eq!(from_type, "Number");
            assert_eq!(to_type, "bool");
            assert_eq!(value, "5");
            assert_eq!(position, None);
        }
        other => panic!("unexpected {:?}", other),
    }
    let items = vec![LiteralValue::Number(1)];
    assert_eq!(LoomValue::Literal(LiteralValue::Array(items.clone())).into_array(), Ok(items));
    assert_eq!(
        LoomValue::Literal(LiteralValue::Json("{}".into())).into_json(),
        Ok("{}".to_string())
    );
    let half = FloatBits { bits: 0.5f64.to_bits() };
    assert_eq!(LoomValue::Literal(LiteralValue::Float(half)).into_float(), Ok(half));
    match LoomValue::Literal(LiteralValue::Float(half)).into_number() {
        Err(LoomError::ConversionError { from_type, to_type, value, .. }) => {
            assert_eq!(from_type, "Float");
            assert_eq!(to_type, "integer");
            assert_eq!(value, "Float");
        }
        other => panic!("unexpected {:?}", other),
    }
    match LoomValue::Empty.into_string() {
        Err(LoomError::ConversionError { from_type, to_type, value, .. }) => {
            assert_eq!(from_type, "empty");
            assert_eq!(to_type, "String");
            assert_eq!(value, "empty");
        }
        other => panic!("unexpected {:?}", other),
    }
}
