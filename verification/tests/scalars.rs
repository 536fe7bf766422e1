use serde_xml_rs::deserialize;
use serde_xml_rs::scalar::convert_text;
use serde_xml_rs::scalar::is_single_char;
use serde_xml_rs::scalar::parse_integer;
use serde_xml_rs::Error;
use serde_xml_rs::ScalarKind;
use serde_xml_rs::Serializer;
use serde_xml_rs::Shape;
use serde_xml_rs::Value;

fn scalar(kind: ScalarKind, document: &str) -> Result<Value, Error> {
    deserialize(document.as_bytes(), &Shape::Scalar(kind))
}

fn convert(kind: ScalarKind, text: &str) -> Result<Value, Error> {
    convert_text(kind, text.to_string())
}

fn rejected(kind: ScalarKind, text: &str) {
    match convert(kind, text) {
        Err(Error::Conversion { kind: k, text: t }) => {
            assert_eq!(k, kind);
            assert_eq!(t, text);
        }
        other => panic!("{:?} for {:?}", other, text),
    }
}

#[test]
fn boundary_integers_round_trip() {
    assert_eq!(scalar(ScalarKind::I64, "<a>-9223372036854775808</a>").unwrap(), Value::Int(i64::MIN));
    assert_eq!(scalar(ScalarKind::I64, "<a>9223372036854775807</a>").unwrap(), Value::Int(i64::MAX));
    assert_eq!(scalar(ScalarKind::U64, "<a>18446744073709551615</a>").unwrap(), Value::UInt(u64::MAX));
    assert_eq!(scalar(ScalarKind::U64, "<a>0</a>").unwrap(), Value::UInt(0));
    assert_eq!(scalar(ScalarKind::I8, "<a>-128</a>").unwrap(), Value::Int(-128));
    assert_eq!(scalar(ScalarKind::I8, "<a>127</a>").unwrap(), Value::Int(127));
    assert_eq!(scalar(ScalarKind::U8, "<a>255</a>").unwrap(), Value::UInt(255));
    assert_eq!(scalar(ScalarKind::I16, "<a>-32768</a>").unwrap(), Value::Int(-32768));
    assert_eq!(scalar(ScalarKind::U16, "<a>65535</a>").unwrap(), Value::UInt(65535));
    assert_eq!(scalar(ScalarKind::I32, "<a>-2147483648</a>").unwrap(), Value::Int(-2147483648));
    assert_eq!(scalar(ScalarKind::U32, "<a>4294967295</a>").unwrap(), Value::UInt(4294967295));
}

#[test]
fn formatted_integers_round_trip() {
    for v in [i64::MIN, -1, 0, 1, 42, i64::MAX] {
        assert_eq!(convert(ScalarKind::I64, &v.to_string()).unwrap(), Value::Int(v));
    }
    for v in [0, 1, 9, 10, 99, 100, u64::MAX] {
        assert_eq!(convert(ScalarKind::U64, &v.to_string()).unwrap(), Value::UInt(v));
    }
}

#[test]
fn integers_out_of_range_are_rejected() {
    rejected(ScalarKind::I64, "9223372036854775808");
    rejected(ScalarKind::I64, "-9223372036854775809");
    rejected(ScalarKind::U64, "18446744073709551616");
    rejected(ScalarKind::U64, "99999999999999999999999999999999999999999999");
    rejected(ScalarKind::I8, "128");
    rejected(ScalarKind::I8, "-129");
    rejected(ScalarKind::U8, "256");
    rejected(ScalarKind::U16, "65536");
    rejected(ScalarKind::I16, "32768");
    rejected(ScalarKind::I32, "2147483648");
    rejected(ScalarKind::U32, "4294967296");
}

#[test]
fn integer_grammar() {
    assert_eq!(convert(ScalarKind::I32, "+5").unwrap(), Value::Int(5));
    assert_eq!(convert(ScalarKind::U32, "+5").unwrap(), Value::UInt(5));
    assert_eq!(convert(ScalarKind::I32, "-0").unwrap(), Value::Int(0));
    assert_eq!(convert(ScalarKind::I32, "007").unwrap(), Value::Int(7));
    rejected(ScalarKind::U32, "-0");
    rejected(ScalarKind::U32, "-5");
    rejected(ScalarKind::I32, "");
    rejected(ScalarKind::I32, "-");
    rejected(ScalarKind::I32, "+");
    rejected(ScalarKind::I32, "--1");
    rejected(ScalarKind::I32, "1-");
    rejected(ScalarKind::I32, "12a");
    rejected(ScalarKind::I32, " 1");
    rejected(ScalarKind::I32, "1.0");
    rejected(ScalarKind::I32, "\u{0661}");
}

#[test]
fn parse_integer_gives_sign_and_capped_magnitude() {
    assert_eq!(parse_integer("0"), Some((false, 0)));
    assert_eq!(parse_integer("-17"), Some((true, 17)));
    assert_eq!(parse_integer("+17"), Some((false, 17)));
    assert_eq!(parse_integer("18446744073709551615"), Some((false, 18446744073709551615)));
    assert_eq!(parse_integer("18446744073709551616"), Some((false, 18446744073709551616)));
    assert_eq!(parse_integer("-99999999999999999999999"), Some((true, 18446744073709551616)));
    assert_eq!(parse_integer(""), None);
    assert_eq!(parse_integer("-"), None);
    assert_eq!(parse_integer("1x"), None);
}

#[test]
fn empty_strings_round_trip() {
    assert_eq!(scalar(ScalarKind::Str, "<a></a>").unwrap(), Value::Str(String::new()));
    assert_eq!(scalar(ScalarKind::Str, "<a/>").unwrap(), Value::Str(String::new()));
    assert_eq!(convert(ScalarKind::Str, "").unwrap(), Value::Str(String::new()));
}

#[test]
fn entity_escaped_characters_round_trip() {
    assert_eq!(
        scalar(ScalarKind::Str, "<a>&lt;b&gt; &amp; &quot;c&quot; &apos;d&apos; &#65;&#x42;</a>").unwrap(),
        Value::Str("<b> & \"c\" 'd' AB".to_string())
    );
    assert_eq!(scalar(ScalarKind::Char, "<a>&lt;</a>").unwrap(), Value::Char('<'));
}

#[test]
fn booleans() {
    assert_eq!(scalar(ScalarKind::Bool, "<a>true</a>").unwrap(), Value::Bool(true));
    assert_eq!(scalar(ScalarKind::Bool, "<a>false</a>").unwrap(), Value::Bool(false));
    rejected(ScalarKind::Bool, "True");
    rejected(ScalarKind::Bool, "1");
    rejected(ScalarKind::Bool, "");
}

#[test]
fn characters() {
    assert_eq!(convert(ScalarKind::Char, "x").unwrap(), Value::Char('x'));
    assert_eq!(convert(ScalarKind::Char, "\u{00e9}").unwrap(), Value::Char('\u{00e9}'));
    assert_eq!(convert(ScalarKind::Char, "\u{1F600}").unwrap(), Value::Char('\u{1F600}'));
    rejected(ScalarKind::Char, "");
    rejected(ScalarKind::Char, "xy");
    assert!(is_single_char("x"));
    assert!(!is_single_char(""));
    assert!(!is_single_char("xy"));
}

#[test]
fn conversion_fails_before_the_end_tag_is_checked() {
    match scalar(ScalarKind::I32, "<a>x<b/></a>") {
        Err(Error::Conversion { kind, text }) => {
            assert_eq!(kind, ScalarKind::I32);
            assert_eq!(text, "x");
        }
        other => panic!("{:?}", other),
    }
}

#[test]
fn bounds_of_the_kinds() {
    assert_eq!(ScalarKind::I8.bounds(), (i8::MIN as i128, i8::MAX as i128));
    assert_eq!(ScalarKind::I16.bounds(), (i16::MIN as i128, i16::MAX as i128));
    assert_eq!(ScalarKind::I32.bounds(), (i32::MIN as i128, i32::MAX as i128));
    assert_eq!(ScalarKind::I64.bounds(), (i64::MIN as i128, i64::MAX as i128));
    assert_eq!(ScalarKind::U8.bounds(), (0, u8::MAX as i128));
    assert_eq!(ScalarKind::U16.bounds(), (0, u16::MAX as i128));
    assert_eq!(ScalarKind::U32.bounds(), (0, u32::MAX as i128));
    assert_eq!(ScalarKind::U64.bounds(), (0, u64::MAX as i128));
    assert!(ScalarKind::U8.unsigned());
    assert!(!ScalarKind::I8.unsigned());
    assert!(!ScalarKind::Str.unsigned());
}

#[test]
fn serializer_writes_booleans_that_read_back() {
    let written = Serializer::new(String::new()).serialize_bool(true);
    assert_eq!(written, "true");
    assert_eq!(convert(ScalarKind::Bool, &written).unwrap(), Value::Bool(true));
    let written = Serializer::new("<a>".to_string()).serialize_bool(false);
    assert_eq!(written, "<a>false");
    assert_eq!(Serializer::new(7u8).into_inner(), 7);
}
