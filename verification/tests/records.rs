use serde_xml_rs::record::decode_text;
use serde_xml_rs::record::find_attribute;
use serde_xml_rs::sequence::finish_items;
use serde_xml_rs::deserialize;
use serde_xml_rs::Attribute;
use serde_xml_rs::Case;
use serde_xml_rs::Deserializer;
use serde_xml_rs::Error;
use serde_xml_rs::Event;
use serde_xml_rs::Expected;
use serde_xml_rs::Field;
use serde_xml_rs::Name;
use serde_xml_rs::ScalarKind;
use serde_xml_rs::Shape;
use serde_xml_rs::Value;

fn field(name: &str, shape: Shape) -> Field {
    Field { name: name.to_string(), shape }
}

fn case(name: &str, payload: Shape) -> Case {
    Case { name: name.to_string(), payload }
}

fn record(fields: Vec<Field>) -> Shape {
    Shape::Record { fields, catch_all: false }
}

fn integer() -> Shape {
    Shape::Scalar(ScalarKind::I32)
}

fn string() -> Shape {
    Shape::Scalar(ScalarKind::Str)
}

fn optional(shape: Shape) -> Shape {
    Shape::Optional(Box::new(shape))
}

fn sequence(item: Shape, len: Option<usize>) -> Shape {
    Shape::Sequence { item: Box::new(item), len }
}

fn text(s: &str) -> Value {
    Value::Str(s.to_string())
}

fn local(name: &str) -> Name {
    Name { local_name: name.to_string(), namespace: None }
}

fn attribute(name: &str, value: &str) -> Attribute {
    Attribute { name: local(name), value: value.to_string() }
}

fn point() -> Shape {
    record(vec![field("x", integer()), field("y", integer()), field("label", string())])
}

fn point_value() -> Value {
    Value::Record(vec![Value::Int(1), Value::Int(2), text("p")])
}

#[test]
fn record_from_children() {
    let document = b"<p><x>1</x><y>2</y><label>p</label></p>";
    assert_eq!(deserialize(document, &point()).unwrap(), point_value());
}

#[test]
fn record_from_attributes_in_any_order() {
    for document in [
        &b"<p x=\"1\" y=\"2\" label=\"p\"/>"[..],
        &b"<p label=\"p\" y=\"2\" x=\"1\"/>"[..],
        &b"<p y=\"2\" label=\"p\" x=\"1\"></p>"[..],
    ] {
        assert_eq!(deserialize(document, &point()).unwrap(), point_value());
    }
}

#[test]
fn record_from_attributes_and_children() {
    for document in [
        &b"<p y=\"2\"><x>1</x><label>p</label></p>"[..],
        &b"<p label=\"p\" x=\"1\"><y>2</y></p>"[..],
        &b"<p x=\"1\" label=\"p\"><y>2</y></p>"[..],
    ] {
        assert_eq!(deserialize(document, &point()).unwrap(), point_value());
    }
}

#[test]
fn children_out_of_declared_order_are_not_found() {
    match deserialize(b"<p><y>2</y><x>1</x><label>p</label></p>", &point()) {
        Err(Error::Mismatch { expected, found }) => {
            assert_eq!(expected, Expected::Field("x".to_string()));
            assert_eq!(found, Event::StartElement { name: local("y"), attributes: vec![] });
        }
        other => panic!("{:?}", other),
    }
}

#[test]
fn missing_field_is_a_mismatch_at_the_end_tag() {
    match deserialize(b"<p><x>1</x><y>2</y></p>", &point()) {
        Err(Error::Mismatch { expected, found }) => {
            assert_eq!(expected, Expected::Field("label".to_string()));
            assert_eq!(found, Event::EndElement { name: local("p") });
        }
        other => panic!("{:?}", other),
    }
}

#[test]
fn unread_attributes_are_dropped_and_unread_children_are_not() {
    let shape = record(vec![field("x", integer())]);
    assert_eq!(
        deserialize(b"<p x=\"1\" other=\"2\"/>", &shape).unwrap(),
        Value::Record(vec![Value::Int(1)])
    );
    match deserialize(b"<p><x>1</x><other/></p>", &shape) {
        Err(Error::Mismatch { expected, found }) => {
            assert_eq!(expected, Expected::EndOf(local("p")));
            assert_eq!(found, Event::StartElement { name: local("other"), attributes: vec![] });
        }
        other => panic!("{:?}", other),
    }
}

#[test]
fn an_attribute_answers_one_field_only() {
    let shape = record(vec![field("x", integer()), field("x", optional(integer()))]);
    assert_eq!(
        deserialize(b"<p x=\"1\"/>", &shape).unwrap(),
        Value::Record(vec![Value::Int(1), Value::Absent])
    );
    assert_eq!(
        deserialize(b"<p x=\"1\"><x>2</x></p>", &shape).unwrap(),
        Value::Record(vec![Value::Int(1), Value::Present(Box::new(Value::Int(2)))])
    );
}

#[test]
fn record_without_a_start_tag() {
    let mut de = Deserializer::new_from_reader(b"<a>t</a>");
    de.next().unwrap();
    match de.deserialize_struct(&vec![field("x", integer())], false) {
        Err(Error::Mismatch { expected, found }) => {
            assert_eq!(expected, Expected::StartElement);
            assert_eq!(found, Event::Characters("t".to_string()));
        }
        other => panic!("{:?}", other),
    }
}

#[test]
fn nested_records() {
    let shape = record(vec![field("name", string()), field("at", point())]);
    let document = b"<place name=\"n\"><at x=\"1\"><y>2</y><label>p</label></at></place>";
    assert_eq!(deserialize(document, &shape).unwrap(), Value::Record(vec![text("n"), point_value()]));
}

#[test]
fn catch_all_absorbs_text_an_element_or_nothing() {
    let shape = Shape::Record { fields: vec![field("href", string())], catch_all: true };
    assert_eq!(
        deserialize(b"<a href=\"u\">label</a>", &shape).unwrap(),
        Value::Record(vec![text("u"), text("label")])
    );
    assert_eq!(
        deserialize(b"<a href=\"u\"/>", &shape).unwrap(),
        Value::Record(vec![text("u"), Value::Unit])
    );
    assert_eq!(
        deserialize(b"<a href=\"u\"><b/></a>", &shape).unwrap(),
        Value::Record(vec![text("u"), Value::Element(vec![])])
    );
    assert!(matches!(
        deserialize(b"<a href=\"u\"><b/><c/></a>", &shape),
        Err(Error::Mismatch { .. })
    ));
}

#[test]
fn attribute_text_by_shape() {
    assert_eq!(decode_text(&integer(), "5".to_string()).unwrap(), Value::Int(5));
    assert_eq!(
        decode_text(&optional(integer()), "5".to_string()).unwrap(),
        Value::Present(Box::new(Value::Int(5)))
    );
    assert_eq!(
        decode_text(&optional(string()), String::new()).unwrap(),
        Value::Present(Box::new(text("")))
    );
    assert_eq!(decode_text(&Shape::Ignore, "5".to_string()).unwrap(), Value::Unit);
    assert_eq!(decode_text(&Shape::Any, "5".to_string()).unwrap(), text("5"));
    assert!(matches!(decode_text(&integer(), "x".to_string()), Err(Error::Conversion { .. })));
    match decode_text(&Shape::Unit, "5".to_string()) {
        Err(Error::Mismatch { expected, found }) => {
            assert_eq!(expected, Expected::EndElement);
            assert_eq!(found, Event::Characters("5".to_string()));
        }
        other => panic!("{:?}", other),
    }
    for shape in [point(), sequence(integer(), None), Shape::Variant { cases: vec![] }] {
        match decode_text(&shape, "5".to_string()) {
            Err(Error::Mismatch { expected, found }) => {
                assert_eq!(expected, Expected::StartElement);
                assert_eq!(found, Event::Characters("5".to_string()));
            }
            other => panic!("{:?}", other),
        }
    }
}

#[test]
fn find_attribute_gives_the_first_of_the_name() {
    let pool = vec![attribute("a", "1"), attribute("b", "2"), attribute("a", "3")];
    assert_eq!(find_attribute(&pool, &"a".to_string()), Some(0));
    assert_eq!(find_attribute(&pool, &"b".to_string()), Some(1));
    assert_eq!(find_attribute(&pool, &"c".to_string()), None);
    assert_eq!(find_attribute(&vec![], &"a".to_string()), None);
}

#[test]
fn optional_values() {
    let shape = record(vec![field("f", optional(integer())), field("g", integer())]);
    assert_eq!(
        deserialize(b"<a><g>2</g></a>", &shape).unwrap(),
        Value::Record(vec![Value::Absent, Value::Int(2)])
    );
    assert_eq!(
        deserialize(b"<a f=\"1\" g=\"2\"/>", &shape).unwrap(),
        Value::Record(vec![Value::Present(Box::new(Value::Int(1))), Value::Int(2)])
    );
    assert_eq!(
        deserialize(b"<a>7</a>", &optional(integer())).unwrap(),
        Value::Present(Box::new(Value::Int(7)))
    );

    let mut de = Deserializer::new_from_reader(b"<a></a>");
    de.next().unwrap();
    assert_eq!(de.deserialize_option(&integer()).unwrap(), Value::Absent);
    assert_eq!(de.depth(), 1);

    let mut de = Deserializer::new_from_reader(b"<a>7</a>");
    de.next().unwrap();
    de.set_map_value();
    assert_eq!(de.deserialize_option(&integer()).unwrap(), Value::Present(Box::new(Value::Int(7))));

    let mut de = Deserializer::new_from_reader(b"<a></a>");
    de.next().unwrap();
    de.set_map_value();
    assert_eq!(
        de.deserialize_option(&string()).unwrap(),
        Value::Present(Box::new(text("")))
    );
}

#[test]
fn sequences() {
    assert_eq!(deserialize(b"<a/>", &sequence(integer(), None)).unwrap(), Value::List(vec![]));
    assert_eq!(deserialize(b"<a/>", &sequence(integer(), Some(0))).unwrap(), Value::List(vec![]));
    assert!(matches!(
        deserialize(b"<a/>", &sequence(integer(), Some(1))),
        Err(Error::LengthMismatch { size: 1, items: 0 })
    ));
    assert!(matches!(
        deserialize(b"<a><i>1</i></a>", &sequence(integer(), Some(0))),
        Err(Error::LengthMismatch { size: 0, items: 0 })
    ));
    assert_eq!(
        deserialize(b"<a><i><j>1</j><j>2</j></i><i/><i><j>3</j></i></a>", &sequence(sequence(integer(), None), None))
            .unwrap(),
        Value::List(vec![
            Value::List(vec![Value::Int(1), Value::Int(2)]),
            Value::List(vec![]),
            Value::List(vec![Value::Int(3)]),
        ])
    );
    assert!(matches!(
        deserialize(b"<a><i>1</i><i>x</i></a>", &sequence(integer(), None)),
        Err(Error::Conversion { .. })
    ));
}

#[test]
fn a_run_ends_where_the_tag_changes() {
    match deserialize(b"<a><i>1</i><j>2</j></a>", &sequence(integer(), None)) {
        Err(Error::Mismatch { expected, found }) => {
            assert_eq!(expected, Expected::EndOf(local("a")));
            assert_eq!(found, Event::StartElement { name: local("j"), attributes: vec![] });
        }
        other => panic!("{:?}", other),
    }
    let shape = record(vec![field("i", sequence(integer(), None)), field("j", sequence(integer(), Some(1)))]);
    assert_eq!(
        deserialize(b"<a><i>1</i><i>2</i><j>3</j></a>", &shape).unwrap(),
        Value::Record(vec![
            Value::List(vec![Value::Int(1), Value::Int(2)]),
            Value::List(vec![Value::Int(3)]),
        ])
    );
    assert_eq!(
        deserialize(b"<a><j>3</j></a>", &shape).unwrap(),
        Value::Record(vec![Value::List(vec![]), Value::List(vec![Value::Int(3)])])
    );
    assert!(matches!(
        deserialize(b"<a><i>1</i></a>", &shape),
        Err(Error::LengthMismatch { size: 1, items: 0 })
    ));
}

#[test]
fn finish_items_checks_a_fixed_size() {
    let two = || vec![Value::Int(1), Value::Int(2)];
    assert_eq!(finish_items(None, two(), false).unwrap(), Value::List(two()));
    assert_eq!(finish_items(None, two(), true).unwrap(), Value::List(two()));
    assert_eq!(finish_items(Some(2), two(), false).unwrap(), Value::List(two()));
    assert!(matches!(
        finish_items(Some(2), two(), true),
        Err(Error::LengthMismatch { size: 2, items: 2 })
    ));
    assert!(matches!(
        finish_items(Some(3), two(), false),
        Err(Error::LengthMismatch { size: 3, items: 2 })
    ));
}

#[test]
fn sequence_at_the_cursor_under_the_signal() {
    let mut de = Deserializer::new_from_reader(b"<a><i>1</i><i>2</i><j/></a>");
    de.next().unwrap();
    de.set_map_value();
    assert_eq!(
        de.deserialize_seq(&integer()).unwrap(),
        Value::List(vec![Value::Int(1), Value::Int(2)])
    );
    assert_eq!(
        *de.peek().unwrap(),
        Event::StartElement { name: local("j"), attributes: vec![] }
    );

    let mut de = Deserializer::new_from_reader(b"<a><i>1</i><i>2</i></a>");
    assert_eq!(
        de.deserialize_seq_fixed_size(2, &integer()).unwrap(),
        Value::List(vec![Value::Int(1), Value::Int(2)])
    );
    assert_eq!(de.depth(), 0);
}

#[test]
fn variants_with_payloads() {
    let shape = Shape::Variant {
        cases: vec![
            case("Point", point()),
            case("Path", sequence(integer(), None)),
            case("Maybe", optional(integer())),
            case("None", Shape::Unit),
            case("Inner", Shape::Variant { cases: vec![case("Leaf", Shape::Unit)] }),
        ],
    };
    assert_eq!(
        deserialize(b"<s><Point x=\"1\" label=\"p\"><y>2</y></Point></s>", &shape).unwrap(),
        Value::Variant(0, Box::new(point_value()))
    );
    assert_eq!(
        deserialize(b"<s><Path><i>1</i><i>2</i></Path></s>", &shape).unwrap(),
        Value::Variant(1, Box::new(Value::List(vec![Value::Int(1), Value::Int(2)])))
    );
    assert_eq!(
        deserialize(b"<s><Maybe>4</Maybe></s>", &shape).unwrap(),
        Value::Variant(2, Box::new(Value::Present(Box::new(Value::Int(4)))))
    );
    assert_eq!(
        deserialize(b"<s><None/></s>", &shape).unwrap(),
        Value::Variant(3, Box::new(Value::Unit))
    );
    assert_eq!(
        deserialize(b"<s><Inner><Leaf/></Inner></s>", &shape).unwrap(),
        Value::Variant(4, Box::new(Value::Variant(0, Box::new(Value::Unit))))
    );
    assert!(matches!(
        deserialize(b"<s><None>x</None></s>", &shape),
        Err(Error::Mismatch { expected: Expected::EndElement, .. })
    ));
    assert!(matches!(
        deserialize(b"<s>None</s>", &shape),
        Err(Error::Mismatch { expected: Expected::StartElement, .. })
    ));
    assert!(matches!(
        deserialize(b"<s><None/><None/></s>", &shape),
        Err(Error::Mismatch { expected: Expected::EndOf(_), .. })
    ));
}

#[test]
fn the_first_case_of_a_name_is_selected() {
    let shape = Shape::Variant { cases: vec![case("A", Shape::Unit), case("A", integer())] };
    assert_eq!(deserialize(b"<s><A/></s>", &shape).unwrap(), Value::Variant(0, Box::new(Value::Unit)));
}

#[test]
fn variant_at_the_cursor_under_the_signal() {
    let cases = vec![case("Circle", integer()), case("Empty", Shape::Unit)];
    let mut de = Deserializer::new_from_reader(b"<s><Circle>3</Circle><Empty/></s>");
    de.next().unwrap();
    de.set_map_value();
    assert_eq!(de.deserialize_enum(&cases).unwrap(), Value::Variant(0, Box::new(Value::Int(3))));
    de.set_map_value();
    assert_eq!(de.deserialize_enum(&cases).unwrap(), Value::Variant(1, Box::new(Value::Unit)));
    assert_eq!(de.depth(), 1);
}

#[test]
fn ignored_fields() {
    let shape = record(vec![field("skip", Shape::Ignore), field("keep", integer())]);
    assert_eq!(
        deserialize(b"<r><skip><a><b>t</b></a><c/></skip><keep>1</keep></r>", &shape).unwrap(),
        Value::Record(vec![Value::Unit, Value::Int(1)])
    );
    assert_eq!(
        deserialize(b"<r skip=\"x\" keep=\"1\"/>", &shape).unwrap(),
        Value::Record(vec![Value::Unit, Value::Int(1)])
    );
}

#[test]
fn what_follows_the_root_is_not_read() {
    assert_eq!(deserialize(b"<a>1</a><", &integer()).unwrap(), Value::Int(1));
    assert!(matches!(deserialize(b"<a>1<", &integer()), Err(Error::Syntax(_))));
    assert!(matches!(deserialize(b"", &integer()), Err(Error::Syntax(_))));
}

#[test]
fn the_requester_decides_what_a_child_is() {
    let document = b"<a><b>1</b></a>";
    let decode = |shape: Shape| deserialize(document, &record(vec![field("b", shape)]));
    assert_eq!(decode(string()).unwrap(), Value::Record(vec![text("1")]));
    assert_eq!(decode(integer()).unwrap(), Value::Record(vec![Value::Int(1)]));
    assert_eq!(
        decode(optional(string())).unwrap(),
        Value::Record(vec![Value::Present(Box::new(text("1")))])
    );
    assert_eq!(
        decode(sequence(string(), None)).unwrap(),
        Value::Record(vec![Value::List(vec![text("1")])])
    );
    assert_eq!(decode(Shape::Ignore).unwrap(), Value::Record(vec![Value::Unit]));
    match decode(Shape::Any).unwrap() {
        Value::Record(values) => match &values[0] {
            Value::Element(entries) => {
                assert_eq!(entries.len(), 1);
                assert_eq!(entries[0].key, "$value");
                assert_eq!(entries[0].value, text("1"));
            }
            other => panic!("{:?}", other),
        },
        other => panic!("{:?}", other),
    }
    assert_eq!(
        decode(record(vec![])),
        Err(Error::Mismatch {
            expected: Expected::EndOf(local("b")),
            found: Event::Characters("1".to_string()),
        })
    );
    assert_eq!(
        decode(Shape::Unit),
        Err(Error::Mismatch {
            expected: Expected::EndElement,
            found: Event::Characters("1".to_string()),
        })
    );
}
