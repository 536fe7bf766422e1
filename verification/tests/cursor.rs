use serde_xml_rs::Deserializer;
use serde_xml_rs::Error;
use serde_xml_rs::Event;
use serde_xml_rs::EventSource;
use serde_xml_rs::Expected;
use serde_xml_rs::Name;
use serde_xml_rs::ScalarKind;
use serde_xml_rs::Shape;
use serde_xml_rs::Value;

fn local(name: &str) -> Name {
    Name { local_name: name.to_string(), namespace: None }
}

fn start(name: &str) -> Event {
    Event::StartElement { name: local(name), attributes: vec![] }
}

fn end(name: &str) -> Event {
    Event::EndElement { name: local(name) }
}

#[test]
fn peek_does_not_consume() {
    let mut de = Deserializer::new_from_reader(b"<a>x</a>");
    assert_eq!(*de.peek().unwrap(), start("a"));
    assert_eq!(*de.peek().unwrap(), start("a"));
    assert_eq!(de.depth(), 0);
    assert_eq!(de.next().unwrap(), start("a"));
    assert_eq!(de.depth(), 1);
}

#[test]
fn next_tracks_depth() {
    let mut de = Deserializer::new_from_reader(b"<a><b>x</b></a>");
    assert_eq!(de.depth(), 0);
    assert_eq!(de.next().unwrap(), start("a"));
    assert_eq!(de.depth(), 1);
    assert_eq!(de.next().unwrap(), start("b"));
    assert_eq!(de.depth(), 2);
    assert_eq!(de.next().unwrap(), Event::Characters("x".to_string()));
    assert_eq!(de.depth(), 2);
    assert_eq!(de.next().unwrap(), end("b"));
    assert_eq!(de.depth(), 1);
    assert_eq!(de.next().unwrap(), end("a"));
    assert_eq!(de.depth(), 0);
}

#[test]
fn reading_past_the_end_fails_and_keeps_failing() {
    let mut de = Deserializer::new_from_reader(b"<a/>");
    de.next().unwrap();
    de.next().unwrap();
    for _ in 0..3 {
        match de.next() {
            Err(Error::Mismatch { expected, found }) => {
                assert_eq!(expected, Expected::Content);
                assert_eq!(found, Event::EndDocument);
            }
            other => panic!("{:?}", other),
        }
    }
    assert!(matches!(de.peek(), Err(Error::Mismatch { .. })));
}

#[test]
fn declaration_instructions_and_comments_are_passed_over() {
    let document = b"<?xml version=\"1.0\"?><!-- c --><a><?go on?><!-- d -->x</a>";
    let source = EventSource::new(document, true, true, true, false, true);
    let mut de = Deserializer::new(source);
    assert_eq!(de.next().unwrap(), start("a"));
    assert_eq!(de.next().unwrap(), Event::Characters("x".to_string()));
    assert_eq!(de.next().unwrap(), end("a"));
}

#[test]
fn default_normalization_folds_cdata_and_trims() {
    let mut de = Deserializer::new_from_reader(b"<a>  one <![CDATA[two]]>  </a>");
    assert_eq!(de.next().unwrap(), start("a"));
    assert_eq!(de.next().unwrap(), Event::Characters("one two".to_string()));
    assert_eq!(de.next().unwrap(), end("a"));
}

#[test]
fn without_folding_cdata_is_no_character_data() {
    let source = EventSource::new(b"<a><![CDATA[two]]></a>", true, true, false, true, true);
    let mut de = Deserializer::new(source);
    match de.deserialize_string() {
        Err(Error::Mismatch { expected, found }) => {
            assert_eq!(expected, Expected::Characters);
            assert_eq!(found, Event::CData("two".to_string()));
        }
        other => panic!("{:?}", other),
    }
}

#[test]
fn attributes_come_in_document_order_with_their_namespaces() {
    let mut de = Deserializer::new_from_reader(
        b"<p:a xmlns:p=\"urn:p\" one=\"1\" p:two=\"2\"/>",
    );
    match de.next().unwrap() {
        Event::StartElement { name, attributes } => {
            assert_eq!(name.local_name, "a");
            assert_eq!(name.namespace, Some("urn:p".to_string()));
            assert_eq!(attributes.len(), 2);
            assert_eq!(attributes[0].name, local("one"));
            assert_eq!(attributes[0].value, "1");
            assert_eq!(attributes[1].name.local_name, "two");
            assert_eq!(attributes[1].name.namespace, Some("urn:p".to_string()));
            assert_eq!(attributes[1].value, "2");
        }
        other => panic!("{:?}", other),
    }
}

#[test]
fn malformed_markup_is_a_syntax_error() {
    let mut de = Deserializer::new_from_reader(b"<a><b></a>");
    de.next().unwrap();
    de.next().unwrap();
    let first = match de.next() {
        Err(Error::Syntax(message)) => message,
        other => panic!("{:?}", other),
    };
    assert!(!first.is_empty());
    match de.next() {
        Err(Error::Syntax(message)) => assert_eq!(message, first),
        other => panic!("{:?}", other),
    }
}

#[test]
fn expect_end_element_checks_the_name() {
    let mut de = Deserializer::new_from_reader(b"<a></a>");
    de.next().unwrap();
    assert!(de.expect_end_element(local("a")).is_ok());

    let mut de = Deserializer::new_from_reader(b"<a></a>");
    de.next().unwrap();
    match de.expect_end_element(local("b")) {
        Err(Error::Mismatch { expected, found }) => {
            assert_eq!(expected, Expected::EndOf(local("b")));
            assert_eq!(found, end("a"));
        }
        other => panic!("{:?}", other),
    }
}

#[test]
fn expect_end_element_is_namespace_aware() {
    let mut de = Deserializer::new_from_reader(b"<a xmlns=\"urn:x\"></a>");
    de.next().unwrap();
    assert!(matches!(de.expect_end_element(local("a")), Err(Error::Mismatch { .. })));

    let mut de = Deserializer::new_from_reader(b"<a xmlns=\"urn:x\"></a>");
    de.next().unwrap();
    let qualified = Name { local_name: "a".to_string(), namespace: Some("urn:x".to_string()) };
    assert!(de.expect_end_element(qualified).is_ok());
}

#[test]
fn expect_end_element_rejects_other_events() {
    let mut de = Deserializer::new_from_reader(b"<a>x</a>");
    de.next().unwrap();
    match de.expect_end_element(local("a")) {
        Err(Error::Mismatch { expected, found }) => {
            assert_eq!(expected, Expected::EndOf(local("a")));
            assert_eq!(found, Event::Characters("x".to_string()));
        }
        other => panic!("{:?}", other),
    }
}

#[test]
fn same_as_compares_local_name_and_namespace() {
    let plain = local("a");
    let qualified = Name { local_name: "a".to_string(), namespace: Some("urn:x".to_string()) };
    let other = Name { local_name: "a".to_string(), namespace: Some("urn:y".to_string()) };
    assert!(plain.same_as(&local("a")));
    assert!(!plain.same_as(&local("b")));
    assert!(!plain.same_as(&qualified));
    assert!(!qualified.same_as(&other));
    assert!(qualified.same_as(&qualified.duplicate()));
}

#[test]
fn prefixes_do_not_tell_names_apart() {
    let mut de = Deserializer::new_from_reader(b"<p:a xmlns:p=\"urn:x\" xmlns:q=\"urn:x\"><q:b/></p:a>");
    let (name, _) = de.open_element().unwrap();
    assert_eq!(name, Name { local_name: "a".to_string(), namespace: Some("urn:x".to_string()) });
}

#[test]
fn the_signal_is_one_shot() {
    let mut de = Deserializer::new_from_reader(b"<a>x</a>");
    assert!(!de.unset_map_value());
    de.set_map_value();
    assert!(de.unset_map_value());
    assert!(!de.unset_map_value());
}

#[test]
fn text_is_read_inside_its_element_unless_the_signal_is_set() {
    let mut de = Deserializer::new_from_reader(b"<a>x</a>");
    assert_eq!(de.deserialize_string().unwrap(), "x");
    assert_eq!(de.depth(), 0);

    let mut de = Deserializer::new_from_reader(b"<a>x</a>");
    de.next().unwrap();
    de.set_map_value();
    assert_eq!(de.deserialize_string().unwrap(), "x");
    assert!(!de.unset_map_value());
    assert_eq!(*de.peek().unwrap(), end("a"));

    let mut de = Deserializer::new_from_reader(b"<a>x</a>");
    de.set_map_value();
    assert!(matches!(de.deserialize_string(), Err(Error::Mismatch { .. })));
}

#[test]
fn empty_element_reads_as_empty_text() {
    let mut de = Deserializer::new_from_reader(b"<a></a>");
    assert_eq!(de.deserialize_string().unwrap(), "");
    let mut de = Deserializer::new_from_reader(b"<a/>");
    assert_eq!(de.deserialize_scalar(ScalarKind::Str).unwrap(), Value::Str(String::new()));
}

#[test]
fn unit_consumes_exactly_the_pair_of_tags() {
    let mut de = Deserializer::new_from_reader(b"<r><a/><b/></r>");
    de.next().unwrap();
    assert_eq!(de.deserialize_unit().unwrap(), Value::Unit);
    assert_eq!(de.depth(), 1);
    assert_eq!(*de.peek().unwrap(), start("b"));
}

#[test]
fn ignoring_leaves_the_cursor_at_the_following_sibling() {
    let document = b"<r><skip a=\"1\"><a><b>t</b><b><c/></b></a>u<d/></skip><keep>1</keep></r>";
    let mut de = Deserializer::new_from_reader(document);
    de.next().unwrap();
    assert_eq!(de.deserialize_ignored_any().unwrap(), Value::Unit);
    assert_eq!(de.depth(), 1);
    assert_eq!(*de.peek().unwrap(), start("keep"));
    assert_eq!(de.deserialize_shape(&Shape::Scalar(ScalarKind::I32)).unwrap(), Value::Int(1));
    assert_eq!(de.next().unwrap(), end("r"));
}

#[test]
fn ignoring_an_empty_element_and_text() {
    let mut de = Deserializer::new_from_reader(b"<r><skip/>t<keep/></r>");
    de.next().unwrap();
    de.deserialize_ignored_any().unwrap();
    assert_eq!(*de.peek().unwrap(), Event::Characters("t".to_string()));
    de.deserialize_ignored_any().unwrap();
    assert_eq!(*de.peek().unwrap(), start("keep"));
    assert_eq!(de.depth(), 1);
}

#[test]
fn ignoring_fails_where_the_document_breaks_off() {
    let mut de = Deserializer::new_from_reader(b"<r><skip><a>");
    de.next().unwrap();
    assert!(matches!(de.deserialize_ignored_any(), Err(Error::Syntax(_))));
}

#[test]
fn untyped_dispatch() {
    let mut de = Deserializer::new_from_reader(b"<a x=\"1\"><b>t</b>u<c/></a>");
    match de.deserialize().unwrap() {
        Value::Element(entries) => {
            let keys: Vec<&str> = entries.iter().map(|e| e.key.as_str()).collect();
            assert_eq!(keys, vec!["x", "b", "$value", "c"]);
            assert_eq!(entries[0].value, Value::Str("1".to_string()));
            match &entries[1].value {
                Value::Element(inner) => {
                    assert_eq!(inner.len(), 1);
                    assert_eq!(inner[0].key, "$value");
                    assert_eq!(inner[0].value, Value::Str("t".to_string()));
                }
                other => panic!("{:?}", other),
            }
            assert_eq!(entries[2].value, Value::Str("u".to_string()));
            assert_eq!(entries[3].value, Value::Element(vec![]));
        }
        other => panic!("{:?}", other),
    }
    assert_eq!(de.depth(), 0);

    let mut de = Deserializer::new_from_reader(b"<a>t</a>");
    de.next().unwrap();
    assert_eq!(de.deserialize().unwrap(), Value::Str("t".to_string()));
    assert_eq!(de.deserialize().unwrap(), Value::Unit);
    assert_eq!(*de.peek().unwrap(), end("a"));
}

#[test]
fn deserialize_map_needs_a_start_tag() {
    let mut de = Deserializer::new_from_reader(b"<a>t</a>");
    de.next().unwrap();
    match de.deserialize_map() {
        Err(Error::Mismatch { expected, found }) => {
            assert_eq!(expected, Expected::StartElement);
            assert_eq!(found, Event::Characters("t".to_string()));
        }
        other => panic!("{:?}", other),
    }
}

#[test]
fn nesting_limit_failure_has_its_message() {
    match Error::nesting_limit() {
        Error::Custom(message) => {
            assert_eq!(message, "elements nest deeper than the decoder can count")
        }
        other => panic!("{:?}", other),
    }
    match Error::end_of_stream() {
        Error::Mismatch { expected, found } => {
            assert_eq!(expected, Expected::Content);
            assert_eq!(found, Event::EndDocument);
        }
        other => panic!("{:?}", other),
    }
}
