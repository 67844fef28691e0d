use vdf_parser::{
    attribute, block_content, parse_vdf_text, vdf_value_block, VdfAttribute, VdfError, VdfValue,
};

fn leaf(key: &str, value: &str) -> VdfAttribute {
    VdfAttribute {
        key: key.to_string(),
        comments_before: vec![],
        comment_after: None,
        value: VdfValue::String(value.to_string()),
    }
}

#[test]
fn it_works() {
    {
        let input = r#"
            // Comment at the start of the file
            "default_attack"
            {
                // Comment before a key-value pair 1
                // Comment before a key-value pair 2
                // Comment before a key-value pair 3
                "ID" "5001"
                "Damage" "100" // Comment after a key-value pair

                "test_block"
                {
                    "test_key" "test_value"
                }
            }
            // Comment at the end of the file
            "#;

        let result = parse_vdf_text(input);
        let expected = VdfAttribute {
            key: "default_attack".to_string(),
            comments_before: vec!["Comment at the start of the file".to_string()],
            comment_after: Some("Comment at the end of the file".to_string()),
            value: VdfValue::Block(vec![
                VdfAttribute {
                    key: "ID".to_string(),
                    comments_before: vec![
                        "Comment before a key-value pair 1".to_string(),
                        "Comment before a key-value pair 2".to_string(),
                        "Comment before a key-value pair 3".to_string(),
                    ],
                    comment_after: None,
                    value: VdfValue::String("5001".to_string()),
                },
                VdfAttribute {
                    key: "Damage".to_string(),
                    comments_before: vec![],
                    comment_after: Some("Comment after a key-value pair".to_string()),
                    value: VdfValue::String("100".to_string()),
                },
                VdfAttribute {
                    key: "test_block".to_string(),
                    comments_before: vec![],
                    comment_after: None,
                    value: VdfValue::Block(vec![VdfAttribute {
                        key: "test_key".to_string(),
                        comments_before: vec![],
                        comment_after: None,
                        value: VdfValue::String("test_value".to_string()),
                    }]),
                },
            ]),
        };
        assert!(result.is_ok(), "Failed to parse attribute");
        let result = result.unwrap();
        assert_eq!(result.key, expected.key, "Parsed key does not match");
        assert_eq!(result.value, expected.value, "Parsed value does not match");
    }
}

#[test]
fn can_parse_multiple_nested_blocks() {
    let input = r#"
        "default_attack"
        {
            // Comment before a key-value pair 1
            // Comment before a key-value pair 2
            // Comment before a key-value pair 3
            "ID" "5001"
            "Damage" "100" // Comment after a key-value pair
            "test_block_a"
            {
                "test_key" "test_value"

                "test_block_a_a"
                {
                    "test_key2" "test_value2"
                }
            }
            "test_block_b"
            {
                "test_key2" "test_value2"
            }
        }
        "#;

    let result = parse_vdf_text(input);
    assert!(result.is_ok(), "Failed to parse attribute");
}

#[test]
fn can_parse_block_with_only_comments() {
    let input = r#"
        "default_attack"
        {
            "ID" "5001"
            "Damage" "100"
            "test_block_a"
            {
                "test_key" "test_value"

                "test_block_a_a"
                {
                    //"test_key2" "test_value2"
                }
            }
            "test_block_b"
            {
                "test_key2" "test_value2"
            }
        }
        "#;
    let result = parse_vdf_text(input);
    assert!(result.is_ok(), "Failed to parse attribute");
}

#[test]
fn can_parse_value_with_spaces() {
    let input = r#"
        "default_attack"
        {
            "ID" "5001"
            "Damage" "100"
            "test_block"
            {
                "test_key" "0 0 0 0 0"
            }
        }
        "#;

    let expected = VdfAttribute {
        key: "default_attack".to_string(),
        comments_before: vec![],
        comment_after: None,
        value: VdfValue::Block(vec![
            VdfAttribute {
                key: "ID".to_string(),
                comments_before: vec![],
                comment_after: None,
                value: VdfValue::String("5001".to_string()),
            },
            VdfAttribute {
                key: "Damage".to_string(),
                comments_before: vec![],
                comment_after: None,
                value: VdfValue::String("100".to_string()),
            },
            VdfAttribute {
                key: "test_block".to_string(),
                comments_before: vec![],
                comment_after: None,
                value: VdfValue::Block(vec![VdfAttribute {
                    key: "test_key".to_string(),
                    comments_before: vec![],
                    comment_after: None,
                    value: VdfValue::String("0 0 0 0 0".to_string()),
                }]),
            },
        ]),
    };
    let result = parse_vdf_text(input);
    assert!(result.is_ok(), "Failed to parse attribute");
    let result = result.unwrap();
    assert_eq!(result, expected, "Parsed value does not match");
    println!("Result {:#?}", result);
    println!("Expected {:#?}", expected);
}

#[test]
fn end_to_end_nested_example() {
    let root = parse_vdf_text(r#""root" { "A" "1" "B" { "C" "2" } }"#).unwrap();
    let expected = VdfAttribute {
        key: "root".to_string(),
        comments_before: vec![],
        comment_after: None,
        value: VdfValue::Block(vec![
            leaf("A", "1"),
            VdfAttribute {
                key: "B".to_string(),
                comments_before: vec![],
                comment_after: None,
                value: VdfValue::Block(vec![leaf("C", "2")]),
            },
        ]),
    };
    assert_eq!(root, expected);
}

#[test]
fn end_to_end_comments_attach_to_root() {
    let root = parse_vdf_text("// start\n\"root\" { \"A\" \"1\" } // end\n").unwrap();
    assert_eq!(root.comments_before, vec!["start".to_string()]);
    assert_eq!(root.comment_after, Some("end".to_string()));
    assert_eq!(root.key, "root");
    assert_eq!(root.value, VdfValue::Block(vec![leaf("A", "1")]));
}

#[test]
fn later_duplicate_key_replaces_earlier() {
    let (rest, block) = vdf_value_block("{ \"a\" \"1\" \"b\" \"x\" \"a\" \"2\" } tail").unwrap();
    assert_eq!(rest, "tail");
    assert_eq!(block, VdfValue::Block(vec![leaf("a", "2"), leaf("b", "x")]));
}

#[test]
fn comment_only_block_has_one_placeholder() {
    let (_, block) = vdf_value_block("{\n // one\n // two\n}").unwrap();
    assert_eq!(
        block,
        VdfValue::Block(vec![VdfAttribute {
            key: String::new(),
            comments_before: vec!["one".to_string(), "two".to_string()],
            comment_after: None,
            value: VdfValue::String(String::new()),
        }])
    );
}

#[test]
fn comments_after_last_attribute() {
    let (_, block) = vdf_value_block("{\n // one\n \"k\" \"v\"\n // two\n}").unwrap();
    // "k" takes the first comment; the trailing comment is its trailing one.
    assert_eq!(
        block,
        VdfValue::Block(vec![VdfAttribute {
            key: "k".to_string(),
            comments_before: vec!["one".to_string()],
            comment_after: Some("two".to_string()),
            value: VdfValue::String("v".to_string()),
        }])
    );
    let (_, block) = vdf_value_block("{\n \"k\" {\n}\n // one\n // two\n}").unwrap();
    match block {
        VdfValue::Block(entries) => {
            assert_eq!(entries.len(), 2);
            assert_eq!(entries[0].key, "k");
            assert_eq!(entries[0].comment_after, Some("one".to_string()));
            assert_eq!(entries[1].key, "");
            assert_eq!(entries[1].comments_before, vec!["two".to_string()]);
        }
        VdfValue::String(_) => panic!("expected a block"),
    }
}

#[test]
fn deep_nesting_parses() {
    let depth = 200;
    let mut text = String::new();
    for _ in 0..depth {
        text.push_str("\"k\" { ");
    }
    text.push_str("\"leaf\" \"v\" ");
    for _ in 0..depth {
        text.push_str("} ");
    }
    let mut node = parse_vdf_text(&text).unwrap();
    for _ in 1..depth {
        node = match node.value {
            VdfValue::Block(mut entries) => entries.remove(0),
            VdfValue::String(_) => panic!("expected a block"),
        };
    }
    assert_eq!(node.value, VdfValue::Block(vec![leaf("leaf", "v")]));
}

#[test]
fn empty_block_parses() {
    let root = parse_vdf_text("\"root\" {}").unwrap();
    assert_eq!(root.value, VdfValue::Block(vec![]));
}

#[test]
fn parse_failure_reports_position() {
    match parse_vdf_text("\n  x") {
        Err(VdfError::Parse { position, line, column, expected }) => {
            assert_eq!((position, line, column), (3, 2, 3));
            assert!(!expected.is_empty());
        }
        other => panic!("unexpected {:?}", other),
    }
    assert!(matches!(parse_vdf_text(""), Err(VdfError::Parse { position: 0, line: 1, column: 1, .. })));
}

#[test]
fn unterminated_block_without_comments_fails() {
    assert!(parse_vdf_text("\"root\" { \"a\" \"b\"").is_err());
}

#[test]
fn trailing_input_after_root_is_ignored() {
    let root = parse_vdf_text("\"root\" \"v\" garbage").unwrap();
    assert_eq!(root, leaf("root", "v"));
}

#[test]
fn attribute_returns_rest() {
    let (rest, attr) = attribute("\"a\" \"1\" \"b\" \"2\"").unwrap();
    assert_eq!(attr, leaf("a", "1"));
    assert_eq!(rest, " \"b\" \"2\"");
    assert!(attribute("  }").is_none());
}

#[test]
fn block_content_keeps_duplicates_in_order() {
    let (rest, attrs) = block_content("  \"a\" \"1\" \"a\" \"2\" } x");
    assert_eq!(rest, "} x");
    assert_eq!(attrs, vec![leaf("a", "1"), leaf("a", "2")]);
}

#[test]
fn get_string_value_finds_child_or_reports() {
    let root = parse_vdf_text("\"root\" { \"a\" \"1\" \"b\" \"2\" }").unwrap();
    assert_eq!(root.get_string_value("b").unwrap(), &leaf("b", "2"));
    match root.get_string_value("zz") {
        Err(VdfError::ValueNotFound(k, b)) => {
            assert_eq!(k, "zz");
            assert_eq!(b, "root");
        }
        other => panic!("unexpected {:?}", other),
    }
    let a = root.get_string_value("a").unwrap();
    match a.get_string_value("x") {
        Err(VdfError::ValueNotFound(k, b)) => {
            assert_eq!(k, "x");
            assert_eq!(b, "a");
        }
        other => panic!("unexpected {:?}", other),
    }
}

#[test]
fn string_value_into_string() {
    let root = parse_vdf_text("\"root\" { \"a\" \"1 2\" }").unwrap();
    let a = match root.value {
        VdfValue::Block(mut entries) => entries.remove(0),
        VdfValue::String(_) => panic!("expected a block"),
    };
    assert_eq!(a.value.into_string(), "1 2".to_string());
}
