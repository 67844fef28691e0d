use rand::distributions::Alphanumeric;
use rand::Rng;

use vdf_parser::{comment, key, vdf_value_string, VdfValue};

const TEST_RUNS: usize = 1000;

#[test]
fn any_comment() {
    // Run the test a bunch of times using randomly generated strings
    for _ in 0..TEST_RUNS {
        let random_string = rand::thread_rng()
            .sample_iter(&Alphanumeric)
            .take(rand::thread_rng().gen_range(1..100))
            .map(char::from)
            .collect::<String>();
        let input = format!("//{}\n", random_string);
        let result = comment(&input);
        // check if the result is Ok
        assert!(result.is_some(), "Error: {:#?}", result);
        // check if the result is the same as the input
        assert_eq!(result.unwrap(), ("", random_string));
    }
}

#[test]
fn contains_comment() {
    assert!(comment("//").is_none());
    assert!(comment("// ").is_none());
    assert!(comment("//\t").is_none());
    assert!(comment("//\\\"").is_none());
}

#[test]
fn any_alphanumeric_within_quotes() {
    // Run the test a bunch of times using randomly generated strings
    for _ in 0..TEST_RUNS {
        let random_string = rand::thread_rng()
            .sample_iter(&Alphanumeric)
            .take(rand::thread_rng().gen_range(1..100))
            .map(char::from)
            .collect::<String>();
        let input = format!("\"{}\"", random_string);
        let result = key(&input);
        // check if the result is Ok
        assert!(result.is_some(), "Error: {:#?}", result);
        // check if the result is the same as the input
        assert_eq!(result.unwrap(), ("", random_string));
    }
}

#[test]
fn contains_alphanumeric_within_quotes() {
    assert!(key("\"\"").is_none());
    assert!(key("\" \"").is_none());
    assert!(key("\"\t\"").is_none());
    assert!(key("\"\\\"\"").is_none());
}

#[test]
fn any_string() {
    let input = "\"test\"";
    let result = vdf_value_string(input);
    assert!(result.is_some(), "Error: {:#?}", result);
    assert_eq!(result.unwrap(), ("", VdfValue::String("test".to_string())));
}

#[test]
fn allows_empty_string() {
    let input = "\"\"";
    let result = vdf_value_string(input);
    assert!(result.is_some(), "Error: {:#?}", result);
    assert_eq!(result.unwrap(), ("", VdfValue::String("".to_string())));
}

#[test]
fn key_accepts_underscore_and_dash_and_keeps_rest() {
    assert_eq!(key("\"a_b-9\" rest"), Some((" rest", "a_b-9".to_string())));
}

#[test]
fn key_rejects_missing_quote_and_inner_space() {
    assert!(key("abc").is_none());
    assert!(key("\"abc").is_none());
    assert!(key("\"a b\"").is_none());
    assert!(key("\"é\"").is_none());
}

#[test]
fn string_value_keeps_spaces_and_skips_leading_layout() {
    assert_eq!(
        vdf_value_string(" \n\t\"0 0 0\"x"),
        Some(("x", VdfValue::String("0 0 0".to_string())))
    );
    assert!(vdf_value_string("\"open").is_none());
    assert!(vdf_value_string("{").is_none());
}

#[test]
fn comment_is_trimmed_and_accepts_crlf() {
    assert_eq!(
        comment("  //   some text \t\r\n  next"),
        Some(("next", "some text".to_string()))
    );
    assert_eq!(
        comment("//\u{3000}wide\u{a0}\n"),
        Some(("", "wide".to_string()))
    );
    assert_eq!(comment("// \n"), Some(("", "".to_string())));
}

#[test]
fn comment_rejects_lone_carriage_return_and_single_slash() {
    assert!(comment("// text\rmore\n").is_none());
    assert!(comment("/ text\n").is_none());
    assert!(comment("// no line ending").is_none());
}
