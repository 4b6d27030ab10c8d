use yushan::codec::{parse_space_separated_json, CodecError};

#[test]
fn splits_back_to_back_objects() {
    let r = parse_space_separated_json("{\"a\":1} {\"b\":2}\n\t{\"c\":3}").unwrap();
    assert_eq!(r, vec!["{\"a\":1}".to_string(), "{\"b\":2}".to_string(), "{\"c\":3}".to_string()]);
}

#[test]
fn empty_input_has_no_objects() {
    assert_eq!(parse_space_separated_json("").unwrap(), Vec::<String>::new());
    assert_eq!(parse_space_separated_json(" \n\t\r ").unwrap(), Vec::<String>::new());
}

#[test]
fn whitespace_inside_strings_and_objects_is_kept() {
    let r = parse_space_separated_json("  { \"m\" : \"a  b\" }   {\"n\":\"\\t x\"}  ").unwrap();
    assert_eq!(r, vec!["{ \"m\" : \"a  b\" }".to_string(), "{\"n\":\"\\t x\"}".to_string()]);
}

#[test]
fn braces_inside_strings_do_not_count() {
    let r = parse_space_separated_json("{\"m\":\"}{ }}\"} {\"n\":\"{{\"}").unwrap();
    assert_eq!(r, vec!["{\"m\":\"}{ }}\"}".to_string(), "{\"n\":\"{{\"}".to_string()]);
}

#[test]
fn escaped_quote_stays_inside_string() {
    let r = parse_space_separated_json("{\"m\":\"a\\\"}b\"}").unwrap();
    assert_eq!(r, vec!["{\"m\":\"a\\\"}b\"}".to_string()]);
}

#[test]
fn nested_objects_are_one_object() {
    let r = parse_space_separated_json("{\"a\":{\"b\":{}}} {}").unwrap();
    assert_eq!(r, vec!["{\"a\":{\"b\":{}}}".to_string(), "{}".to_string()]);
}

#[test]
fn unbalanced_braces_are_reported() {
    assert_eq!(parse_space_separated_json("{\"a\":1} {\"b\":2"), Err(CodecError::UnbalancedBraces));
    assert_eq!(parse_space_separated_json("{\"a\":1}}"), Err(CodecError::UnbalancedBraces));
}

#[test]
fn incomplete_trailing_object_is_reported() {
    assert_eq!(parse_space_separated_json("{\"a\":1} abc"), Err(CodecError::IncompleteObject));
}

#[test]
fn malformed_object_is_reported_with_its_text() {
    assert_eq!(
        parse_space_separated_json("{\"a\":1} {\"b\" 2} {"),
        Err(CodecError::MalformedObject("{\"b\" 2}".to_string()))
    );
}
