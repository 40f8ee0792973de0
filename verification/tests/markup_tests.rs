use sparrow::markup::{
    extract_all_tool_calls_from_xml, has_incomplete_tool_call, strip_tool_xml_tags,
    extract_tool_response_content, check_if_continuation_needed,
};

#[test]
fn test_extract_single_call() {
    let text = "Let me check.\n<tool_call>\n{\"name\": \"get_current_time\", \"arguments\": {}}\n</tool_call>\nDone.";
    let calls = extract_all_tool_calls_from_xml(text);
    assert_eq!(calls.len(), 1);
    assert_eq!(calls[0].name, "get_current_time");
    assert_eq!(calls[0].args, "{}");
}

#[test]
fn test_extract_two_blocks_and_incomplete() {
    let text = "a<tool_call>{\"name\": \"one\", \"arguments\": {\"x\": 1}}</tool_call>b<tool_call>{\"name\": \"two\", \"arguments\": {}}</tool_call>c<tool_call>{\"name\": \"three\"";
    let calls = extract_all_tool_calls_from_xml(text);
    assert_eq!(calls.len(), 2);
    assert_eq!(calls[0].name, "one");
    assert_eq!(calls[1].name, "two");
    assert!(has_incomplete_tool_call(text));
}

#[test]
fn test_extract_document_order() {
    let text = "<tool_call>{\"name\": \"c\", \"arguments\": {}}</tool_call>x<tool_call>{\"name\": \"a\", \"arguments\": {}}</tool_call>y<tool_call>{\"name\": \"b\", \"arguments\": {}}</tool_call>";
    let calls = extract_all_tool_calls_from_xml(text);
    let names: Vec<&str> = calls.iter().map(|c| c.name.as_str()).collect();
    assert_eq!(names, vec!["c", "a", "b"]);
    assert!(!has_incomplete_tool_call(text));
}

#[test]
fn test_extract_skips_malformed() {
    let text = "<tool_call>not json</tool_call><tool_call>{\"name\": \"ok\", \"arguments\": {}}</tool_call>";
    let calls = extract_all_tool_calls_from_xml(text);
    assert_eq!(calls.len(), 1);
    assert_eq!(calls[0].name, "ok");
}

#[test]
fn test_extract_canonicalizes_arguments() {
    // The arguments object is re-serialized canonically (keys sorted), so the
    // dedup key does not depend on the model's field order.
    let text = "<tool_call>{\"name\": \"t\", \"arguments\": {\"b\": 1, \"a\": 2}}</tool_call>";
    let calls = extract_all_tool_calls_from_xml(text);
    assert_eq!(calls.len(), 1);
    assert_eq!(calls[0].args, "{\"a\":2,\"b\":1}");
}

#[test]
fn test_has_incomplete_tool_call() {
    assert!(!has_incomplete_tool_call("no blocks at all"));
    assert!(!has_incomplete_tool_call("<tool_call>{}</tool_call>"));
    assert!(has_incomplete_tool_call("<tool_call>{}</tool_call><tool_call>{\"name\""));
}

#[test]
fn test_strip_round_trip_no_blocks() {
    let text = "plain prose, nothing else";
    assert_eq!(strip_tool_xml_tags(text), text);
}

#[test]
fn test_strip_only_blocks_is_empty() {
    let text = "<tool_call>{\"name\": \"t\", \"arguments\": {}}</tool_call><tool_response>\nout\n</tool_response>";
    assert_eq!(strip_tool_xml_tags(text), "");
}

#[test]
fn test_strip_keeps_prose_between_blocks() {
    let text = "before <tool_call>x</tool_call> middle <tool_response>y</tool_response> after";
    assert_eq!(strip_tool_xml_tags(text), "before  middle  after");
}

#[test]
fn test_strip_drops_unterminated_tail() {
    let text = "keep this <tool_call>{\"name\"";
    assert_eq!(strip_tool_xml_tags(text), "keep this");
}

#[test]
fn test_extract_tool_response_content_pretty_prints() {
    let text = "x<tool_response>\n{\"a\": 1}\n</tool_response>y";
    assert_eq!(extract_tool_response_content(text), "{\n  \"a\": 1\n}");
}

#[test]
fn test_extract_tool_response_content_raw_when_not_json() {
    let text = "<tool_response>\nplain words\n</tool_response>";
    assert_eq!(extract_tool_response_content(text), "plain words");
}

#[test]
fn test_extract_tool_response_content_without_block() {
    assert_eq!(extract_tool_response_content("nothing here"), "nothing here");
}

#[test]
fn test_check_if_continuation_needed() {
    assert!(check_if_continuation_needed("a<tool_response>r</tool_response>"));
    assert!(check_if_continuation_needed("a<tool_response>unfinished"));
    assert!(!check_if_continuation_needed("a<tool_call>c</tool_call>"));
}
