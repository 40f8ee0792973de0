use sparrow::prepare::{
    Message, ToolCatalogueEntry, ToolingMode, ChatTurnRequest, prepare_messages, prepare_request,
    render_tool_catalogue, build_continuation_messages, build_rag_system_prompt,
    default_system_prompt,
};
use sparrow::dispatch::{resolve_tool_target, ToolTarget, ToolResult, flatten_tool_result};
use sparrow::json::parse_clean_args;

fn msg(role: &str, content: &str) -> Message {
    Message { role: role.to_string(), content: content.to_string() }
}

#[test]
fn test_prepare_messages_drops_duplicate_trailing_user() {
    let history = vec![msg("user", "old question"), msg("assistant", "old answer"), msg("user", "hello")];
    let out = prepare_messages("sys".to_string(), &history, true, "hello");
    assert_eq!(out.len(), 4);
    assert_eq!(out[0].role, "system");
    assert_eq!(out[1].content, "old question");
    assert_eq!(out[2].content, "old answer");
    assert_eq!(out[3].role, "user");
    assert_eq!(out[3].content, "hello");
}

#[test]
fn test_prepare_messages_strips_assistant_markup() {
    let history = vec![
        msg("assistant", "pre <tool_call>{\"name\": \"t\"}</tool_call> post"),
        msg("assistant", "<tool_call>{}</tool_call>"),
        msg("tool", "ignored role"),
    ];
    let out = prepare_messages("sys".to_string(), &history, true, "q");
    // The all-markup assistant turn and the unknown role are dropped.
    assert_eq!(out.len(), 3);
    assert_eq!(out[1].role, "assistant");
    assert_eq!(out[1].content, "pre  post");
    assert_eq!(out[2].content, "q");
}

#[test]
fn test_prepare_messages_without_history() {
    let history = vec![msg("user", "earlier")];
    let out = prepare_messages("sys".to_string(), &history, false, "now");
    assert_eq!(out.len(), 2);
    assert_eq!(out[0].role, "system");
    assert_eq!(out[1].content, "now");
}

#[test]
fn test_prepare_request_defaults() {
    let req = ChatTurnRequest {
        model: "m".to_string(),
        message: "hi".to_string(),
        history: Vec::new(),
        include_history: false,
        system_prompt: None,
        temperature_milli: None,
        top_p_milli: None,
        seed: None,
        max_tokens: Some(5),
        max_completion_tokens: None,
        stream_id: "s".to_string(),
        mode: ToolingMode::MarkupEmbedded,
    };
    let prepared = prepare_request(&req, &Vec::new());
    assert_eq!(prepared.temperature_milli, 700);
    assert_eq!(prepared.top_p_milli, 1000);
    // A tiny cap is raised so a tool call is never cut short.
    assert_eq!(prepared.max_tokens, 100);
    assert!(prepared.include_usage);
    assert!(!prepared.structured_tools);
    // Without tools the system message is the bare default prompt.
    assert_eq!(prepared.messages[0].content, default_system_prompt());
}

#[test]
fn test_prepare_request_structured_mode() {
    let req = ChatTurnRequest {
        model: "m".to_string(),
        message: "hi".to_string(),
        history: Vec::new(),
        include_history: false,
        system_prompt: Some("custom".to_string()),
        temperature_milli: Some(200),
        top_p_milli: Some(900),
        seed: Some(42),
        max_tokens: None,
        max_completion_tokens: Some(64),
        stream_id: "s".to_string(),
        mode: ToolingMode::StructuredToolCalls,
    };
    let catalogue = vec![ToolCatalogueEntry {
        name: "t".to_string(),
        params: "{}".to_string(),
        description: "d".to_string(),
    }];
    let prepared = prepare_request(&req, &catalogue);
    // In structured mode the catalogue is not rendered into the prompt.
    assert_eq!(prepared.messages[0].content, "custom");
    assert!(prepared.structured_tools);
    assert_eq!(prepared.temperature_milli, 200);
    assert_eq!(prepared.max_tokens, 1000);
    assert_eq!(prepared.seed, Some(42));
}

#[test]
fn test_prepare_request_markup_mode_renders_catalogue() {
    let req = ChatTurnRequest {
        model: "m".to_string(),
        message: "hi".to_string(),
        history: Vec::new(),
        include_history: false,
        system_prompt: Some("base".to_string()),
        temperature_milli: None,
        top_p_milli: None,
        seed: None,
        max_tokens: None,
        max_completion_tokens: None,
        stream_id: "s".to_string(),
        mode: ToolingMode::MarkupEmbedded,
    };
    let catalogue = vec![ToolCatalogueEntry {
        name: "builtin_get_current_time".to_string(),
        params: "{}".to_string(),
        description: "tells the time".to_string(),
    }];
    let prepared = prepare_request(&req, &catalogue);
    let system = &prepared.messages[0].content;
    assert!(system.starts_with("base\n\n# Tools"));
    assert!(system.contains("builtin_get_current_time({}) - tells the time"));
    assert!(!prepared.structured_tools);
}

#[test]
fn test_render_tool_catalogue() {
    let entries = vec![
        ToolCatalogueEntry {
            name: "get_time".to_string(),
            params: "{}".to_string(),
            description: "tells the time".to_string(),
        },
        ToolCatalogueEntry {
            name: "lookup".to_string(),
            params: "{\"q\": \"string\"}".to_string(),
            description: "finds things".to_string(),
        },
    ];
    let rendered = render_tool_catalogue(&entries);
    assert!(rendered.contains("get_time({}) - tells the time\nlookup({\"q\": \"string\"}) - finds things"));
    assert!(rendered.contains("<tools>"));
    assert!(rendered.contains("</tools>"));
    assert_eq!(render_tool_catalogue(&Vec::new()), "");
}

#[test]
fn test_build_continuation_messages() {
    let previous = vec![
        msg("system", "sys"),
        msg("user", "first"),
        msg("assistant", "a"),
        msg("user", "what time is it?"),
    ];
    let transcript = "x<tool_response>\n{\"time\": \"12:00\"}\n</tool_response>";
    let out = build_continuation_messages(&previous, transcript);
    assert_eq!(out.len(), 3);
    assert_eq!(out[0].role, "system");
    assert_eq!(out[1].role, "user");
    assert_eq!(out[1].content, "what time is it?");
    assert_eq!(out[2].role, "assistant");
    assert_eq!(
        out[2].content,
        "I called a tool and received this result:\n{\n  \"time\": \"12:00\"\n}"
    );
}

#[test]
fn test_build_rag_system_prompt() {
    let with_ctx = build_rag_system_prompt(&Some("base".to_string()), "ctx");
    assert!(with_ctx.starts_with("base\n\nRelevant context from documents:\nctx"));
    let without_ctx = build_rag_system_prompt(&Some("base".to_string()), "");
    assert_eq!(without_ctx, "base");
    let default = build_rag_system_prompt(&None, "");
    assert_eq!(default, "You're an AI assistant that provides helpful responses.");
}

#[test]
fn test_resolve_tool_target() {
    match resolve_tool_target("builtin_get_current_time") {
        ToolTarget::Builtin { name } => assert_eq!(name, "get_current_time"),
        ToolTarget::External { .. } => panic!("expected a builtin target"),
    }
    match resolve_tool_target("weather_lookup") {
        ToolTarget::External { name } => assert_eq!(name, "weather_lookup"),
        ToolTarget::Builtin { .. } => panic!("expected an external target"),
    }
}

#[test]
fn test_tool_result_text_and_flatten() {
    let r = ToolResult::text("payload".to_string());
    assert_eq!(r.content.len(), 1);
    assert_eq!(r.content[0].content_type, "text");
    assert_eq!(flatten_tool_result(&r), "payload");
}

#[test]
fn test_parse_clean_args_strips_nulls() {
    let cleaned = parse_clean_args("{\"keep\": 1, \"drop\": null}").unwrap();
    assert!(cleaned.contains_key("keep"));
    assert!(!cleaned.contains_key("drop"));
    assert!(parse_clean_args("not an object").is_none());
    assert!(parse_clean_args("[1, 2]").is_none());
}
