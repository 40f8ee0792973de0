use sparrow::driver::TurnState;
use sparrow::registry::CancellationRegistry;

#[test]
fn test_plain_turn_no_tools() {
    // A turn whose stream carries plain text and no markup: the transcript is
    // exactly the streamed text, no tool runs, and the terminal event is not
    // cancelled.
    let mut state = TurnState::new_turn();
    let calls1 = state.on_content("Hel");
    let calls2 = state.on_content("lo there!");
    assert!(calls1.is_empty());
    assert!(calls2.is_empty());
    state.on_stream_end();
    assert!(!state.continuation_required());
    let terminal = state.terminal_event();
    assert!(!terminal.cancelled);
    assert!(terminal.usage.is_none());
    assert_eq!(state.transcript, "Hello there!");
}

#[test]
fn test_single_tool_call_turn() {
    // One complete call block: exactly one invocation is handed out, its
    // outcome lands in the transcript as a response block, and the finished
    // turn asks for exactly one continuation.
    let mut state = TurnState::new_turn();
    let calls = state.on_content(
        "<tool_call>{\"name\": \"builtin_get_current_time\", \"arguments\": {}}</tool_call>",
    );
    assert_eq!(calls.len(), 1);
    assert_eq!(calls[0].name, "builtin_get_current_time");
    let emitted = state.on_tool_outcome(true, "{\"time\": \"now\"}");
    assert_eq!(emitted, "\n<tool_response>\n{\"time\": \"now\"}\n</tool_response>");
    assert!(state.transcript.ends_with("</tool_response>"));
    state.on_stream_end();
    assert!(state.continuation_required());
    state.append_continuation("It is now.");
    assert!(!state.continuation_required());
    assert!(state.transcript.ends_with("It is now."));
}

#[test]
fn test_failed_tool_outcome_is_shown() {
    let mut state = TurnState::new_turn();
    let _ = state.on_content("<tool_call>{\"name\": \"t\", \"arguments\": {}}</tool_call>");
    let emitted = state.on_tool_outcome(false, "no such tool");
    assert_eq!(emitted, "\n<tool_response>\nError: no such tool\n</tool_response>");
    state.on_stream_end();
    assert!(state.continuation_required());
}

#[test]
fn test_duplicate_call_deduplicated() {
    // The same (name, args) block arriving again in a later fragment is
    // executed only once.
    let mut state = TurnState::new_turn();
    let block = "<tool_call>{\"name\": \"t\", \"arguments\": {\"q\": 1}}</tool_call>";
    let first = state.on_content(block);
    assert_eq!(first.len(), 1);
    let second = state.on_content(block);
    assert!(second.is_empty());
    // A different argument payload is a different invocation.
    let third = state.on_content("<tool_call>{\"name\": \"t\", \"arguments\": {\"q\": 2}}</tool_call>");
    assert_eq!(third.len(), 1);
}

#[test]
fn test_cancel_before_first_token() {
    // A cancel signal before any backend token: the terminal event reports
    // the cancellation at once, nothing was emitted, and the id is retired.
    let mut registry: CancellationRegistry<u64> = CancellationRegistry::new();
    let displaced = registry.register("session-1", 7);
    assert!(displaced.is_none());
    let sender = registry.signal("session-1");
    assert_eq!(sender, Some(7));
    let mut state = TurnState::new_turn();
    state.on_cancel();
    let terminal = state.terminal_event();
    assert!(terminal.cancelled);
    assert_eq!(state.transcript, "");
    assert!(registry.retire("session-1").is_none());
}

#[test]
fn test_usage_recorded_and_overwritten() {
    let mut state = TurnState::new_turn();
    state.on_usage(1, 2, 3);
    state.on_usage(10, 20, 30);
    state.on_stream_end();
    let terminal = state.terminal_event();
    let usage = terminal.usage.unwrap();
    assert_eq!(usage.prompt_tokens, 10);
    assert_eq!(usage.completion_tokens, 20);
    assert_eq!(usage.total_tokens, 30);
}

#[test]
fn test_stream_error_is_distinct_exit() {
    let mut state = TurnState::new_turn();
    let _ = state.on_content("partial");
    state.on_stream_error();
    assert!(state.errored);
    assert!(!state.cancelled);
    assert!(!state.finished);
    // An errored turn never enters continuation.
    assert!(!state.continuation_required());
    let terminal = state.terminal_event();
    assert!(!terminal.cancelled);
}

#[test]
fn test_continuation_error_note() {
    let mut state = TurnState::new_turn();
    let _ = state.on_content("<tool_call>{\"name\": \"t\", \"arguments\": {}}</tool_call>");
    let _ = state.on_tool_outcome(true, "1");
    state.on_stream_end();
    let note = state.append_continuation_error("backend gone");
    assert_eq!(note, "\n\n[Continuation Error: backend gone]");
    assert!(state.transcript.ends_with("[Continuation Error: backend gone]"));
}

#[test]
fn test_registry_signal_unregistered() {
    let mut registry: CancellationRegistry<String> = CancellationRegistry::new();
    assert!(registry.signal("nobody").is_none());
    assert!(registry.retire("nobody").is_none());
    assert!(!registry.contains("nobody"));
}

#[test]
fn test_registry_last_registration_wins() {
    let mut registry: CancellationRegistry<u64> = CancellationRegistry::new();
    assert!(registry.register("id", 1).is_none());
    let displaced = registry.register("id", 2);
    assert_eq!(displaced, Some(1));
    assert_eq!(registry.signal("id"), Some(2));
    assert!(!registry.contains("id"));
}
