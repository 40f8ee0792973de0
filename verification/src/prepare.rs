//! Assembling the outbound request for a turn, and the minimal follow-up
//! request after tool execution.
//!
//! The outbound message list is: the system instructions (with the rendered
//! tool catalogue appended when tools are exposed as markup), the prior turns
//! — assistant turns stripped of markup blocks, a trailing user turn identical
//! to the new message dropped — and the new user message last. The follow-up
//! request is deliberately minimal: a terse system instruction, the most
//! recent user message only, and one assistant message quoting the first tool
//! response, so the model never sees its own markup patterns again.

use vstd::prelude::*;
use vstd::string::*;
use crate::markup::{spec_strip_from, spec_response_content, strip_tool_xml_tags,
    extract_tool_response_content};
use crate::text::{spec_trim, spec_join, seq_views, join_strings};

verus! {

/// One outbound chat message.
pub struct Message {
    pub role: String,
    pub content: String,
}

/// The role and content of a message.
pub open spec fn msg_view(m: Message) -> (Seq<char>, Seq<char>) {
    (m.role@, m.content@)
}

/// The roles and contents of a run of messages.
pub open spec fn msgs_view(v: Seq<Message>) -> Seq<(Seq<char>, Seq<char>)> {
    Seq::new(v.len(), |i: int| msg_view(v[i]))
}

/// How the tool catalogue reaches the backend: rendered into the system
/// instructions as markup the model is asked to imitate, or passed as the
/// request's structured tool list.
#[derive(Clone, Copy)]
pub enum ToolingMode {
    MarkupEmbedded,
    StructuredToolCalls,
}

/// One tool as presented to the model: its name, its parameter schema already
/// serialized, and its description.
pub struct ToolCatalogueEntry {
    pub name: String,
    pub params: String,
    pub description: String,
}

/// Input to a single driven turn; immutable once handed to the driver.
pub struct ChatTurnRequest {
    /// Target model identifier.
    pub model: String,
    /// The new user message.
    pub message: String,
    /// Prior turns, oldest first.
    pub history: Vec<Message>,
    /// Whether the prior turns are replayed into the request.
    pub include_history: bool,
    /// System instructions; a default is used when absent.
    pub system_prompt: Option<String>,
    /// Sampling temperature in thousandths; 700 when absent.
    pub temperature_milli: Option<u32>,
    /// Nucleus sampling bound in thousandths; 1000 when absent.
    pub top_p_milli: Option<u32>,
    /// Sampling seed, passed through when present.
    pub seed: Option<i64>,
    /// Completion budget; at least 100 is always requested.
    pub max_tokens: Option<u32>,
    /// Upper completion bound, passed through when present.
    pub max_completion_tokens: Option<u32>,
    /// Identifier under which the turn registers for cancellation.
    pub stream_id: String,
    /// How tools are exposed to the backend.
    pub mode: ToolingMode,
}

/// The request as handed to the backend client.
pub struct PreparedRequest {
    pub model: String,
    pub messages: Vec<Message>,
    pub temperature_milli: u32,
    pub top_p_milli: u32,
    pub seed: Option<i64>,
    pub max_tokens: u32,
    pub max_completion_tokens: Option<u32>,
    /// Usage statistics are always requested with the stream.
    pub include_usage: bool,
    /// Whether the caller attaches the catalogue as a structured tool list.
    pub structured_tools: bool,
}

/// One rendered catalogue line: `name(params) - description`.
pub open spec fn spec_tool_desc(e: ToolCatalogueEntry) -> Seq<char> {
    e.name@ + "("@ + e.params@ + ") - "@ + e.description@
}

/// The rendered catalogue lines of a run of entries.
pub open spec fn catalogue_descs(v: Seq<ToolCatalogueEntry>) -> Seq<Seq<char>> {
    Seq::new(v.len(), |i: int| spec_tool_desc(v[i]))
}

/// The catalogue text appended to the system instructions: empty without
/// tools, otherwise the instruction template around the joined tool lines.
pub open spec fn spec_catalogue(v: Seq<ToolCatalogueEntry>) -> Seq<char> {
    if v.len() == 0 {
        Seq::empty()
    } else {
        "\n\n# Tools\n\nYou may call one or more functions to assist with the user query.\n\nYou are provided with function signatures within <tools></tools> XML tags:\n<tools>\n"@
            + spec_join(catalogue_descs(v), "\n"@)
            + "\n</tools>\n\nFor each function call, return a json object with function name and arguments within <tool_call></tool_call> XML tags:\n<tool_call>\n{\"name\": <function-name>, \"arguments\": <args-json-object>}\n</tool_call>"@
    }
}

/// Renders the tool catalogue for the system instructions.
pub fn render_tool_catalogue(entries: &Vec<ToolCatalogueEntry>) -> (r: String)
    ensures
        r@ == spec_catalogue(entries@),
{
    if entries.len() == 0 {
        return String::new();
    }
    let ghost descs = catalogue_descs(entries@);
    let mut parts: Vec<String> = Vec::new();
    let mut i: usize = 0;
    while i < entries.len()
        invariant
            0 <= i <= entries@.len(),
            descs == catalogue_descs(entries@),
            descs.len() == entries@.len(),
            parts@.len() == i as int,
            seq_views(parts@) =~= descs.take(i as int),
        decreases entries@.len() - i,
    {
        let mut d = entries[i].name.clone();
        d.append("(");
        d.append(entries[i].params.as_str());
        d.append(") - ");
        d.append(entries[i].description.as_str());
        proof {
            assert(d@ =~= spec_tool_desc(entries@[i as int]));
        }
        let ghost pre = parts@;
        parts.push(d);
        proof {
            assert forall|j: int| 0 <= j < i implies #[trigger] seq_views(parts@)[j]
                == descs[j] by {
                assert(parts@[j] == pre[j]);
                assert(seq_views(pre)[j] == pre[j]@);
                assert(seq_views(pre)[j] == descs.take(i as int)[j]);
                assert(seq_views(parts@)[j] == parts@[j]@);
            }
            assert(seq_views(parts@)[i as int] == descs[i as int]);
            assert(seq_views(parts@) =~= descs.take(i + 1));
        }
        i = i + 1;
    }
    proof {
        assert(descs.take(entries@.len() as int) =~= descs);
    }
    let joined = join_strings(&parts, "\n");
    let mut r = String::from_str(
        "\n\n# Tools\n\nYou may call one or more functions to assist with the user query.\n\nYou are provided with function signatures within <tools></tools> XML tags:\n<tools>\n",
    );
    r.append(joined.as_str());
    r.append(
        "\n</tools>\n\nFor each function call, return a json object with function name and arguments within <tool_call></tool_call> XML tags:\n<tool_call>\n{\"name\": <function-name>, \"arguments\": <args-json-object>}\n</tool_call>",
    );
    proof {
        assert(r@ =~= spec_catalogue(entries@));
    }
    r
}

/// The default system instructions used when the caller supplies none.
pub open spec fn spec_default_system_prompt() -> Seq<char> {
    "You are a helpful AI assistant with access to various functions/tools.\n\n        Tool Usage Guidelines:\n        - Use tools ONLY when they are necessary to answer the user's question\n        - For simple greetings, general questions, or conversations, respond naturally WITHOUT using tools\n        - Only call a tool if the user's request specifically requires information or actions that the tool provides\n        - Examples of when NOT to use tools: greetings (hello, hi), general chat, opinions, explanations\n        - Examples of when to use tools: getting current time, converting units, fetching specific data\n        \n        When a tool would be helpful, use it. Otherwise, respond conversationally."@
}

/// The default system instructions used when the caller supplies none.
pub fn default_system_prompt() -> (r: String)
    ensures
        r@ == spec_default_system_prompt(),
{
    String::from_str(
        "You are a helpful AI assistant with access to various functions/tools.\n\n        Tool Usage Guidelines:\n        - Use tools ONLY when they are necessary to answer the user's question\n        - For simple greetings, general questions, or conversations, respond naturally WITHOUT using tools\n        - Only call a tool if the user's request specifically requires information or actions that the tool provides\n        - Examples of when NOT to use tools: greetings (hello, hi), general chat, opinions, explanations\n        - Examples of when to use tools: getting current time, converting units, fetching specific data\n        \n        When a tool would be helpful, use it. Otherwise, respond conversationally.",
    )
}

/// The system instructions sent for a turn: the base prompt, with the rendered
/// catalogue appended when tools are exposed as markup.
pub open spec fn spec_system_message(
    base: Seq<char>,
    entries: Seq<ToolCatalogueEntry>,
    mode: ToolingMode,
) -> Seq<char> {
    match mode {
        ToolingMode::MarkupEmbedded => base + spec_catalogue(entries),
        ToolingMode::StructuredToolCalls => base,
    }
}

/// The base system instructions of a request.
pub open spec fn spec_base_system(p: Option<String>) -> Seq<char> {
    match p {
        Some(s) => s@,
        None => spec_default_system_prompt(),
    }
}

/// The history with a trailing user turn identical to the new message dropped,
/// so the message is not echoed twice.
pub open spec fn spec_dedup_tail(h: Seq<Message>, current: Seq<char>) -> Seq<Message> {
    if h.len() > 0 && h.last().role@ == "user"@ && h.last().content@ == current {
        h.drop_last()
    } else {
        h
    }
}

/// The replayed history: user turns kept as they are; assistant turns with
/// markup blocks stripped, and dropped entirely when nothing remains; turns
/// with any other role dropped.
pub open spec fn spec_history_filtered(h: Seq<Message>) -> Seq<(Seq<char>, Seq<char>)>
    decreases h.len(),
{
    if h.len() == 0 {
        Seq::empty()
    } else {
        let prior = spec_history_filtered(h.drop_last());
        let m = h.last();
        if m.role@ == "user"@ {
            prior.push(("user"@, m.content@))
        } else if m.role@ == "assistant"@ {
            let stripped = spec_trim(spec_strip_from(m.content@, 0));
            if stripped.len() == 0 {
                prior
            } else {
                prior.push(("assistant"@, stripped))
            }
        } else {
            prior
        }
    }
}

/// The full outbound message list: system instructions, the filtered history,
/// and the new user message last.
pub open spec fn spec_prepared_messages(
    system: Seq<char>,
    h: Seq<Message>,
    current: Seq<char>,
) -> Seq<(Seq<char>, Seq<char>)> {
    seq![("system"@, system)] + spec_history_filtered(spec_dedup_tail(h, current)) + seq![
        ("user"@, current),
    ]
}

/// Whether a message's role reads exactly `expected`.
fn role_is(role: &String, expected: &str) -> (r: bool)
    ensures
        r == (role@ == expected@),
{
    let e: String = expected.to_owned();
    *role == e
}

/// Builds the outbound message list for a turn.
pub fn prepare_messages(
    system_message: String,
    history: &Vec<Message>,
    include_history: bool,
    message: &str,
) -> (r: Vec<Message>)
    ensures
        msgs_view(r@) == spec_prepared_messages(
            system_message@,
            if include_history {
                history@
            } else {
                Seq::<Message>::empty()
            },
            message@,
        ),
{
    let ghost system_view = system_message@;
    let current: String = message.to_owned();
    let mut r: Vec<Message> = Vec::new();
    r.push(Message { role: String::from_str("system"), content: system_message });
    let ghost head = msgs_view(r@);
    proof {
        assert(head =~= seq![("system"@, system_view)]);
    }
    if include_history {
        let mut upto = history.len();
        if upto > 0 && role_is(&history[upto - 1].role, "user") && history[upto - 1].content
            == current {
            upto = upto - 1;
        }
        proof {
            assert(history@.take(upto as int) =~= spec_dedup_tail(history@, message@));
        }
        let ghost kept = history@.take(upto as int);
        let mut i: usize = 0;
        while i < upto
            invariant
                0 <= i <= upto <= history@.len(),
                kept == history@.take(upto as int),
                msgs_view(r@) =~= head + spec_history_filtered(kept.take(i as int)),
                head == seq![(("system"@), system_view)],
            decreases upto - i,
        {
            let ghost pre = r@;
            proof {
                assert(kept.take(i + 1).drop_last() =~= kept.take(i as int));
                assert(kept.take(i + 1).last() == history@[i as int]);
            }
            if role_is(&history[i].role, "user") {
                let m = Message {
                    role: String::from_str("user"),
                    content: history[i].content.clone(),
                };
                r.push(m);
                proof {
                    lemma_msgs_view_push(pre, r@, head + spec_history_filtered(
                        kept.take(i as int),
                    ));
                    assert(msgs_view(r@) =~= head + spec_history_filtered(kept.take(i + 1)));
                }
            } else if role_is(&history[i].role, "assistant") {
                let stripped = strip_tool_xml_tags(history[i].content.as_str());
                if !stripped.as_str().is_empty() {
                    let m = Message { role: String::from_str("assistant"), content: stripped };
                    r.push(m);
                    proof {
                        lemma_msgs_view_push(pre, r@, head + spec_history_filtered(
                            kept.take(i as int),
                        ));
                        assert(msgs_view(r@) =~= head + spec_history_filtered(kept.take(i + 1)));
                    }
                } else {
                    proof {
                        assert(msgs_view(r@) =~= head + spec_history_filtered(kept.take(i + 1)));
                    }
                }
            } else {
                proof {
                    assert(msgs_view(r@) =~= head + spec_history_filtered(kept.take(i + 1)));
                }
            }
            i = i + 1;
        }
        proof {
            assert(kept.take(upto as int) =~= kept);
        }
    }
    let ghost before_user = r@;
    r.push(Message { role: String::from_str("user"), content: current });
    proof {
        lemma_msgs_view_push(before_user, r@, msgs_view(before_user));
        if include_history {
            assert(msgs_view(r@) =~= spec_prepared_messages(system_view, history@, message@));
        } else {
            assert(msgs_view(r@) =~= spec_prepared_messages(
                system_view,
                Seq::<Message>::empty(),
                message@,
            ));
            assert(spec_history_filtered(spec_dedup_tail(Seq::<Message>::empty(), message@))
                =~= Seq::<(Seq<char>, Seq<char>)>::empty());
        }
    }
    r
}

/// Pushing a message extends the viewed list by its view.
proof fn lemma_msgs_view_push(pre: Seq<Message>, post: Seq<Message>, pre_view: Seq<(Seq<char>, Seq<char>)>)
    requires
        post == pre.push(post.last()),
        post.len() == pre.len() + 1,
        msgs_view(pre) == pre_view,
    ensures
        msgs_view(post) =~= pre_view.push(msg_view(post.last())),
{
    assert forall|j: int| 0 <= j < pre.len() implies #[trigger] msgs_view(post)[j]
        == pre_view[j] by {
        assert(post[j] == pre[j]);
        assert(msgs_view(pre)[j] == msg_view(pre[j]));
        assert(msgs_view(post)[j] == msg_view(post[j]));
    }
    assert(msgs_view(post)[pre.len() as int] == msg_view(post.last()));
}

/// The `max_tokens` actually requested: the caller's value or 1000, raised to
/// at least 100 so a tool call is never cut short.
pub open spec fn spec_effective_max_tokens(v: Option<u32>) -> u32 {
    let raw = match v {
        Some(x) => x,
        None => 1000u32,
    };
    if raw < 100 {
        100u32
    } else {
        raw
    }
}

/// Assembles the outbound request: system instructions (catalogue included
/// per the tooling mode), deduplicated and filtered history, the new user
/// message, and the sampling parameters with their defaults.
pub fn prepare_request(req: &ChatTurnRequest, catalogue: &Vec<ToolCatalogueEntry>) -> (r:
    PreparedRequest)
    ensures
        r.model@ == req.model@,
        msgs_view(r.messages@) == spec_prepared_messages(
            spec_system_message(spec_base_system(req.system_prompt), catalogue@, req.mode),
            if req.include_history {
                req.history@
            } else {
                Seq::<Message>::empty()
            },
            req.message@,
        ),
        r.temperature_milli == (match req.temperature_milli {
            Some(v) => v,
            None => 700u32,
        }),
        r.top_p_milli == (match req.top_p_milli {
            Some(v) => v,
            None => 1000u32,
        }),
        r.seed == req.seed,
        r.max_tokens == spec_effective_max_tokens(req.max_tokens),
        r.max_completion_tokens == req.max_completion_tokens,
        r.include_usage,
        r.structured_tools == (req.mode is StructuredToolCalls),
{
    let base = match &req.system_prompt {
        Some(s) => s.clone(),
        None => default_system_prompt(),
    };
    let (system_message, structured_tools): (String, bool) = match req.mode {
        ToolingMode::MarkupEmbedded => {
            let mut s = base;
            let catalogue_text = render_tool_catalogue(catalogue);
            s.append(catalogue_text.as_str());
            (s, false)
        }
        ToolingMode::StructuredToolCalls => (base, true),
    };
    let messages = prepare_messages(system_message, &req.history, req.include_history,
        req.message.as_str());
    let temperature_milli = match req.temperature_milli {
        Some(v) => v,
        None => 700,
    };
    let top_p_milli = match req.top_p_milli {
        Some(v) => v,
        None => 1000,
    };
    let raw_max = match req.max_tokens {
        Some(v) => v,
        None => 1000,
    };
    let max_tokens = if raw_max < 100 {
        100
    } else {
        raw_max
    };
    PreparedRequest {
        model: req.model.clone(),
        messages,
        temperature_milli,
        top_p_milli,
        seed: req.seed,
        max_tokens,
        max_completion_tokens: req.max_completion_tokens,
        include_usage: true,
        structured_tools,
    }
}

/// The terse system instruction of the follow-up turn.
pub open spec fn spec_continuation_system() -> Seq<char> {
    "You are a helpful AI assistant. A tool has just been executed and returned results. Your task is to interpret the JSON results and provide a clear, natural language response to the user.\n\nCRITICAL: Respond ONLY with plain text. Do NOT use any XML tags like <tool_call> or <tool_response>. Do NOT wrap your response in any special formatting. Just provide a natural, conversational answer."@
}

/// The content of the most recent user turn, if any.
pub open spec fn spec_last_user_content(prev: Seq<Message>) -> Option<Seq<char>>
    decreases prev.len(),
{
    if prev.len() == 0 {
        None
    } else if prev.last().role@ == "user"@ {
        Some(prev.last().content@)
    } else {
        spec_last_user_content(prev.drop_last())
    }
}

/// The follow-up request's message list: the terse system instruction, the
/// most recent user message when one exists, and one assistant message quoting
/// the first tool response.
pub open spec fn spec_continuation_messages(prev: Seq<Message>, transcript: Seq<char>) -> Seq<
    (Seq<char>, Seq<char>),
> {
    let lead = seq![("system"@, spec_continuation_system())];
    let with_user = match spec_last_user_content(prev) {
        Some(u) => lead.push(("user"@, u)),
        None => lead,
    };
    with_user.push(
        ("assistant"@, "I called a tool and received this result:\n"@ + spec_response_content(
            transcript,
        )),
    )
}

/// Builds the follow-up request's message list from the primary request's
/// messages and the finished transcript.
pub fn build_continuation_messages(previous: &Vec<Message>, transcript: &str) -> (r: Vec<Message>)
    ensures
        msgs_view(r@) == spec_continuation_messages(previous@, transcript@),
{
    let mut r: Vec<Message> = Vec::new();
    r.push(
        Message {
            role: String::from_str("system"),
            content: String::from_str(
                "You are a helpful AI assistant. A tool has just been executed and returned results. Your task is to interpret the JSON results and provide a clear, natural language response to the user.\n\nCRITICAL: Respond ONLY with plain text. Do NOT use any XML tags like <tool_call> or <tool_response>. Do NOT wrap your response in any special formatting. Just provide a natural, conversational answer.",
            ),
        },
    );
    let ghost lead = msgs_view(r@);
    proof {
        assert(lead =~= seq![(("system"@), spec_continuation_system())]);
    }
    let mut i = previous.len();
    let mut last_user: Option<String> = None;
    proof {
        assert(previous@.take(previous@.len() as int) =~= previous@);
    }
    loop
        invariant_except_break
            last_user is None,
            0 <= i <= previous@.len(),
            spec_last_user_content(previous@) == spec_last_user_content(
                previous@.take(i as int),
            ),
        ensures
            match last_user {
                Some(u) => spec_last_user_content(previous@) matches Some(v) && u@ == v,
                None => spec_last_user_content(previous@) is None,
            },
        decreases i,
    {
        if i == 0 {
            proof {
                assert(previous@.take(0) =~= Seq::<Message>::empty());
            }
            break;
        }
        proof {
            assert(previous@.take(i as int).drop_last() =~= previous@.take(i - 1));
            assert(previous@.take(i as int).last() == previous@[i - 1]);
        }
        if role_is(&previous[i - 1].role, "user") {
            last_user = Some(previous[i - 1].content.clone());
            break;
        }
        i = i - 1;
    }
    let ghost before = msgs_view(r@);
    match last_user {
        Some(u) => {
            let ghost pre = r@;
            r.push(Message { role: String::from_str("user"), content: u });
            proof {
                lemma_msgs_view_push(pre, r@, before);
            }
        }
        None => {}
    }
    let mut quoted = String::from_str("I called a tool and received this result:\n");
    let content = extract_tool_response_content(transcript);
    quoted.append(content.as_str());
    let ghost pre2 = r@;
    let ghost mid = msgs_view(r@);
    r.push(Message { role: String::from_str("assistant"), content: quoted });
    proof {
        lemma_msgs_view_push(pre2, r@, mid);
        assert(msgs_view(r@) =~= spec_continuation_messages(previous@, transcript@));
    }
    r
}

/// The system prompt of a retrieval-augmented turn: the base prompt, and when
/// any context was retrieved, the context wrapped in instructions for using
/// it.
pub open spec fn spec_rag_system_prompt(base: Option<String>, context: Seq<char>) -> Seq<char> {
    let b = match base {
        Some(s) => s@,
        None => "You're an AI assistant that provides helpful responses."@,
    };
    if context.len() == 0 {
        b
    } else {
        b + "\n\nRelevant context from documents:\n"@ + context
            + "\n\nUse this context to answer the user's question when relevant. If the context doesn't contain relevant information, answer based on your general knowledge."@
    }
}

/// Builds the system prompt of a retrieval-augmented turn; retrieval failures
/// are the caller's to swallow (it passes an empty context and the turn
/// proceeds unaugmented).
pub fn build_rag_system_prompt(system_prompt: &Option<String>, context: &str) -> (r: String)
    ensures
        r@ == spec_rag_system_prompt(*system_prompt, context@),
{
    let base = match system_prompt {
        Some(s) => s.clone(),
        None => String::from_str("You're an AI assistant that provides helpful responses."),
    };
    if context.is_empty() {
        base
    } else {
        let mut r = base;
        r.append("\n\nRelevant context from documents:\n");
        r.append(context);
        r.append(
            "\n\nUse this context to answer the user's question when relevant. If the context doesn't contain relevant information, answer based on your general knowledge.",
        );
        proof {
            assert(r@ =~= spec_rag_system_prompt(*system_prompt, context@));
        }
        r
    }
}

} // verus!
