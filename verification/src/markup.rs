//! Scanner for emergent tool-call markup in streamed model text.
//!
//! The model requests a tool by emitting a delimited block whose payload is a
//! JSON object with a `name` and an `arguments` field; tool output is echoed
//! back into the transcript as a delimited response block. The scanner is
//! stateless: it re-reads the whole accumulated text on every call, returns
//! every complete call block in document order, and leaves deduplication to
//! the driver.

use vstd::prelude::*;
use crate::text::{
    spec_find_from, spec_rfind, spec_trim, spec_contains_sub, lemma_find_from_spec,
    lemma_rfind_upto_spec, str_to_chars, chars_to_string, find_sub, rfind_sub, contains_sub,
    trim_chars, copy_range,
};
use crate::json::{spec_parse_call, spec_pretty_json, parse_call_payload, pretty_print_json};

verus! {

/// Opening delimiter of a tool-call block.
pub open spec fn call_open_s() -> Seq<char> {
    "<tool_call>"@
}

/// Closing delimiter of a tool-call block.
pub open spec fn call_close_s() -> Seq<char> {
    "</tool_call>"@
}

/// Opening delimiter of a tool-response block.
pub open spec fn resp_open_s() -> Seq<char> {
    "<tool_response>"@
}

/// Closing delimiter of a tool-response block.
pub open spec fn resp_close_s() -> Seq<char> {
    "</tool_response>"@
}

/// The lengths of the four delimiters.
pub proof fn delim_lengths()
    ensures
        call_open_s().len() == 11,
        call_close_s().len() == 12,
        resp_open_s().len() == 15,
        resp_close_s().len() == 16,
{
    reveal_strlit("<tool_call>");
    reveal_strlit("</tool_call>");
    reveal_strlit("<tool_response>");
    reveal_strlit("</tool_response>");
}

/// One tool invocation extracted from the transcript. Two invocations are the
/// same for deduplication purposes when both the name and the canonical
/// argument string agree.
pub struct ToolCallInvocation {
    pub name: String,
    pub args: String,
}

/// The dedup key of an invocation: its name and canonical argument text.
pub open spec fn inv_view(c: ToolCallInvocation) -> (Seq<char>, Seq<char>) {
    (c.name@, c.args@)
}

/// Every complete, parseable call block of `t` at or after `from`, left to
/// right: for each opening delimiter, the payload runs to the first closing
/// delimiter after it; payloads that `serde_json` rejects are skipped.
pub open spec fn spec_extract_calls(t: Seq<char>, from: int) -> Seq<(Seq<char>, Seq<char>)>
    decreases t.len() - from,
    when 0 <= from
    via spec_extract_calls_decreases
{
    match spec_find_from(t, call_open_s(), from) {
        Some(s) => {
            let cstart = s + call_open_s().len();
            match spec_find_from(t, call_close_s(), cstart) {
                Some(e) => {
                    let payload = t.subrange(cstart, e);
                    let rest = spec_extract_calls(t, e + call_close_s().len() as int);
                    match spec_parse_call(payload) {
                        Some(p) => seq![p] + rest,
                        None => rest,
                    }
                }
                None => Seq::empty(),
            }
        }
        None => Seq::empty(),
    }
}

#[via_fn]
proof fn spec_extract_calls_decreases(t: Seq<char>, from: int) {
    delim_lengths();
    lemma_find_from_spec(t, call_open_s(), from);
    if let Some(s) = spec_find_from(t, call_open_s(), from) {
        lemma_find_from_spec(t, call_close_s(), s + call_open_s().len());
    }
}

/// All complete call blocks in `text`, in document order, one invocation per
/// block whose payload parses as a call; earlier scans of the same text return
/// the same prefix, so the caller deduplicates by `(name, args)`.
pub fn extract_all_tool_calls_from_xml(text: &str) -> (r: Vec<ToolCallInvocation>)
    ensures
        r@.map_values(|c: ToolCallInvocation| inv_view(c)) == spec_extract_calls(text@, 0),
{
    let t = str_to_chars(text);
    let open = str_to_chars("<tool_call>");
    let close = str_to_chars("</tool_call>");
    proof {
        delim_lengths();
    }
    let n = t.len();
    let mut r: Vec<ToolCallInvocation> = Vec::new();
    let mut cur: usize = 0;
    loop
        invariant
            0 <= cur <= n,
            n == t@.len(),
            t@ == text@,
            open@ == call_open_s(),
            close@ == call_close_s(),
            spec_extract_calls(text@, 0) == r@.map_values(|c: ToolCallInvocation| inv_view(c))
                + spec_extract_calls(text@, cur as int),
        decreases n - cur,
    {
        proof {
            delim_lengths();
        }
        let ghost mapped = r@.map_values(|c: ToolCallInvocation| inv_view(c));
        let found_open = find_sub(t.as_slice(), open.as_slice(), cur);
        let s = match found_open {
            None => {
                proof {
                    assert(spec_extract_calls(text@, cur as int) =~= Seq::<(
                        Seq<char>,
                        Seq<char>,
                    )>::empty());
                    assert(mapped + spec_extract_calls(text@, cur as int) =~= mapped);
                }
                return r;
            }
            Some(s) => s,
        };
        proof {
            lemma_find_from_spec(t@, call_open_s(), cur as int);
        }
        let cstart = s + open.len();
        let found_close = find_sub(t.as_slice(), close.as_slice(), cstart);
        let e = match found_close {
            None => {
                proof {
                    assert(spec_extract_calls(text@, cur as int) =~= Seq::<(
                        Seq<char>,
                        Seq<char>,
                    )>::empty());
                    assert(mapped + spec_extract_calls(text@, cur as int) =~= mapped);
                }
                return r;
            }
            Some(e) => e,
        };
        proof {
            lemma_find_from_spec(t@, call_close_s(), cstart as int);
        }
        let payload_chars = copy_range(t.as_slice(), cstart, e);
        let payload = chars_to_string(payload_chars.as_slice());
        let parsed = parse_call_payload(payload.as_str());
        let ghost payload_view = t@.subrange(cstart as int, e as int);
        match parsed {
            Some(p) => {
                let inv = ToolCallInvocation { name: p.0, args: p.1 };
                proof {
                    assert(spec_parse_call(payload_view) matches Some(q) && inv_view(inv) == q);
                }
                r.push(inv);
                proof {
                    assert(r@.map_values(|c: ToolCallInvocation| inv_view(c)) =~= mapped.push(
                        inv_view(inv),
                    ));
                }
            }
            None => {
                proof {
                    assert(spec_parse_call(payload_view) is None);
                }
            }
        }
        cur = e + close.len();
        proof {
            let rest = spec_extract_calls(text@, cur as int);
            match spec_parse_call(payload_view) {
                Some(p) => {
                    assert(mapped + (seq![p] + rest) =~= r@.map_values(
                        |c: ToolCallInvocation| inv_view(c),
                    ) + rest);
                }
                None => {}
            }
        }
    }
}

/// Whether the last opening call delimiter in `t` has no closing delimiter
/// after it: a block was still being streamed when the text ends.
pub open spec fn spec_has_incomplete(t: Seq<char>) -> bool {
    match spec_rfind(t, call_open_s()) {
        Some(s) => spec_find_from(t, call_close_s(), s) is None,
        None => false,
    }
}

/// True when the last opening call delimiter has no matching closing
/// delimiter yet; used only as an end-of-stream diagnostic.
pub fn has_incomplete_tool_call(text: &str) -> (r: bool)
    ensures
        r == spec_has_incomplete(text@),
{
    let t = str_to_chars(text);
    let open = str_to_chars("<tool_call>");
    let close = str_to_chars("</tool_call>");
    proof {
        delim_lengths();
    }
    let found = rfind_sub(t.as_slice(), open.as_slice());
    match found {
        None => false,
        Some(s) => {
            proof {
                delim_lengths();
                if call_open_s().len() <= t@.len() {
                    lemma_rfind_upto_spec(t@, call_open_s(), t@.len() - call_open_s().len());
                }
            }
            let found_close = find_sub(t.as_slice(), close.as_slice(), s);
            found_close.is_none()
        }
    }
}

/// `t` from `from` on, with every complete call and response block removed:
/// prose between and around blocks is kept; an unterminated opening delimiter
/// and everything after it is dropped.
pub open spec fn spec_strip_from(t: Seq<char>, from: int) -> Seq<char>
    decreases t.len() - from,
    when 0 <= from <= t.len()
    via spec_strip_from_decreases
{
    let co = spec_find_from(t, call_open_s(), from);
    let ro = spec_find_from(t, resp_open_s(), from);
    match (co, ro) {
        (Some(c), Some(r0)) => if c <= r0 {
            spec_strip_call(t, from, c)
        } else {
            spec_strip_resp(t, from, r0)
        },
        (Some(c), None) => spec_strip_call(t, from, c),
        (None, Some(r0)) => spec_strip_resp(t, from, r0),
        (None, None) => t.subrange(from, t.len() as int),
    }
}

/// The strip step for a call block opening at `c`.
pub open spec fn spec_strip_call(t: Seq<char>, from: int, c: int) -> Seq<char>
    decreases t.len() - from, 0int,
    when 0 <= from <= c && c + call_open_s().len() <= t.len()
    via spec_strip_call_decreases
{
    match spec_find_from(t, call_close_s(), c + call_open_s().len() as int) {
        Some(e) => t.subrange(from, c) + spec_strip_from(t, e + call_close_s().len() as int),
        None => t.subrange(from, c),
    }
}

/// The strip step for a response block opening at `r0`.
pub open spec fn spec_strip_resp(t: Seq<char>, from: int, r0: int) -> Seq<char>
    decreases t.len() - from, 0int,
    when 0 <= from <= r0 && r0 + resp_open_s().len() <= t.len()
    via spec_strip_resp_decreases
{
    match spec_find_from(t, resp_close_s(), r0 + resp_open_s().len() as int) {
        Some(e) => t.subrange(from, r0) + spec_strip_from(t, e + resp_close_s().len() as int),
        None => t.subrange(from, r0),
    }
}

#[via_fn]
proof fn spec_strip_from_decreases(t: Seq<char>, from: int) {
    delim_lengths();
    lemma_find_from_spec(t, call_open_s(), from);
    lemma_find_from_spec(t, resp_open_s(), from);
}

#[via_fn]
proof fn spec_strip_call_decreases(t: Seq<char>, from: int, c: int) {
    delim_lengths();
    lemma_find_from_spec(t, call_close_s(), c + call_open_s().len());
}

#[via_fn]
proof fn spec_strip_resp_decreases(t: Seq<char>, from: int, r0: int) {
    delim_lengths();
    lemma_find_from_spec(t, resp_close_s(), r0 + resp_open_s().len());
}

/// The transcript with every complete call and response block removed and the
/// result trimmed; used when prior assistant turns are re-presented as
/// history, so the model does not imitate its own past markup.
pub fn strip_tool_xml_tags(content: &str) -> (r: String)
    ensures
        r@ == spec_trim(spec_strip_from(content@, 0)),
{
    let t = str_to_chars(content);
    let call_open = str_to_chars("<tool_call>");
    let call_close = str_to_chars("</tool_call>");
    let resp_open = str_to_chars("<tool_response>");
    let resp_close = str_to_chars("</tool_response>");
    proof {
        delim_lengths();
    }
    let n = t.len();
    let mut acc: Vec<char> = Vec::new();
    let mut cur: usize = 0;
    loop
        invariant_except_break
            spec_strip_from(content@, 0) == acc@ + spec_strip_from(content@, cur as int),
        invariant
            0 <= cur <= n,
            n == t@.len(),
            t@ == content@,
            call_open@ == call_open_s(),
            call_close@ == call_close_s(),
            resp_open@ == resp_open_s(),
            resp_close@ == resp_close_s(),
        ensures
            acc@ == spec_strip_from(content@, 0),
        decreases n - cur,
    {
        proof {
            delim_lengths();
            lemma_find_from_spec(t@, call_open_s(), cur as int);
            lemma_find_from_spec(t@, resp_open_s(), cur as int);
        }
        let ghost old_cur = cur as int;
        let ghost old_acc = acc@;
        let co = find_sub(t.as_slice(), call_open.as_slice(), cur);
        let ro = find_sub(t.as_slice(), resp_open.as_slice(), cur);
        let call_first: bool = match (co, ro) {
            (Some(c), Some(r0)) => c <= r0,
            (Some(_), None) => true,
            _ => false,
        };
        if call_first {
            let c = co.unwrap();
            let cstart = c + call_open.len();
            proof {
                lemma_find_from_spec(t@, call_close_s(), cstart as int);
            }
            let fe = find_sub(t.as_slice(), call_close.as_slice(), cstart);
            let mut piece = copy_range(t.as_slice(), cur, c);
            acc.append(&mut piece);
            match fe {
                Some(e) => {
                    cur = e + call_close.len();
                    proof {
                        assert(spec_strip_from(content@, old_cur) == t@.subrange(old_cur, c as int)
                            + spec_strip_from(content@, cur as int));
                        assert(old_acc + spec_strip_from(content@, old_cur) =~= acc@
                            + spec_strip_from(content@, cur as int));
                    }
                }
                None => {
                    proof {
                        assert(spec_strip_from(content@, old_cur) == t@.subrange(
                            old_cur,
                            c as int,
                        ));
                        assert(acc@ =~= old_acc + spec_strip_from(content@, old_cur));
                    }
                    break;
                }
            }
        } else if let Some(r0) = ro {
            let rstart = r0 + resp_open.len();
            proof {
                lemma_find_from_spec(t@, resp_close_s(), rstart as int);
            }
            let fe = find_sub(t.as_slice(), resp_close.as_slice(), rstart);
            let mut piece = copy_range(t.as_slice(), cur, r0);
            acc.append(&mut piece);
            match fe {
                Some(e) => {
                    cur = e + resp_close.len();
                    proof {
                        assert(spec_strip_from(content@, old_cur) == t@.subrange(
                            old_cur,
                            r0 as int,
                        ) + spec_strip_from(content@, cur as int));
                        assert(old_acc + spec_strip_from(content@, old_cur) =~= acc@
                            + spec_strip_from(content@, cur as int));
                    }
                }
                None => {
                    proof {
                        assert(spec_strip_from(content@, old_cur) == t@.subrange(
                            old_cur,
                            r0 as int,
                        ));
                        assert(acc@ =~= old_acc + spec_strip_from(content@, old_cur));
                    }
                    break;
                }
            }
        } else {
            let mut piece = copy_range(t.as_slice(), cur, n);
            acc.append(&mut piece);
            proof {
                assert(spec_strip_from(content@, old_cur) == t@.subrange(old_cur, n as int));
                assert(acc@ =~= old_acc + spec_strip_from(content@, old_cur));
            }
            break;
        }
    }
    let trimmed = trim_chars(acc.as_slice());
    chars_to_string(trimmed.as_slice())
}

/// The payload of the first complete response block of `t`, trimmed.
pub open spec fn spec_first_response_payload(t: Seq<char>) -> Option<Seq<char>> {
    match spec_find_from(t, resp_open_s(), 0) {
        Some(s) => match spec_find_from(t, resp_close_s(), s + resp_open_s().len() as int) {
            Some(e) => Some(spec_trim(t.subrange(s + resp_open_s().len() as int, e))),
            None => None,
        },
        None => None,
    }
}

/// What the continuation turn shows the model: the first response block's
/// payload, pretty-printed when it is JSON; the whole text when no complete
/// response block exists.
pub open spec fn spec_response_content(t: Seq<char>) -> Seq<char> {
    match spec_first_response_payload(t) {
        Some(c) => match spec_pretty_json(c) {
            Some(p) => p,
            None => c,
        },
        None => t,
    }
}

/// The first response block's payload without its delimiters, pretty-printed
/// when it parses as JSON; the whole text when no complete block is present.
pub fn extract_tool_response_content(text: &str) -> (r: String)
    ensures
        r@ == spec_response_content(text@),
{
    let t = str_to_chars(text);
    let open = str_to_chars("<tool_response>");
    let close = str_to_chars("</tool_response>");
    proof {
        delim_lengths();
    }
    let n = t.len();
    let found = find_sub(t.as_slice(), open.as_slice(), 0);
    if let Some(s) = found {
        proof {
            lemma_find_from_spec(t@, resp_open_s(), 0);
        }
        let cstart = s + open.len();
        let found_close = find_sub(t.as_slice(), close.as_slice(), cstart);
        if let Some(e) = found_close {
            proof {
                lemma_find_from_spec(t@, resp_close_s(), cstart as int);
            }
            let raw = copy_range(t.as_slice(), cstart, e);
            let trimmed = trim_chars(raw.as_slice());
            let content = chars_to_string(trimmed.as_slice());
            let pretty = pretty_print_json(content.as_str());
            return match pretty {
                Some(p) => p,
                None => content,
            };
        }
    }
    chars_to_string(t.as_slice())
}

/// A follow-up interpretive turn is owed exactly when the transcript holds a
/// response block opening: any tool output triggers one, whatever it says.
pub fn check_if_continuation_needed(text: &str) -> (r: bool)
    ensures
        r == spec_contains_sub(text@, resp_open_s()),
{
    let t = str_to_chars(text);
    let open = str_to_chars("<tool_response>");
    proof {
        delim_lengths();
    }
    contains_sub(t.as_slice(), open.as_slice())
}

} // verus!
