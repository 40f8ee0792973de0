//! The per-turn state machine.
//!
//! One turn owns a `TurnState`: the append-only transcript accumulator, the
//! set of already-executed tool invocations, the captured usage statistics,
//! and the exit flags. The caller races the backend stream against the
//! cancellation receiver and feeds what it observes into the transitions here;
//! every decision — which tool calls are new, what a tool outcome appends,
//! whether a follow-up turn is owed, what the terminal event carries — is made
//! by this module.
//!
//! A state is *streaming* while no exit flag is set. Content can only be
//! processed in a streaming state, so once a cancellation is observed no
//! further token can extend the transcript; exactly one of the three exit
//! flags is set when the machine stops.

use vstd::prelude::*;
use vstd::string::*;
use crate::markup::{
    ToolCallInvocation, inv_view, spec_extract_calls, extract_all_tool_calls_from_xml,
    resp_open_s, check_if_continuation_needed,
};
use crate::text::spec_contains_sub;

verus! {

/// Token counts reported by the backend, at most once per stream.
pub struct UsageStats {
    pub prompt_tokens: u32,
    pub completion_tokens: u32,
    pub total_tokens: u32,
}

/// The dedup keys of a run of invocations, in order.
pub open spec fn keys_of(v: Seq<ToolCallInvocation>) -> Seq<(Seq<char>, Seq<char>)> {
    v.map_values(|c: ToolCallInvocation| inv_view(c))
}

/// Splits a scan result against an executed set: the first component lists, in
/// document order and without repetition, the scanned keys not yet executed;
/// the second is the executed set extended by them.
pub open spec fn spec_absorb(
    calls: Seq<(Seq<char>, Seq<char>)>,
    executed: Seq<(Seq<char>, Seq<char>)>,
) -> (Seq<(Seq<char>, Seq<char>)>, Seq<(Seq<char>, Seq<char>)>)
    decreases calls.len(),
{
    if calls.len() == 0 {
        (Seq::empty(), executed)
    } else {
        let prior = spec_absorb(calls.drop_last(), executed);
        let c = calls.last();
        if prior.1.contains(c) {
            prior
        } else {
            (prior.0.push(c), prior.1.push(c))
        }
    }
}

/// The executed set after absorbing is the old set followed by the new calls.
pub proof fn lemma_absorb_extends(
    calls: Seq<(Seq<char>, Seq<char>)>,
    executed: Seq<(Seq<char>, Seq<char>)>,
)
    ensures
        spec_absorb(calls, executed).1 =~= executed + spec_absorb(calls, executed).0,
    decreases calls.len(),
{
    if calls.len() == 0 {
        assert(spec_absorb(calls, executed).1 =~= executed + Seq::empty());
    } else {
        lemma_absorb_extends(calls.drop_last(), executed);
        let prior = spec_absorb(calls.drop_last(), executed);
        let c = calls.last();
        if !prior.1.contains(c) {
            assert(prior.1.push(c) =~= executed + prior.0.push(c));
        }
    }
}

/// Dedup: a key reported as new was never executed before, and it came from
/// the scan.
pub proof fn lemma_absorb_new(
    calls: Seq<(Seq<char>, Seq<char>)>,
    executed: Seq<(Seq<char>, Seq<char>)>,
)
    ensures
        forall|k: (Seq<char>, Seq<char>)|
            spec_absorb(calls, executed).0.contains(k) ==> !executed.contains(k)
                && calls.contains(k),
    decreases calls.len(),
{
    if calls.len() > 0 {
        lemma_absorb_new(calls.drop_last(), executed);
        lemma_absorb_extends(calls.drop_last(), executed);
        let prior = spec_absorb(calls.drop_last(), executed);
        let c = calls.last();
        assert forall|k: (Seq<char>, Seq<char>)|
            spec_absorb(calls, executed).0.contains(k) implies !executed.contains(k)
            && calls.contains(k) by {
            let a = spec_absorb(calls, executed).0;
            let i = choose|i: int| 0 <= i < a.len() && a[i] == k;
            if i < prior.0.len() {
                assert(prior.0[i] == k);
                assert(prior.0.contains(k));
                assert(!executed.contains(k) && calls.drop_last().contains(k));
                let j = choose|j: int| 0 <= j < calls.drop_last().len() && calls.drop_last()[j]
                    == k;
                assert(calls[j] == k);
                assert(calls.contains(k));
            } else {
                assert(!prior.1.contains(c));
                assert(k == c);
                if executed.contains(k) {
                    let j = choose|j: int| 0 <= j < executed.len() && executed[j] == k;
                    assert((executed + prior.0)[j] == k);
                    assert(prior.1.contains(k));
                }
                assert(calls[calls.len() - 1] == k);
                assert(calls.contains(k));
            }
        }
    }
}

/// Dedup: the new calls of one absorption are pairwise distinct.
pub proof fn lemma_absorb_distinct(
    calls: Seq<(Seq<char>, Seq<char>)>,
    executed: Seq<(Seq<char>, Seq<char>)>,
)
    ensures
        forall|i: int, j: int|
            0 <= i < j < spec_absorb(calls, executed).0.len()
                ==> spec_absorb(calls, executed).0[i] != spec_absorb(calls, executed).0[j],
    decreases calls.len(),
{
    if calls.len() > 0 {
        lemma_absorb_distinct(calls.drop_last(), executed);
        lemma_absorb_extends(calls.drop_last(), executed);
        let prior = spec_absorb(calls.drop_last(), executed);
        let c = calls.last();
        if !prior.1.contains(c) {
            assert forall|i: int, j: int|
                0 <= i < j < prior.0.push(c).len() implies prior.0.push(c)[i] != prior.0.push(
                c,
            )[j] by {
                if j == prior.0.len() {
                    assert(prior.0.contains(prior.0[i]));
                    assert((executed + prior.0).contains(prior.0[i])) by {
                        assert((executed + prior.0)[executed.len() + i] == prior.0[i]);
                    }
                }
            }
        }
    }
}

/// Dedup across rescans: what one content arrival reported as new, a later
/// arrival never reports again, so no `(name, args)` pair is executed twice
/// within a turn.
pub proof fn lemma_rescan_no_reexecution(
    calls1: Seq<(Seq<char>, Seq<char>)>,
    executed0: Seq<(Seq<char>, Seq<char>)>,
    calls2: Seq<(Seq<char>, Seq<char>)>,
)
    ensures
        forall|k: (Seq<char>, Seq<char>)|
            spec_absorb(calls1, executed0).0.contains(k) ==> !spec_absorb(
                calls2,
                spec_absorb(calls1, executed0).1,
            ).0.contains(k),
{
    let n1 = spec_absorb(calls1, executed0).0;
    let e1 = spec_absorb(calls1, executed0).1;
    let n2 = spec_absorb(calls2, e1).0;
    lemma_absorb_extends(calls1, executed0);
    lemma_absorb_new(calls2, e1);
    assert forall|k: (Seq<char>, Seq<char>)| n1.contains(k) implies !n2.contains(k) by {
        assert(e1.contains(k)) by {
            let i = choose|i: int| 0 <= i < n1.len() && n1[i] == k;
            assert((executed0 + n1)[executed0.len() + i] == k);
        }
    }
}

/// State of one chat turn.
pub struct TurnState {
    /// Everything streamed or appended so far; append-only for the whole turn.
    pub transcript: String,
    /// Every invocation handed out for execution, by dedup key, in order.
    pub executed: Vec<ToolCallInvocation>,
    /// Usage statistics, once the backend has reported them.
    pub usage: Option<UsageStats>,
    /// Whether some tool ran, so a follow-up interpretive turn may be owed.
    pub needs_continuation: bool,
    /// Whether the follow-up turn already ran: it runs at most once.
    pub continuation_done: bool,
    /// Exit flag: the cancel signal was observed.
    pub cancelled: bool,
    /// Exit flag: the backend reported a stream error.
    pub errored: bool,
    /// Exit flag: the backend stream ended on its own.
    pub finished: bool,
}

/// A turn is streaming while no exit flag is set.
pub open spec fn spec_streaming(s: TurnState) -> bool {
    !s.cancelled && !s.errored && !s.finished
}

/// Exactly one exit flag is set.
pub open spec fn spec_one_exit(s: TurnState) -> bool {
    &&& (s.cancelled || s.errored || s.finished)
    &&& !(s.cancelled && s.errored)
    &&& !(s.cancelled && s.finished)
    &&& !(s.errored && s.finished)
}

impl TurnState {
    /// A fresh turn: empty transcript, nothing executed, still streaming.
    pub fn new_turn() -> (r: TurnState)
        ensures
            r.transcript@ == Seq::<char>::empty(),
            r.executed@ == Seq::<ToolCallInvocation>::empty(),
            r.usage is None,
            !r.needs_continuation,
            !r.continuation_done,
            spec_streaming(r),
    {
        TurnState {
            transcript: String::new(),
            executed: Vec::new(),
            usage: None,
            needs_continuation: false,
            continuation_done: false,
            cancelled: false,
            errored: false,
            finished: false,
        }
    }

    /// The cancel signal was observed at the race point: stop at once. No
    /// further content can be processed afterwards, since every content
    /// transition requires a streaming state.
    pub fn on_cancel(&mut self)
        requires
            spec_streaming(*old(self)),
        ensures
            *final(self) == (TurnState { cancelled: true, ..*old(self) }),
            spec_one_exit(*final(self)),
    {
        self.cancelled = true;
    }

    /// The backend stream ended on its own.
    pub fn on_stream_end(&mut self)
        requires
            spec_streaming(*old(self)),
        ensures
            *final(self) == (TurnState { finished: true, ..*old(self) }),
            spec_one_exit(*final(self)),
    {
        self.finished = true;
    }

    /// The backend reported a stream error: the turn stops early, neither
    /// cancelled nor naturally finished, and never enters continuation.
    pub fn on_stream_error(&mut self)
        requires
            spec_streaming(*old(self)),
        ensures
            *final(self) == (TurnState { errored: true, ..*old(self) }),
            spec_one_exit(*final(self)),
    {
        self.errored = true;
    }

    /// The backend reported usage statistics: record them, overwriting any
    /// earlier report; only one is expected.
    pub fn on_usage(&mut self, prompt_tokens: u32, completion_tokens: u32, total_tokens: u32)
        requires
            spec_streaming(*old(self)),
        ensures
            *final(self) == (TurnState {
                usage: Some(
                    UsageStats { prompt_tokens, completion_tokens, total_tokens },
                ),
                ..*old(self)
            }),
    {
        self.usage = Some(UsageStats { prompt_tokens, completion_tokens, total_tokens });
    }

    /// A content fragment arrived: append it to the transcript (the caller has
    /// already emitted it raw), rescan the whole accumulator, and hand back
    /// the invocations that are new under the `(name, args)` key — each is
    /// recorded as executed before it is returned, so no key is ever returned
    /// twice in one turn.
    pub fn on_content(&mut self, text: &str) -> (new_calls: Vec<ToolCallInvocation>)
        requires
            spec_streaming(*old(self)),
        ensures
            final(self).transcript@ == old(self).transcript@ + text@,
            keys_of(new_calls@) == spec_absorb(
                spec_extract_calls(old(self).transcript@ + text@, 0),
                keys_of(old(self).executed@),
            ).0,
            keys_of(final(self).executed@) == spec_absorb(
                spec_extract_calls(old(self).transcript@ + text@, 0),
                keys_of(old(self).executed@),
            ).1,
            final(self).usage == old(self).usage,
            final(self).needs_continuation == old(self).needs_continuation,
            final(self).continuation_done == old(self).continuation_done,
            spec_streaming(*final(self)),
    {
        self.transcript.append(text);
        let extracted = extract_all_tool_calls_from_xml(self.transcript.as_str());
        let ghost calls = spec_extract_calls(old(self).transcript@ + text@, 0);
        let ghost executed0 = keys_of(old(self).executed@);
        proof {
            assert(keys_of(extracted@) == calls);
        }
        let mut new_calls: Vec<ToolCallInvocation> = Vec::new();
        let mut i: usize = 0;
        while i < extracted.len()
            invariant
                0 <= i <= extracted@.len(),
                keys_of(extracted@) == calls,
                executed0 == keys_of(old(self).executed@),
                self.transcript@ == old(self).transcript@ + text@,
                keys_of(new_calls@) == spec_absorb(calls.take(i as int), executed0).0,
                keys_of(self.executed@) == spec_absorb(calls.take(i as int), executed0).1,
                self.usage == old(self).usage,
                self.needs_continuation == old(self).needs_continuation,
                self.continuation_done == old(self).continuation_done,
                self.cancelled == old(self).cancelled,
                self.errored == old(self).errored,
                self.finished == old(self).finished,
            decreases extracted@.len() - i,
        {
            proof {
                assert(calls.take(i + 1).drop_last() =~= calls.take(i as int));
                assert(calls.take(i + 1).last() == inv_view(extracted@[i as int]));
            }
            let candidate = &extracted[i];
            let already = contains_key(&self.executed, candidate);
            if !already {
                let copy_for_caller = dup_invocation(candidate);
                let copy_for_record = dup_invocation(candidate);
                new_calls.push(copy_for_caller);
                self.executed.push(copy_for_record);
                proof {
                    assert(keys_of(new_calls@) =~= spec_absorb(calls.take(i + 1), executed0).0);
                    assert(keys_of(self.executed@) =~= spec_absorb(calls.take(i + 1), executed0).1);
                }
            }
            i = i + 1;
        }
        proof {
            assert(calls.take(extracted@.len() as int) =~= calls);
        }
        new_calls
    }

    /// A tool outcome arrived: append it as a response block (the error text
    /// of a failed execution is shown to the model the same way), mark that a
    /// follow-up turn may be owed, and hand back the appended text so the
    /// caller can emit it as streamed content.
    pub fn on_tool_outcome(&mut self, ok: bool, payload: &str) -> (emitted: String)
        requires
            spec_streaming(*old(self)),
        ensures
            emitted@ == spec_tool_response_block(ok, payload@),
            final(self).transcript@ == old(self).transcript@ + emitted@,
            *final(self) == (TurnState {
                transcript: final(self).transcript,
                needs_continuation: true,
                ..*old(self)
            }),
            spec_streaming(*final(self)),
    {
        let emitted = build_tool_response_block(ok, payload);
        self.transcript.append(emitted.as_str());
        self.needs_continuation = true;
        emitted
    }

    /// Whether the stream ended inside an unterminated call block; a warning
    /// for diagnostics only, the turn still completes.
    pub fn incomplete_call_pending(&self) -> (r: bool)
        ensures
            r == crate::markup::spec_has_incomplete(self.transcript@),
    {
        crate::markup::has_incomplete_tool_call(self.transcript.as_str())
    }

    /// Whether a follow-up interpretive turn must run now: the turn finished
    /// naturally, some tool ran, the transcript shows a response block, and no
    /// follow-up ran yet.
    pub fn continuation_required(&self) -> (r: bool)
        ensures
            r == (self.finished && self.needs_continuation && !self.continuation_done
                && spec_contains_sub(self.transcript@, resp_open_s())),
    {
        if self.finished && self.needs_continuation && !self.continuation_done {
            check_if_continuation_needed(self.transcript.as_str())
        } else {
            false
        }
    }

    /// Append the follow-up turn's streamed text to the transcript; the
    /// follow-up runs at most once per turn.
    pub fn append_continuation(&mut self, text: &str)
        requires
            !old(self).continuation_done,
        ensures
            final(self).transcript@ == old(self).transcript@ + text@,
            *final(self) == (TurnState {
                transcript: final(self).transcript,
                continuation_done: true,
                ..*old(self)
            }),
    {
        self.transcript.append(text);
        self.continuation_done = true;
    }

    /// A failed follow-up is recorded as a bracketed note; the primary turn's
    /// output is preserved.
    pub fn append_continuation_error(&mut self, message: &str) -> (emitted: String)
        requires
            !old(self).continuation_done,
        ensures
            emitted@ == spec_continuation_error_note(message@),
            final(self).transcript@ == old(self).transcript@ + emitted@,
            *final(self) == (TurnState {
                transcript: final(self).transcript,
                continuation_done: true,
                ..*old(self)
            }),
    {
        let mut emitted = String::new();
        emitted.append("\n\n[Continuation Error: ");
        emitted.append(message);
        emitted.append("]");
        proof {
            assert(emitted@ =~= spec_continuation_error_note(message@));
        }
        self.transcript.append(emitted.as_str());
        self.continuation_done = true;
        emitted
    }

    /// The one terminal event of the turn, carrying the cancellation flag and
    /// whatever usage was captured.
    pub fn terminal_event(&self) -> (e: TerminalEvent)
        ensures
            e == spec_terminal_event(*self),
    {
        TerminalEvent {
            cancelled: self.cancelled,
            usage: match &self.usage {
                Some(u) => Some(
                    UsageStats {
                        prompt_tokens: u.prompt_tokens,
                        completion_tokens: u.completion_tokens,
                        total_tokens: u.total_tokens,
                    },
                ),
                None => None,
            },
        }
    }
}

/// Cancellation is absorbing: a cancelled state is not streaming, so no
/// content transition applies to it, and its terminal event reports the
/// cancellation.
pub proof fn lemma_cancel_is_terminal(s: TurnState)
    requires
        s.cancelled,
    ensures
        !spec_streaming(s),
        spec_terminal_event(s).cancelled,
{
}

/// The final event of a turn.
pub struct TerminalEvent {
    pub cancelled: bool,
    pub usage: Option<UsageStats>,
}

/// What the terminal event of a state carries.
pub open spec fn spec_terminal_event(s: TurnState) -> TerminalEvent {
    TerminalEvent { cancelled: s.cancelled, usage: s.usage }
}

/// The response block appended for a tool outcome: the payload (or the error
/// text) between response delimiters, on lines of its own.
pub open spec fn spec_tool_response_block(ok: bool, payload: Seq<char>) -> Seq<char> {
    if ok {
        "\n<tool_response>\n"@ + payload + "\n</tool_response>"@
    } else {
        "\n<tool_response>\nError: "@ + payload + "\n</tool_response>"@
    }
}

/// The bracketed note recording a failed follow-up turn.
pub open spec fn spec_continuation_error_note(message: Seq<char>) -> Seq<char> {
    "\n\n[Continuation Error: "@ + message + "]"@
}

/// Renders the response block for a tool outcome.
pub fn build_tool_response_block(ok: bool, payload: &str) -> (r: String)
    ensures
        r@ == spec_tool_response_block(ok, payload@),
{
    let mut r = String::new();
    if ok {
        r.append("\n<tool_response>\n");
    } else {
        r.append("\n<tool_response>\nError: ");
    }
    r.append(payload);
    r.append("\n</tool_response>");
    proof {
        assert(r@ =~= spec_tool_response_block(ok, payload@));
    }
    r
}

/// A structurally equal copy of an invocation.
pub fn dup_invocation(c: &ToolCallInvocation) -> (r: ToolCallInvocation)
    ensures
        inv_view(r) == inv_view(*c),
{
    ToolCallInvocation { name: c.name.clone(), args: c.args.clone() }
}

/// Whether some recorded invocation carries the same `(name, args)` key.
pub fn contains_key(v: &Vec<ToolCallInvocation>, c: &ToolCallInvocation) -> (r: bool)
    ensures
        r == keys_of(v@).contains(inv_view(*c)),
{
    let n = v.len();
    let mut i: usize = 0;
    while i < n
        invariant
            0 <= i <= n,
            n == v@.len(),
            forall|j: int| 0 <= j < i ==> keys_of(v@)[j] != inv_view(*c),
        decreases n - i,
    {
        if v[i].name == c.name && v[i].args == c.args {
            proof {
                assert(keys_of(v@)[i as int] == inv_view(*c));
            }
            return true;
        }
        i = i + 1;
    }
    proof {
        if keys_of(v@).contains(inv_view(*c)) {
            let j = choose|j: int| 0 <= j < keys_of(v@).len() && keys_of(v@)[j] == inv_view(*c);
            assert(false);
        }
    }
    false
}

} // verus!
