//! Proved properties of the markup scanner.
//!
//! These laws relate the scanner's spec functions to a structural description
//! of a text: a listing of where its delimiter occurrences lie. They are the
//! library's statements about extraction completeness, the incomplete-block
//! diagnostic, and the history strip.

use vstd::prelude::*;
use crate::text::{match_at, spec_find_from, spec_rfind, spec_trim, lemma_find_from_spec,
    lemma_rfind_upto_spec};
use crate::markup::{call_open_s, call_close_s, resp_open_s, resp_close_s, delim_lengths,
    spec_extract_calls, spec_has_incomplete, spec_strip_from};
use crate::json::spec_parse_call;

verus! {

/// A complete listing of the call-delimiter occurrences of `t`: the first
/// `closes.len()` opens pair with the closes to form non-overlapping blocks in
/// document order, an extra last open (when present) is a trailing
/// unterminated block, and no occurrence lies outside the listing.
pub open spec fn call_blocks_listed(t: Seq<char>, opens: Seq<int>, closes: Seq<int>) -> bool {
    &&& closes.len() <= opens.len() <= closes.len() + 1
    &&& (forall|i: int| 0 <= i < opens.len() ==> match_at(t, call_open_s(), #[trigger] opens[i]))
    &&& (forall|i: int| 0 <= i < closes.len() ==> match_at(t, call_close_s(), #[trigger] closes[i]))
    &&& (forall|i: int| 0 <= i < closes.len() ==> #[trigger] opens[i] + call_open_s().len()
        <= closes[i])
    &&& (forall|i: int|
        0 <= i && i + 1 < opens.len() ==> #[trigger] closes[i] + call_close_s().len() <= opens[
            i + 1
        ])
    &&& (forall|p: int| #[trigger] match_at(t, call_open_s(), p) ==> opens.contains(p))
    &&& (forall|q: int| #[trigger] match_at(t, call_close_s(), q) ==> closes.contains(q))
}

/// Listed blocks lie in document order: later opens start later, and every
/// earlier block closes before a later block opens.
proof fn lemma_blocks_mono(t: Seq<char>, opens: Seq<int>, closes: Seq<int>, i: int, j: int)
    requires
        call_blocks_listed(t, opens, closes),
        0 <= i <= j < opens.len(),
    ensures
        opens[i] <= opens[j],
        i < j ==> closes[i] + call_close_s().len() <= opens[j],
        i < j ==> closes[i] < closes[j] || j >= closes.len(),
    decreases j - i,
{
    delim_lengths();
    if i < j {
        lemma_blocks_mono(t, opens, closes, i + 1, j);
        assert(closes[i] + call_close_s().len() <= opens[i + 1]);
        assert(opens[i] + call_open_s().len() <= closes[i]);
        if j < closes.len() {
            assert(opens[j] + call_open_s().len() <= closes[j]);
            if i + 1 < j {
                assert(closes[i + 1] + call_close_s().len() <= opens[j] || j >= closes.len());
            }
        }
    }
}

/// Extraction over a listed text, block by block: scanning from a point that
/// lies after block `b - 1` and at or before block `b` yields exactly the
/// parses of the remaining complete payloads, in order.
proof fn lemma_extract_structured(
    t: Seq<char>,
    opens: Seq<int>,
    closes: Seq<int>,
    b: int,
    from: int,
)
    requires
        call_blocks_listed(t, opens, closes),
        forall|i: int| 0 <= i < closes.len() ==> spec_parse_call(
            t.subrange(#[trigger] opens[i] + call_open_s().len(), closes[i]),
        ) is Some,
        0 <= b <= closes.len(),
        0 <= from <= t.len(),
        b > 0 ==> closes[b - 1] + call_close_s().len() <= from,
        b < opens.len() ==> from <= opens[b],
    ensures
        spec_extract_calls(t, from).len() == closes.len() - b,
        forall|i: int| 0 <= i < closes.len() - b ==> spec_extract_calls(t, from)[i]
            == spec_parse_call(
            t.subrange(#[trigger] opens[b + i] + call_open_s().len(), closes[b + i]),
        )->Some_0,
    decreases closes.len() - b,
{
    delim_lengths();
    lemma_find_from_spec(t, call_open_s(), from);
    // Every open at or after `from` is a listed open with index at least `b`.
    assert forall|p: int| match_at(t, call_open_s(), p) && p >= from implies exists|j: int|
        b <= j < opens.len() && opens[j] == p by {
        let j = choose|j: int| 0 <= j < opens.len() && opens[j] == p;
        if j < b {
            lemma_blocks_mono(t, opens, closes, j, b - 1);
            assert(opens[j] <= opens[b - 1]);
            assert(opens[b - 1] + call_open_s().len() <= closes[b - 1]);
            assert(false);
        }
    }
    if b == opens.len() {
        // No block left: no open can occur at or after `from`.
        if spec_find_from(t, call_open_s(), from) is Some {
            let s = spec_find_from(t, call_open_s(), from)->Some_0;
            assert(match_at(t, call_open_s(), s) && s >= from);
            assert(false);
        }
        assert(spec_extract_calls(t, from) =~= Seq::<(Seq<char>, Seq<char>)>::empty());
    } else {
        // The first open found is exactly block `b`'s.
        assert(match_at(t, call_open_s(), opens[b]));
        let s = match spec_find_from(t, call_open_s(), from) {
            Some(s) => s,
            None => {
                assert(false);
                0int
            }
        };
        assert(s <= opens[b]);
        let sj = choose|j: int| b <= j < opens.len() && opens[j] == s;
        assert(opens[b] <= opens[sj]) by {
            lemma_blocks_mono(t, opens, closes, b, sj);
        }
        assert(s == opens[b]);
        let cstart = opens[b] + call_open_s().len();
        lemma_find_from_spec(t, call_close_s(), cstart);
        if b == closes.len() {
            // Trailing unterminated block: no close occurs at or after its open.
            if spec_find_from(t, call_close_s(), cstart) is Some {
                let e = spec_find_from(t, call_close_s(), cstart)->Some_0;
                let ej = choose|j: int| 0 <= j < closes.len() && closes[j] == e;
                lemma_blocks_mono(t, opens, closes, ej, b);
                assert(closes[ej] + call_close_s().len() <= opens[b] || ej >= b);
                assert(false);
            }
            assert(spec_extract_calls(t, from) =~= Seq::<(Seq<char>, Seq<char>)>::empty());
        } else {
            // The first close after the open is exactly block `b`'s.
            assert(match_at(t, call_close_s(), closes[b]));
            assert(cstart <= closes[b]);
            let e = match spec_find_from(t, call_close_s(), cstart) {
                Some(e) => e,
                None => {
                    assert(false);
                    0int
                }
            };
            assert(e <= closes[b]);
            let ej = choose|j: int| 0 <= j < closes.len() && closes[j] == e;
            if ej < b {
                lemma_blocks_mono(t, opens, closes, ej, b);
                assert(closes[ej] + call_close_s().len() <= opens[b]);
                assert(false);
            }
            assert(closes[b] <= closes[ej]) by {
                if b < ej {
                    lemma_blocks_mono(t, opens, closes, b, ej);
                }
            }
            assert(e == closes[b]);
            let from2 = closes[b] + call_close_s().len();
            lemma_extract_structured(t, opens, closes, b + 1, from2);
            let payload = t.subrange(cstart, closes[b]);
            let rest = spec_extract_calls(t, from2);
            assert(spec_extract_calls(t, from) == seq![
                spec_parse_call(payload)->Some_0,
            ] + rest);
            assert forall|i: int| 0 <= i < closes.len() - b implies spec_extract_calls(t, from)[i]
                == spec_parse_call(
                t.subrange(#[trigger] opens[b + i] + call_open_s().len(), closes[b + i]),
            )->Some_0 by {
                if i > 0 {
                    let j = i - 1;
                    assert(rest[j] == spec_parse_call(
                        t.subrange(opens[b + 1 + j] + call_open_s().len(), closes[b + 1 + j]),
                    )->Some_0);
                    assert(b + 1 + j == b + i);
                }
            }
        }
    }
}

/// Extraction completeness: a text whose call delimiters form `N` complete,
/// non-overlapping, parseable blocks in document order — with at most one
/// trailing unterminated open — yields exactly `N` invocations, the parse of
/// each payload in order; and the incomplete-call diagnostic holds exactly
/// when the trailing open is present.
pub proof fn lemma_extraction_completeness(t: Seq<char>, opens: Seq<int>, closes: Seq<int>)
    requires
        call_blocks_listed(t, opens, closes),
        forall|i: int| 0 <= i < closes.len() ==> spec_parse_call(
            t.subrange(#[trigger] opens[i] + call_open_s().len(), closes[i]),
        ) is Some,
    ensures
        spec_extract_calls(t, 0).len() == closes.len(),
        forall|i: int| 0 <= i < closes.len() ==> spec_extract_calls(t, 0)[i] == spec_parse_call(
            t.subrange(#[trigger] opens[i] + call_open_s().len(), closes[i]),
        )->Some_0,
        spec_has_incomplete(t) <==> opens.len() == closes.len() + 1,
{
    delim_lengths();
    lemma_extract_structured(t, opens, closes, 0, 0);
    assert forall|i: int| 0 <= i < closes.len() implies spec_extract_calls(t, 0)[i]
        == spec_parse_call(
        t.subrange(#[trigger] opens[i] + call_open_s().len(), closes[i]),
    )->Some_0 by {
        assert(spec_extract_calls(t, 0)[i] == spec_parse_call(
            t.subrange(opens[0 + i] + call_open_s().len(), closes[0 + i]),
        )->Some_0);
    }
    // The incomplete diagnostic: the last open has a close after it exactly
    // when it is paired.
    let n = opens.len() as int;
    if call_open_s().len() <= t.len() {
        lemma_rfind_upto_spec(t, call_open_s(), t.len() - call_open_s().len());
    }
    match spec_rfind(t, call_open_s()) {
        Some(s) => {
            assert(match_at(t, call_open_s(), s));
            let sj = choose|j: int| 0 <= j < opens.len() && opens[j] == s;
            assert(opens[sj] <= opens[n - 1]) by {
                lemma_blocks_mono(t, opens, closes, sj, n - 1);
            }
            assert(match_at(t, call_open_s(), opens[n - 1]));
            assert(opens[n - 1] + call_open_s().len() <= t.len());
            assert(s == opens[n - 1]);
            lemma_find_from_spec(t, call_close_s(), s);
            if opens.len() == closes.len() + 1 {
                // Unterminated: every close lies before the last open.
                if spec_find_from(t, call_close_s(), s) is Some {
                    let e = spec_find_from(t, call_close_s(), s)->Some_0;
                    let ej = choose|j: int| 0 <= j < closes.len() && closes[j] == e;
                    lemma_blocks_mono(t, opens, closes, ej, n - 1);
                    assert(closes[ej] + call_close_s().len() <= opens[n - 1]);
                    assert(false);
                }
            } else {
                // Paired: that block's own close lies at or after its open.
                assert(match_at(t, call_close_s(), closes[n - 1]));
                assert(s <= closes[n - 1]);
                assert(spec_find_from(t, call_close_s(), s) is Some);
            }
        }
        None => {
            // No open at all: the listing must be empty on both sides.
            if opens.len() > 0 {
                assert(match_at(t, call_open_s(), opens[0]));
                assert(opens[0] + call_open_s().len() <= t.len());
                assert(opens[0] <= t.len() - call_open_s().len());
                assert(false);
            }
        }
    }
}

/// History strip, one direction of the round trip: text in which neither kind
/// of opening delimiter occurs, and which carries no surrounding whitespace,
/// is returned unchanged.
pub proof fn lemma_strip_no_blocks_unchanged(t: Seq<char>)
    requires
        forall|p: int| !match_at(t, call_open_s(), p),
        forall|p: int| !match_at(t, resp_open_s(), p),
        spec_trim(t) == t,
    ensures
        spec_trim(spec_strip_from(t, 0)) == t,
{
    delim_lengths();
    lemma_find_from_spec(t, call_open_s(), 0);
    lemma_find_from_spec(t, resp_open_s(), 0);
    assert(spec_find_from(t, call_open_s(), 0) is None);
    assert(spec_find_from(t, resp_open_s(), 0) is None);
    assert(spec_strip_from(t, 0) == t.subrange(0, t.len() as int));
    assert(t.subrange(0, t.len() as int) =~= t);
}

/// History strip, the other direction: a text that is exactly one complete
/// call block — no closing delimiter occurs before the final one — strips to
/// the empty string.
pub proof fn lemma_strip_single_call_block(t: Seq<char>, payload: Seq<char>)
    requires
        t == call_open_s() + payload + call_close_s(),
        forall|p: int|
            p < call_open_s().len() + payload.len() ==> !match_at(t, call_close_s(), p),
    ensures
        spec_trim(spec_strip_from(t, 0)) == Seq::<char>::empty(),
{
    delim_lengths();
    lemma_find_from_spec(t, call_open_s(), 0);
    lemma_find_from_spec(t, resp_open_s(), 0);
    assert(match_at(t, call_open_s(), 0)) by {
        assert(t.subrange(0, call_open_s().len() as int) =~= call_open_s());
    }
    assert(spec_find_from(t, call_open_s(), 0) == Some(0int));
    let close_at = call_open_s().len() as int + payload.len() as int;
    assert(match_at(t, call_close_s(), close_at)) by {
        assert(t.subrange(close_at, close_at + call_close_s().len() as int) =~= call_close_s());
    }
    let c0 = spec_find_from(t, call_open_s(), 0)->Some_0;
    assert(c0 == 0);
    match spec_find_from(t, resp_open_s(), 0) {
        Some(r0) => {
            assert(c0 <= r0);
            assert(spec_strip_from(t, 0) == crate::markup::spec_strip_call(t, 0, 0));
        }
        None => {
            assert(spec_strip_from(t, 0) == crate::markup::spec_strip_call(t, 0, 0));
        }
    }
    lemma_find_from_spec(t, call_close_s(), call_open_s().len() as int);
    match spec_find_from(t, call_close_s(), call_open_s().len() as int) {
        Some(e) => {
            assert(e >= close_at);
            assert(e <= close_at);
            let from2 = e + call_close_s().len();
            assert(from2 == t.len());
            lemma_find_from_spec(t, call_open_s(), from2);
            lemma_find_from_spec(t, resp_open_s(), from2);
            assert(spec_strip_from(t, from2) == t.subrange(from2, t.len() as int));
            assert(spec_strip_from(t, 0) =~= Seq::<char>::empty());
        }
        None => {
            assert(false);
        }
    }
}

/// The opening delimiter of a block kind: a call block or a response block.
pub open spec fn block_open_s(k: bool) -> Seq<char> {
    if k {
        call_open_s()
    } else {
        resp_open_s()
    }
}

/// The closing delimiter of a block kind.
pub open spec fn block_close_s(k: bool) -> Seq<char> {
    if k {
        call_close_s()
    } else {
        resp_close_s()
    }
}

/// The two opening delimiters differ, so they never both match at one index.
proof fn lemma_opens_differ(t: Seq<char>, p: int)
    ensures
        !(match_at(t, call_open_s(), p) && match_at(t, resp_open_s(), p)),
{
    delim_lengths();
    reveal_strlit("<tool_call>");
    reveal_strlit("<tool_response>");
    if match_at(t, call_open_s(), p) && match_at(t, resp_open_s(), p) {
        assert(t.subrange(p, p + call_open_s().len() as int)[6] == call_open_s()[6]);
        assert(t.subrange(p, p + resp_open_s().len() as int)[6] == resp_open_s()[6]);
        assert(t[p + 6] == 'c' && t[p + 6] == 'r');
    }
}

/// A description of a text that consists of complete blocks and nothing else:
/// block `i` has kind `blocks[i].0`, opens at `blocks[i].1` and closes at
/// `blocks[i].2`; the blocks cover the text without gaps, and no block's
/// payload contains its own closing delimiter.
pub open spec fn only_blocks_listed(t: Seq<char>, blocks: Seq<(bool, int, int)>) -> bool {
    &&& (forall|i: int|
        0 <= i < blocks.len() ==> match_at(t, block_open_s(blocks[i].0), #[trigger] blocks[i].1))
    &&& (forall|i: int|
        0 <= i < blocks.len() ==> match_at(t, block_close_s(blocks[i].0), #[trigger] blocks[i].2))
    &&& (forall|i: int|
        0 <= i < blocks.len() ==> #[trigger] blocks[i].1 + block_open_s(blocks[i].0).len()
            <= blocks[i].2)
    &&& (forall|i: int, p: int|
        0 <= i < blocks.len() && blocks[i].1 + block_open_s(blocks[i].0).len() <= p < blocks[i].2
            ==> !(#[trigger] match_at(t, block_close_s(#[trigger] blocks[i].0), p)))
    &&& (blocks.len() > 0 ==> blocks[0].1 == 0)
    &&& (forall|i: int|
        0 <= i && i + 1 < blocks.len() ==> #[trigger] blocks[i + 1].1 == blocks[i].2
            + block_close_s(blocks[i].0).len())
    &&& (blocks.len() > 0 ==> blocks[blocks.len() - 1].2 + block_close_s(
        blocks[blocks.len() - 1].0,
    ).len() == t.len())
    &&& (blocks.len() == 0 ==> t.len() == 0)
}

/// Stripping from the opening of block `b` (or from the text's end) leaves
/// nothing: there is no prose between or after the blocks.
proof fn lemma_strip_only_blocks_from(t: Seq<char>, blocks: Seq<(bool, int, int)>, b: int)
    requires
        only_blocks_listed(t, blocks),
        0 <= b <= blocks.len(),
    ensures
        spec_strip_from(
            t,
            if b == blocks.len() {
                t.len() as int
            } else {
                blocks[b].1
            },
        ) =~= Seq::<char>::empty(),
    decreases blocks.len() - b,
{
    delim_lengths();
    if b == blocks.len() {
        let from = t.len() as int;
        lemma_find_from_spec(t, call_open_s(), from);
        lemma_find_from_spec(t, resp_open_s(), from);
        assert(spec_find_from(t, call_open_s(), from) is None);
        assert(spec_find_from(t, resp_open_s(), from) is None);
        assert(spec_strip_from(t, from) == t.subrange(from, t.len() as int));
    } else {
        let k = blocks[b].0;
        let from = blocks[b].1;
        let close_at = blocks[b].2;
        let cstart = from + block_open_s(k).len();
        let from2 = close_at + block_close_s(k).len() as int;
        assert(from2 == if b + 1 == blocks.len() {
            t.len() as int
        } else {
            blocks[b + 1].1
        });
        lemma_strip_only_blocks_from(t, blocks, b + 1);
        assert(match_at(t, block_open_s(k), from));
        lemma_find_from_spec(t, call_open_s(), from);
        lemma_find_from_spec(t, resp_open_s(), from);
        lemma_opens_differ(t, from);
        lemma_find_from_spec(t, block_close_s(k), cstart);
        assert(match_at(t, block_close_s(k), close_at));
        assert(spec_find_from(t, block_close_s(k), cstart) == Some(close_at)) by {
            match spec_find_from(t, block_close_s(k), cstart) {
                Some(e) => {
                    assert(e <= close_at);
                    assert(e >= close_at);
                }
                None => {
                    assert(false);
                }
            }
        }
        if k {
            assert(spec_find_from(t, call_open_s(), from) == Some(from));
            match spec_find_from(t, resp_open_s(), from) {
                Some(r0) => {
                    assert(r0 >= from);
                    assert(spec_strip_from(t, from) == crate::markup::spec_strip_call(
                        t,
                        from,
                        from,
                    ));
                }
                None => {
                    assert(spec_strip_from(t, from) == crate::markup::spec_strip_call(
                        t,
                        from,
                        from,
                    ));
                }
            }
            assert(crate::markup::spec_strip_call(t, from, from) == t.subrange(from, from)
                + spec_strip_from(t, from2));
            assert(t.subrange(from, from) =~= Seq::<char>::empty());
        } else {
            assert(spec_find_from(t, resp_open_s(), from) == Some(from));
            match spec_find_from(t, call_open_s(), from) {
                Some(c0) => {
                    assert(c0 >= from);
                    assert(c0 != from);
                    assert(spec_strip_from(t, from) == crate::markup::spec_strip_resp(
                        t,
                        from,
                        from,
                    ));
                }
                None => {
                    assert(spec_strip_from(t, from) == crate::markup::spec_strip_resp(
                        t,
                        from,
                        from,
                    ));
                }
            }
            assert(crate::markup::spec_strip_resp(t, from, from) == t.subrange(from, from)
                + spec_strip_from(t, from2));
            assert(t.subrange(from, from) =~= Seq::<char>::empty());
        }
    }
}

/// History strip, the other direction: a text that consists of complete call
/// and response blocks and nothing else strips to the empty string.
pub proof fn lemma_strip_only_blocks(t: Seq<char>, blocks: Seq<(bool, int, int)>)
    requires
        only_blocks_listed(t, blocks),
    ensures
        spec_trim(spec_strip_from(t, 0)) == Seq::<char>::empty(),
{
    lemma_strip_only_blocks_from(t, blocks, 0);
    if blocks.len() == 0 {
        assert(spec_strip_from(t, 0) =~= Seq::<char>::empty());
    } else {
        assert(blocks[0].1 == 0);
    }
}

} // verus!
