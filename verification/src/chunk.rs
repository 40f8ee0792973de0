//! Splitting document text into overlapping chunks for indexing.

use vstd::prelude::*;
use crate::text::{spec_trim, seq_views, str_to_chars, chars_to_string, copy_range, trim_chars};

verus! {

/// The chunks of `t` from `start` on: windows of `size` characters advancing
/// by `size - overlap`, the last one ending at the text's end; windows that
/// are entirely whitespace are skipped.
pub open spec fn spec_chunks_from(t: Seq<char>, size: int, overlap: int, start: int) -> Seq<
    Seq<char>,
>
    decreases t.len() - start,
    when 0 <= start && 0 <= overlap < size
{
    if start >= t.len() {
        Seq::empty()
    } else {
        let end = if start + size < t.len() {
            start + size
        } else {
            t.len() as int
        };
        let chunk = t.subrange(start, end);
        let rest = if end == t.len() {
            Seq::<Seq<char>>::empty()
        } else {
            spec_chunks_from(t, size, overlap, start + size - overlap)
        };
        if spec_trim(chunk).len() == 0 {
            rest
        } else {
            seq![chunk] + rest
        }
    }
}

/// The chunks of `t`.
pub open spec fn spec_chunks(t: Seq<char>, size: int, overlap: int) -> Seq<Seq<char>> {
    spec_chunks_from(t, size, overlap, 0)
}

/// Splits `text` into chunks of at most `chunk_size` characters, consecutive
/// chunks sharing `overlap` characters; all-whitespace chunks are dropped.
/// The overlap must be smaller than the chunk size, or the window would never
/// advance.
pub fn chunk_text(text: &str, chunk_size: usize, overlap: usize) -> (r: Vec<String>)
    requires
        overlap < chunk_size,
    ensures
        seq_views(r@) == spec_chunks(text@, chunk_size as int, overlap as int),
{
    let t = str_to_chars(text);
    let n = t.len();
    let mut r: Vec<String> = Vec::new();
    let mut start: usize = 0;
    loop
        invariant_except_break
            spec_chunks(text@, chunk_size as int, overlap as int) =~= seq_views(r@)
                + spec_chunks_from(text@, chunk_size as int, overlap as int, start as int),
        invariant
            0 <= start,
            n == t@.len(),
            t@ == text@,
            overlap < chunk_size,
        ensures
            seq_views(r@) =~= spec_chunks(text@, chunk_size as int, overlap as int),
        decreases n - start,
    {
        if start >= n {
            break;
        }
        let end = if chunk_size < n - start {
            start + chunk_size
        } else {
            n
        };
        let chunk_chars = copy_range(t.as_slice(), start, end);
        let trimmed = trim_chars(chunk_chars.as_slice());
        let ghost pre = r@;
        if trimmed.len() != 0 {
            let chunk = chars_to_string(chunk_chars.as_slice());
            r.push(chunk);
            proof {
                lemma_seq_views_push(pre, r@);
            }
        }
        if end == n {
            break;
        }
        start = start + chunk_size - overlap;
    }
    r
}

/// Pushing a string extends the viewed list by its view.
proof fn lemma_seq_views_push(pre: Seq<String>, post: Seq<String>)
    requires
        post == pre.push(post.last()),
        post.len() == pre.len() + 1,
    ensures
        seq_views(post) =~= seq_views(pre).push(post.last()@),
{
    assert forall|j: int| 0 <= j < pre.len() implies #[trigger] seq_views(post)[j]
        == seq_views(pre)[j] by {
        assert(post[j] == pre[j]);
    }
}

} // verus!
