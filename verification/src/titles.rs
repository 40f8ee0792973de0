//! Deriving a session title from the first user message, and shortening
//! retrieved document content; lengths count characters.

use vstd::prelude::*;
use crate::text::{spec_trim, spec_rfind, str_to_chars, chars_to_string, copy_range, trim_chars,
    rfind_sub};

verus! {

/// The first character of `char::to_uppercase`'s expansion of a character, or
/// the character itself when the expansion is empty; only the trusted helper
/// below defines it.
pub uninterp spec fn upper_first_of(c: char) -> char;

/// Relies on `char::to_uppercase` and `Iterator::next`: the first character of
/// the uppercase expansion, which depends on the character alone.
#[verifier::external_body]
fn uppercase_first(c: char) -> (r: char)
    ensures
        r == upper_first_of(c),
{
    c.to_uppercase().next().unwrap_or(c)
}

/// Punctuation trimmed away before a trailing ellipsis.
pub open spec fn spec_title_punct(c: char) -> bool {
    c == '.' || c == ',' || c == '!' || c == '?' || c == ';' || c == ':'
}

/// `t` without its trailing title punctuation.
pub open spec fn spec_trim_end_punct(t: Seq<char>) -> Seq<char>
    decreases t.len(),
{
    if t.len() > 0 && spec_title_punct(t.last()) {
        spec_trim_end_punct(t.drop_last())
    } else {
        t
    }
}

/// If every character from `e` on is title punctuation and the character
/// before `e` (when present) is not, trimming keeps exactly the prefix.
proof fn lemma_trim_end_punct_at(t: Seq<char>, e: int)
    requires
        0 <= e <= t.len(),
        forall|k: int| e <= k < t.len() ==> spec_title_punct(t[k]),
        e == 0 || !spec_title_punct(t[e - 1]),
    ensures
        spec_trim_end_punct(t) == t.subrange(0, e),
    decreases t.len() - e,
{
    if e == t.len() {
        assert(t.subrange(0, e) =~= t);
    } else {
        lemma_trim_end_punct_at(t.drop_last(), e);
        assert(t.drop_last().subrange(0, e) =~= t.subrange(0, e));
    }
}

/// The characters of `t` with trailing title punctuation removed.
fn trim_end_punct(t: &[char]) -> (r: Vec<char>)
    ensures
        r@ == spec_trim_end_punct(t@),
{
    let n = t.len();
    let mut e: usize = n;
    loop
        invariant
            0 <= e <= n,
            n == t@.len(),
            forall|k: int| e <= k < n ==> spec_title_punct(t@[k]),
        ensures
            0 <= e <= n,
            forall|k: int| e <= k < n ==> spec_title_punct(t@[k]),
            e == 0 || !spec_title_punct(t@[e - 1]),
        decreases e,
    {
        if e == 0 {
            break;
        }
        let c = t[e - 1];
        if !(c == '.' || c == ',' || c == '!' || c == '?' || c == ';' || c == ':') {
            break;
        }
        e = e - 1;
    }
    proof {
        lemma_trim_end_punct_at(t@, e as int);
    }
    copy_range(t, 0, e)
}

/// The title before capitalization: the trimmed message itself when it fits
/// in 60 characters; otherwise its first 60 characters, cut back to the last
/// space when that space lies beyond character 40, with an ellipsis appended.
pub open spec fn spec_title_raw(cleaned: Seq<char>) -> Seq<char> {
    if cleaned.len() <= 60 {
        cleaned
    } else {
        let head = cleaned.take(60);
        let bp = match spec_rfind(head, seq![' ']) {
            Some(p) => if p > 40 {
                p
            } else {
                60int
            },
            None => 60int,
        };
        cleaned.take(bp) + "..."@
    }
}

/// `t` with its first character uppercased.
pub open spec fn spec_capitalize(t: Seq<char>) -> Seq<char> {
    if t.len() == 0 {
        t
    } else {
        seq![upper_first_of(t[0])] + t.drop_first()
    }
}

/// The session title generated from a first user message: trimmed, truncated
/// at a word boundary near 60 characters, capitalized, and with punctuation
/// cleaned up before a trailing ellipsis.
pub open spec fn spec_generate_chat_title(content: Seq<char>) -> Seq<char> {
    let cap = spec_capitalize(spec_title_raw(spec_trim(content)));
    if cap.len() >= 3 && cap.subrange(cap.len() - 3, cap.len() as int) == "..."@ {
        spec_trim_end_punct(cap.take(cap.len() - 3)) + "..."@
    } else {
        cap
    }
}

/// Generates a session title from the first user message.
pub fn generate_chat_title(content: &str) -> (r: String)
    ensures
        r@ == spec_generate_chat_title(content@),
{
    proof {
        reveal_strlit("...");
    }
    let chars = str_to_chars(content);
    let cleaned = trim_chars(chars.as_slice());
    let n = cleaned.len();
    let title: Vec<char> = if n <= 60 {
        cleaned
    } else {
        let head = copy_range(cleaned.as_slice(), 0, 60);
        let mut space: Vec<char> = Vec::new();
        space.push(' ');
        let found = rfind_sub(head.as_slice(), space.as_slice());
        proof {
            crate::text::lemma_rfind_upto_spec(head@, space@, head@.len() - 1);
        }
        let bp: usize = match found {
            Some(p) => if p > 40 {
                p
            } else {
                60
            },
            None => 60,
        };
        let mut t = copy_range(cleaned.as_slice(), 0, bp);
        t.push('.');
        t.push('.');
        t.push('.');
        proof {
            assert(t@ =~= cleaned@.take(bp as int) + "..."@);
        }
        t
    };
    proof {
        assert(title@ == spec_title_raw(spec_trim(content@)));
    }
    let mut cap: Vec<char> = Vec::new();
    if title.len() > 0 {
        cap.push(uppercase_first(title[0]));
        let mut rest = copy_range(title.as_slice(), 1, title.len());
        cap.append(&mut rest);
        proof {
            assert(cap@ =~= spec_capitalize(title@));
        }
    }
    proof {
        assert(cap@ == spec_capitalize(title@));
    }
    let m = cap.len();
    let ends_with_ellipsis = m >= 3 && cap[m - 1] == '.' && cap[m - 2] == '.' && cap[m - 3] == '.';
    proof {
        if m >= 3 {
            let tail = cap@.subrange(cap@.len() - 3, cap@.len() as int);
            assert(tail.len() == 3);
            assert(tail[0] == cap@[m - 3] && tail[1] == cap@[m - 2] && tail[2] == cap@[m - 1]);
            assert("..."@.len() == 3 && "..."@[0] == '.' && "..."@[1] == '.' && "..."@[2] == '.');
            if cap@[m - 3] == '.' && cap@[m - 2] == '.' && cap@[m - 1] == '.' {
                assert(tail =~= "..."@);
            }
        }
        assert(ends_with_ellipsis == (cap@.len() >= 3 && cap@.subrange(
            cap@.len() - 3,
            cap@.len() as int,
        ) == "..."@));
    }
    if ends_with_ellipsis {
        let body = copy_range(cap.as_slice(), 0, m - 3);
        let mut trimmed = trim_end_punct(body.as_slice());
        trimmed.push('.');
        trimmed.push('.');
        trimmed.push('.');
        proof {
            assert(trimmed@ =~= spec_trim_end_punct(cap@.take(cap@.len() - 3)) + "..."@);
        }
        chars_to_string(trimmed.as_slice())
    } else {
        chars_to_string(cap.as_slice())
    }
}

/// Retrieved content shortened for the prompt: unchanged when it fits in
/// `max` characters, otherwise cut at the last space of the first `max`
/// characters (or hard at `max`), with an ellipsis appended.
pub open spec fn spec_truncate_content(t: Seq<char>, max: int) -> Seq<char> {
    if t.len() <= max {
        t
    } else {
        let head = t.take(max);
        match spec_rfind(head, seq![' ']) {
            Some(p) => head.take(p) + "..."@,
            None => head + "..."@,
        }
    }
}

/// Shortens retrieved content to at most `max_length` characters plus an
/// ellipsis, preferring a word boundary.
pub fn truncate_content(content: &str, max_length: usize) -> (r: String)
    ensures
        r@ == spec_truncate_content(content@, max_length as int),
{
    proof {
        reveal_strlit("...");
    }
    let chars = str_to_chars(content);
    let n = chars.len();
    if n <= max_length {
        return content.to_owned();
    }
    let head = copy_range(chars.as_slice(), 0, max_length);
    let mut space: Vec<char> = Vec::new();
    space.push(' ');
    let found = rfind_sub(head.as_slice(), space.as_slice());
    proof {
        if space@.len() <= head@.len() {
            crate::text::lemma_rfind_upto_spec(head@, space@, head@.len() - 1);
        }
    }
    let mut t: Vec<char> = match found {
        Some(p) => copy_range(head.as_slice(), 0, p),
        None => head,
    };
    t.push('.');
    t.push('.');
    t.push('.');
    proof {
        assert(t@ =~= spec_truncate_content(content@, max_length as int)) by {
            assert(chars@.take(max_length as int) == content@.take(max_length as int));
            match spec_rfind(content@.take(max_length as int), seq![' ']) {
                Some(p) => {
                    assert(content@.take(max_length as int).take(p) =~= chars@.subrange(0, p));
                }
                None => {}
            }
        }
    }
    chars_to_string(t.as_slice())
}

} // verus!
