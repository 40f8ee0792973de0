//! Skills marketplace data and the slug derived from a skill's name.

use vstd::prelude::*;
use crate::text::{spec_trim, spec_split, spec_join, seq_views, str_to_chars, chars_to_string,
    trim_chars, split_char, join_strings};

verus! {

/// A skill as listed by the marketplace.
pub struct Skill {
    pub id: String,
    pub title: String,
    pub description: String,
    pub author: String,
    pub author_url: String,
    pub author_github: String,
    pub license: String,
    pub license_url: String,
    pub skill_url: String,
    pub skill_download_url: String,
    pub tags: Vec<String>,
}

/// The marketplace listing.
pub struct SkillsMarketplace {
    pub skills: Vec<Skill>,
}

/// What `str::to_lowercase` returns; only the trusted helper below defines it.
pub uninterp spec fn lower_of(s: Seq<char>) -> Seq<char>;

/// Relies on `str::to_lowercase`: the result depends on the characters alone.
#[verifier::external_body]
pub fn lowercase(s: &str) -> (r: String)
    ensures
        r@ == lower_of(s@),
        s@.len() == 0 ==> r@.len() == 0,
{
    s.to_lowercase()
}

/// The set of characters that `char::is_alphanumeric` accepts; only that
/// function defines it.
pub uninterp spec fn alnum_char(c: char) -> bool;

/// Relies on `char::is_alphanumeric`: the answer depends on the character
/// alone.
pub assume_specification[ char::is_alphanumeric ](c: char) -> (r: bool)
    ensures
        r == alnum_char(c),
;

/// The empty slug used for entries recorded before slugs existed.
pub fn default_slug() -> (r: String)
    ensures
        r@ == Seq::<char>::empty(),
{
    String::new()
}

/// Every non-alphanumeric character replaced by a dash.
pub open spec fn spec_dashed(t: Seq<char>) -> Seq<char> {
    Seq::new(
        t.len(),
        |i: int|
            if alnum_char(t[i]) {
                t[i]
            } else {
                '-'
            },
    )
}

/// The slug of a skill name: the name trimmed and lowercased, every
/// non-alphanumeric character turned into a dash, and the non-empty
/// dash-separated pieces rejoined with single dashes.
pub open spec fn spec_slugify(name: Seq<char>) -> Seq<char> {
    spec_join(
        spec_split(spec_dashed(lower_of(spec_trim(name))), '-').filter(|s: Seq<char>| s.len() > 0),
        "-"@,
    )
}

/// Converts a skill name to its slug (lowercase, hyphenated).
pub fn slugify(name: &str) -> (r: String)
    ensures
        r@ == spec_slugify(name@),
{
    let chars = str_to_chars(name);
    let trimmed = trim_chars(chars.as_slice());
    let trimmed_str = chars_to_string(trimmed.as_slice());
    let lowered = lowercase(trimmed_str.as_str());
    let lchars = str_to_chars(lowered.as_str());
    let ghost lview = lower_of(spec_trim(name@));
    let n = lchars.len();
    let mut dashed: Vec<char> = Vec::new();
    let mut i: usize = 0;
    while i < n
        invariant
            0 <= i <= n,
            n == lchars@.len(),
            lchars@ == lview,
            dashed@ =~= spec_dashed(lview).take(i as int),
        decreases n - i,
    {
        let c = lchars[i];
        if c.is_alphanumeric() {
            dashed.push(c);
        } else {
            dashed.push('-');
        }
        proof {
            assert(dashed@ =~= spec_dashed(lview).take(i + 1));
        }
        i = i + 1;
    }
    proof {
        assert(spec_dashed(lview).take(n as int) =~= spec_dashed(lview));
    }
    let pieces = split_char(dashed.as_slice(), '-');
    let ghost all_pieces = spec_split(spec_dashed(lview), '-');
    let mut kept: Vec<String> = Vec::new();
    let mut j: usize = 0;
    while j < pieces.len()
        invariant
            0 <= j <= pieces@.len(),
            crate::text::vecs_views(pieces@) == all_pieces,
            all_pieces.len() == pieces@.len(),
            seq_views(kept@) =~= all_pieces.take(j as int).filter(|s: Seq<char>| s.len() > 0),
        decreases pieces@.len() - j,
    {
        proof {
            reveal(Seq::filter);
            assert(all_pieces.take(j + 1).drop_last() =~= all_pieces.take(j as int));
            assert(all_pieces.take(j + 1).last() == pieces@[j as int]@);
        }
        if pieces[j].len() > 0 {
            let ghost pre = kept@;
            let piece = chars_to_string(pieces[j].as_slice());
            kept.push(piece);
            proof {
                assert forall|k: int| 0 <= k < pre.len() implies #[trigger] seq_views(kept@)[k]
                    == seq_views(pre)[k] by {
                    assert(kept@[k] == pre[k]);
                }
                assert(seq_views(kept@) =~= seq_views(pre).push(pieces@[j as int]@));
            }
        }
        j = j + 1;
    }
    proof {
        assert(all_pieces.take(pieces@.len() as int) =~= all_pieces);
    }
    join_strings(&kept, "-")
}

} // verus!
