//! Log file housekeeping: reading the date out of an archived log's name.

use vstd::prelude::*;
use crate::text::{spec_split, spec_count_char, str_to_chars, chars_to_string, split_char,
    count_char};

verus! {

/// The date carried by a log file name of the form `sparrow.<date>.log`,
/// where the date part reads as `YYYY-MM-DD`: ten characters with exactly two
/// dashes.
pub open spec fn spec_extract_date(name: Seq<char>) -> Option<Seq<char>> {
    let parts = spec_split(name, '.');
    if parts.len() >= 3 && parts[0] == "sparrow"@ && parts[1].len() == 10 && spec_count_char(
        parts[1],
        '-',
    ) == 2 {
        Some(parts[1])
    } else {
        None
    }
}

/// The date in an archived log's file name, when the name has the expected
/// shape.
pub fn extract_date_from_filename(filename: &str) -> (r: Option<String>)
    ensures
        match r {
            Some(d) => spec_extract_date(filename@) matches Some(v) && d@ == v,
            None => spec_extract_date(filename@) is None,
        },
{
    let chars = str_to_chars(filename);
    let parts = split_char(chars.as_slice(), '.');
    if parts.len() < 3 {
        return None;
    }
    let head = chars_to_string(parts[0].as_slice());
    let expected: String = String::from_str("sparrow");
    if !(head == expected) {
        return None;
    }
    let date_part = &parts[1];
    proof {
        assert(spec_split(filename@, '.')[1] == date_part@);
    }
    if date_part.len() != 10 {
        return None;
    }
    if count_char(date_part.as_slice(), '-') != 2 {
        return None;
    }
    Some(chars_to_string(date_part.as_slice()))
}

} // verus!
