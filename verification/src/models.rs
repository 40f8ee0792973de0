//! Model identifiers and the local model directory.

use vstd::prelude::*;
use vstd::string::*;
use crate::text::{match_at, str_to_chars, chars_to_string, slice_matches_at};
use crate::paths::{spec_join_path, get_models_dir};

verus! {

/// Whether a model id already carries the OpenVINO organization prefix.
pub open spec fn spec_has_openvino_prefix(id: Seq<char>) -> bool {
    match_at(id, "OpenVINO/"@, 0)
}

/// The model id with the OpenVINO organization prefix, added when missing.
pub open spec fn spec_normalize_model_id(id: Seq<char>) -> Seq<char> {
    if spec_has_openvino_prefix(id) {
        id
    } else {
        "OpenVINO/"@ + id
    }
}

/// Normalizes a model id to include the OpenVINO organization prefix.
pub fn normalize_model_id(model_id: &str) -> (r: String)
    ensures
        r@ == spec_normalize_model_id(model_id@),
{
    let chars = str_to_chars(model_id);
    let prefix = str_to_chars("OpenVINO/");
    if slice_matches_at(chars.as_slice(), prefix.as_slice(), 0) {
        model_id.to_owned()
    } else {
        let mut r = String::from_str("OpenVINO/");
        r.append(model_id);
        proof {
            assert(r@ =~= "OpenVINO/"@ + model_id@);
        }
        r
    }
}

/// The models directory: the caller's explicit download path when given, the
/// default models directory under the home otherwise.
pub fn get_models_dir_from_option(home: &str, download_path: Option<String>) -> (r: String)
    ensures
        r@ == (match download_path {
            Some(p) => p@,
            None => spec_join_path(spec_join_path(home@, ".sparrow"@), "models"@),
        }),
{
    match download_path {
        Some(p) => p,
        None => get_models_dir(home),
    }
}

} // verus!
