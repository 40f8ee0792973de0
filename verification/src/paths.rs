//! The application's directory layout under the user's home directory.
//!
//! Reading the home directory from the environment, creating directories and
//! checking that paths exist are I/O and stay with the caller; these functions
//! compute the paths themselves, as strings with `/` separators, from a home
//! directory handed in.

use vstd::prelude::*;
use vstd::string::*;

verus! {

/// `base` and `component` joined with a path separator.
pub open spec fn spec_join_path(base: Seq<char>, component: Seq<char>) -> Seq<char> {
    base + "/"@ + component
}

/// Joins one path component onto a base path.
pub fn join_path(base: &str, component: &str) -> (r: String)
    ensures
        r@ == spec_join_path(base@, component@),
{
    let mut r: String = base.to_owned();
    r.append("/");
    r.append(component);
    proof {
        assert(r@ =~= spec_join_path(base@, component@));
    }
    r
}

/// The main `.sparrow` directory in the user's home.
pub fn get_sparrow_dir(home: &str) -> (r: String)
    ensures
        r@ == spec_join_path(home@, ".sparrow"@),
{
    join_path(home, ".sparrow")
}

/// The `.sparrow/models` directory.
pub fn get_models_dir(home: &str) -> (r: String)
    ensures
        r@ == spec_join_path(spec_join_path(home@, ".sparrow"@), "models"@),
{
    let d = get_sparrow_dir(home);
    join_path(d.as_str(), "models")
}

/// The `.sparrow/logs` directory.
pub fn get_logs_dir(home: &str) -> (r: String)
    ensures
        r@ == spec_join_path(spec_join_path(home@, ".sparrow"@), "logs"@),
{
    let d = get_sparrow_dir(home);
    join_path(d.as_str(), "logs")
}

/// The `.sparrow/logs/archive` directory.
pub fn get_logs_archive_dir(home: &str) -> (r: String)
    ensures
        r@ == spec_join_path(
            spec_join_path(spec_join_path(home@, ".sparrow"@), "logs"@),
            "archive"@,
        ),
{
    let d = get_logs_dir(home);
    join_path(d.as_str(), "archive")
}

/// The chat sessions file path.
pub fn get_chat_sessions_path(home: &str) -> (r: String)
    ensures
        r@ == spec_join_path(spec_join_path(home@, ".sparrow"@), "chat_sessions.json"@),
{
    let d = get_sparrow_dir(home);
    join_path(d.as_str(), "chat_sessions.json")
}

/// The vector store database directory.
pub fn get_vector_store_path(home: &str) -> (r: String)
    ensures
        r@ == spec_join_path(spec_join_path(home@, ".sparrow"@), "vector_store"@),
{
    let d = get_sparrow_dir(home);
    join_path(d.as_str(), "vector_store")
}

/// The model metadata file path.
pub fn get_model_metadata_path(home: &str) -> (r: String)
    ensures
        r@ == spec_join_path(
            spec_join_path(spec_join_path(home@, ".sparrow"@), "models"@),
            "model_metadata.json"@,
        ),
{
    let d = get_models_dir(home);
    join_path(d.as_str(), "model_metadata.json")
}

/// The tasks file path.
pub fn get_tasks_path(home: &str) -> (r: String)
    ensures
        r@ == spec_join_path(spec_join_path(home@, ".sparrow"@), "tasks.json"@),
{
    let d = get_sparrow_dir(home);
    join_path(d.as_str(), "tasks.json")
}

/// The generated images directory.
pub fn get_images_dir(home: &str) -> (r: String)
    ensures
        r@ == spec_join_path(spec_join_path(home@, ".sparrow"@), "images"@),
{
    let d = get_sparrow_dir(home);
    join_path(d.as_str(), "images")
}

/// The generated images metadata file path.
pub fn get_images_metadata_path(home: &str) -> (r: String)
    ensures
        r@ == spec_join_path(
            spec_join_path(spec_join_path(home@, ".sparrow"@), "images"@),
            "metadata.json"@,
        ),
{
    let d = get_images_dir(home);
    join_path(d.as_str(), "metadata.json")
}

/// The OpenVINO model directory for a specific model.
pub fn get_openvino_model_path(home: &str, model_name: &str) -> (r: String)
    ensures
        r@ == spec_join_path(
            spec_join_path(
                spec_join_path(spec_join_path(home@, ".sparrow"@), "models"@),
                "OpenVINO"@,
            ),
            model_name@,
        ),
{
    let d = get_models_dir(home);
    let o = join_path(d.as_str(), "OpenVINO");
    join_path(o.as_str(), model_name)
}

/// The skills directory.
pub fn get_skills_dir(home: &str) -> (r: String)
    ensures
        r@ == spec_join_path(spec_join_path(home@, ".sparrow"@), "skills"@),
{
    let d = get_sparrow_dir(home);
    join_path(d.as_str(), "skills")
}

/// The skills marketplace cache file path.
pub fn get_marketplace_cache_path(home: &str) -> (r: String)
    ensures
        r@ == spec_join_path(
            spec_join_path(spec_join_path(home@, ".sparrow"@), "skills"@),
            "marketplace_cache.json"@,
        ),
{
    let d = get_skills_dir(home);
    join_path(d.as_str(), "marketplace_cache.json")
}

} // verus!
