//! Tool dispatch: routing an invocation to a built-in handler or to the
//! external tool executor, and normalizing what comes back.
//!
//! A name carrying the `builtin_` prefix addresses an in-process tool; any
//! other name is forwarded to the external executor. The target is resolved
//! once, here, rather than by prefix sniffing at each call site. The dispatch
//! itself is stateless: deduplication of repeated invocations is the driver's
//! job.

use vstd::prelude::*;
use vstd::string::*;
use crate::text::{match_at, str_to_chars, chars_to_string, slice_matches_at, copy_range,
    spec_join, seq_views, join_strings};

verus! {

/// Where an invocation is executed.
pub enum ToolTarget {
    /// An in-process tool, by its bare name (prefix removed).
    Builtin { name: String },
    /// A tool of the external executor, by its full name.
    External { name: String },
}

/// The prefix that marks an in-process tool.
pub open spec fn builtin_prefix_s() -> Seq<char> {
    "builtin_"@
}

/// Whether a tool name addresses an in-process tool.
pub open spec fn spec_is_builtin(name: Seq<char>) -> bool {
    match_at(name, builtin_prefix_s(), 0)
}

/// Resolve a tool name to its execution target: a `builtin_`-prefixed name is
/// the in-process tool named by the rest, anything else goes to the external
/// executor whole.
pub fn resolve_tool_target(name: &str) -> (r: ToolTarget)
    ensures
        spec_is_builtin(name@) ==> (r matches ToolTarget::Builtin { name: n } && n@
            == name@.subrange(builtin_prefix_s().len() as int, name@.len() as int)),
        !spec_is_builtin(name@) ==> (r matches ToolTarget::External { name: n } && n@ == name@),
{
    let chars = str_to_chars(name);
    let prefix = str_to_chars("builtin_");
    proof {
        reveal_strlit("builtin_");
    }
    if slice_matches_at(chars.as_slice(), prefix.as_slice(), 0) {
        let suffix = copy_range(chars.as_slice(), prefix.len(), chars.len());
        ToolTarget::Builtin { name: chars_to_string(suffix.as_slice()) }
    } else {
        ToolTarget::External { name: name.to_owned() }
    }
}

/// One piece of a tool's result.
pub struct ToolContent {
    pub content_type: String,
    pub text: String,
}

/// What a built-in tool execution returns.
pub struct ToolResult {
    pub content: Vec<ToolContent>,
}

impl ToolResult {
    /// A result holding one text payload.
    pub fn text(text: String) -> (r: ToolResult)
        ensures
            r.content@.len() == 1,
            r.content@[0].content_type@ == "text"@,
            r.content@[0].text == text,
    {
        let mut content: Vec<ToolContent> = Vec::new();
        content.push(ToolContent { content_type: String::from_str("text"), text });
        ToolResult { content }
    }
}

/// The texts of a run of result pieces.
pub open spec fn content_texts(v: Seq<ToolContent>) -> Seq<Seq<char>> {
    Seq::new(v.len(), |i: int| v[i].text@)
}

/// The texts of a result's pieces, joined with newlines, as handed back to
/// the transcript.
pub fn flatten_tool_result(result: &ToolResult) -> (r: String)
    ensures
        r@ == spec_join(content_texts(result.content@), "\n"@),
{
    let ghost views = content_texts(result.content@);
    let mut parts: Vec<String> = Vec::new();
    let mut i: usize = 0;
    while i < result.content.len()
        invariant
            0 <= i <= result.content@.len(),
            views == content_texts(result.content@),
            views.len() == result.content@.len(),
            parts@.len() == i as int,
            seq_views(parts@) =~= views.take(i as int),
        decreases result.content@.len() - i,
    {
        let cloned = result.content[i].text.clone();
        proof {
            assert(cloned@ == result.content@[i as int].text@);
            assert(views[i as int] == result.content@[i as int].text@);
        }
        let ghost pre = parts@;
        parts.push(cloned);
        proof {
            assert forall|j: int| 0 <= j < i implies #[trigger] seq_views(parts@)[j]
                == views[j] by {
                assert(parts@[j] == pre[j]);
                assert(seq_views(pre)[j] == pre[j]@);
                assert(seq_views(pre)[j] == views.take(i as int)[j]);
                assert(seq_views(parts@)[j] == parts@[j]@);
            }
            assert(seq_views(parts@)[i as int] == views[i as int]);
            assert(seq_views(parts@) =~= views.take(i + 1));
        }
        i = i + 1;
    }
    proof {
        assert(views.take(result.content@.len() as int) =~= views);
        assert(seq_views(parts@) == views);
    }
    join_strings(&parts, "\n")
}

} // verus!
