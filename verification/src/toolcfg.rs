//! The built-in tool registry and the user's per-tool enablement settings.
//!
//! Loading and saving the settings file is I/O and stays with the caller;
//! this module owns the registry contents and the enablement map.

use vstd::prelude::*;
use vstd::string::*;
use crate::registry::{map_of, distinct_keys, lemma_map_of_contains, lemma_map_of_index,
    lemma_map_of_remove};
use crate::paths::spec_join_path;
use crate::paths::get_sparrow_dir;
use crate::paths::join_path;

verus! {

/// One built-in tool: its name, what it does, and its input schema as JSON
/// text.
pub struct BuiltinTool {
    pub name: String,
    pub description: String,
    pub input_schema: String,
    pub hidden_from_task_creation: bool,
}

/// The names of a run of tools.
pub open spec fn tool_names(v: Seq<BuiltinTool>) -> Seq<Seq<char>> {
    Seq::new(v.len(), |i: int| v[i].name@)
}

/// Two tools carrying the same data.
pub open spec fn tool_like(a: BuiltinTool, b: BuiltinTool) -> bool {
    &&& a.name@ == b.name@
    &&& a.description@ == b.description@
    &&& a.input_schema@ == b.input_schema@
    &&& a.hidden_from_task_creation == b.hidden_from_task_creation
}

/// The in-process tools, by name.
pub struct BuiltinToolRegistry {
    pub tools: Vec<BuiltinTool>,
}

impl BuiltinToolRegistry {
    /// Tool names are pairwise distinct.
    pub open spec fn wf(&self) -> bool {
        forall|i: int, j: int|
            0 <= i < j < self.tools@.len() ==> self.tools@[i].name@ != self.tools@[j].name@
    }

    /// The registry holding every built-in tool.
    pub fn new() -> (r: Self)
        ensures
            r.wf(),
            tool_names(r.tools@) =~= seq![
                "get_system_info"@,
                "get_current_time"@,
                "list_directory"@,
                "create_task"@,
            ],
            !r.tools@[0].hidden_from_task_creation,
            !r.tools@[1].hidden_from_task_creation,
            !r.tools@[2].hidden_from_task_creation,
            r.tools@[3].hidden_from_task_creation,
    {
        let mut registry = BuiltinToolRegistry { tools: Vec::new() };
        registry.register_all_tools();
        registry
    }

    /// Fills the registry with the built-in tools: system information, the
    /// current time, directory listing, and scheduled-task creation; only the
    /// last is hidden from task creation, since a task creating tasks would
    /// recurse.
    fn register_all_tools(&mut self)
        requires
            old(self).tools@.len() == 0,
        ensures
            final(self).wf(),
            tool_names(final(self).tools@) =~= seq![
                "get_system_info"@,
                "get_current_time"@,
                "list_directory"@,
                "create_task"@,
            ],
            !final(self).tools@[0].hidden_from_task_creation,
            !final(self).tools@[1].hidden_from_task_creation,
            !final(self).tools@[2].hidden_from_task_creation,
            final(self).tools@[3].hidden_from_task_creation,
    {
        proof {
            reveal_strlit("get_system_info");
            reveal_strlit("get_current_time");
            reveal_strlit("list_directory");
            reveal_strlit("create_task");
        }
        self.tools.push(
            BuiltinTool {
                name: String::from_str("get_system_info"),
                description: String::from_str(
                    "Get detailed system information including CPU, GPU, RAM, and OS details",
                ),
                input_schema: String::from_str(
                    "{\"type\": \"object\", \"properties\": {}, \"required\": []}",
                ),
                hidden_from_task_creation: false,
            },
        );
        self.tools.push(
            BuiltinTool {
                name: String::from_str("get_current_time"),
                description: String::from_str(
                    "Get the current date and time in various formats",
                ),
                input_schema: String::from_str(
                    "{\"type\": \"object\", \"properties\": {\"format\": {\"type\": \"string\", \"description\": \"Time format: 'iso8601' (default), 'unix', 'readable'\", \"enum\": [\"iso8601\", \"unix\", \"readable\"]}}, \"required\": []}",
                ),
                hidden_from_task_creation: false,
            },
        );
        self.tools.push(
            BuiltinTool {
                name: String::from_str("list_directory"),
                description: String::from_str(
                    "List files and subdirectories in a directory. Returns names, types (file/dir), and sizes",
                ),
                input_schema: String::from_str(
                    "{\"type\": \"object\", \"properties\": {\"path\": {\"type\": \"string\", \"description\": \"The directory path to list\"}, \"recursive\": {\"type\": \"boolean\", \"description\": \"Whether to list recursively (default: false)\"}}, \"required\": [\"path\"]}",
                ),
                hidden_from_task_creation: false,
            },
        );
        self.tools.push(
            BuiltinTool {
                name: String::from_str("create_task"),
                description: String::from_str(
                    "Create a scheduled task with structured parameters. Supports notifications and MCP function execution on various schedules.",
                ),
                input_schema: String::from_str(
                    "{\"type\": \"object\", \"properties\": {\"name\": {\"type\": \"string\", \"description\": \"Name of the task\"}, \"action_type\": {\"type\": \"object\"}, \"trigger_time\": {\"type\": \"object\"}, \"auto_delete\": {\"type\": \"boolean\", \"description\": \"Auto-delete task after one-time execution (default: false)\"}}, \"required\": [\"name\", \"action_type\", \"trigger_time\"]}",
                ),
                hidden_from_task_creation: true,
            },
        );
        proof {
            assert("get_system_info"@.len() == 15);
            assert("get_current_time"@.len() == 16);
            assert("list_directory"@.len() == 14);
            assert("create_task"@.len() == 11);
            assert(self.tools@[0].name@ != self.tools@[1].name@);
            assert(self.tools@[0].name@ != self.tools@[2].name@);
            assert(self.tools@[0].name@ != self.tools@[3].name@);
            assert(self.tools@[1].name@ != self.tools@[2].name@);
            assert(self.tools@[1].name@ != self.tools@[3].name@);
            assert(self.tools@[2].name@ != self.tools@[3].name@);
            assert(tool_names(self.tools@) =~= seq![
                "get_system_info"@,
                "get_current_time"@,
                "list_directory"@,
                "create_task"@,
            ]);
        }
    }

    /// Copies of all registered tools.
    pub fn list_tools(&self) -> (r: Vec<BuiltinTool>)
        ensures
            r@.len() == self.tools@.len(),
            forall|i: int| 0 <= i < r@.len() ==> tool_like(#[trigger] r@[i], self.tools@[i]),
    {
        let mut r: Vec<BuiltinTool> = Vec::new();
        let mut i: usize = 0;
        while i < self.tools.len()
            invariant
                0 <= i <= self.tools@.len(),
                r@.len() == i as int,
                forall|j: int| 0 <= j < i ==> tool_like(#[trigger] r@[j], self.tools@[j]),
            decreases self.tools@.len() - i,
        {
            let ghost pre = r@;
            r.push(
                BuiltinTool {
                    name: self.tools[i].name.clone(),
                    description: self.tools[i].description.clone(),
                    input_schema: self.tools[i].input_schema.clone(),
                    hidden_from_task_creation: self.tools[i].hidden_from_task_creation,
                },
            );
            proof {
                assert forall|j: int| 0 <= j < i implies tool_like(
                    #[trigger] r@[j],
                    self.tools@[j],
                ) by {
                    assert(r@[j] == pre[j]);
                }
                assert(tool_like(r@[i as int], self.tools@[i as int]));
            }
            i = i + 1;
        }
        r
    }

    /// The registered tool of that name, if any.
    pub fn get_tool(&self, name: &str) -> (r: Option<&BuiltinTool>)
        ensures
            match r {
                Some(t) => t.name@ == name@ && exists|i: int|
                    0 <= i < self.tools@.len() && self.tools@[i].name@ == name@,
                None => forall|i: int|
                    0 <= i < self.tools@.len() ==> self.tools@[i].name@ != name@,
            },
    {
        let key: String = name.to_owned();
        let n = self.tools.len();
        let mut i: usize = 0;
        while i < n
            invariant
                0 <= i <= n,
                n == self.tools@.len(),
                key@ == name@,
                forall|j: int| 0 <= j < i ==> self.tools@[j].name@ != name@,
            decreases n - i,
        {
            if self.tools[i].name == key {
                return Some(&self.tools[i]);
            }
            i = i + 1;
        }
        None
    }
}

/// The user's per-tool enablement settings: a map from tool name to whether
/// the tool may run; a tool without an entry is enabled.
pub struct BuiltinToolsConfig {
    pub entries: Vec<(String, bool)>,
}

impl BuiltinToolsConfig {
    /// The settings as a map from tool name to enablement.
    pub open spec fn view(&self) -> Map<Seq<char>, bool> {
        map_of(self.entries@)
    }

    /// Each tool name appears at most once.
    pub open spec fn wf(&self) -> bool {
        distinct_keys(self.entries@)
    }

    /// Settings enabling every tool of the registry.
    pub fn from_registry(registry: &BuiltinToolRegistry) -> (r: Self)
        requires
            registry.wf(),
        ensures
            r.wf(),
            forall|i: int|
                0 <= i < registry.tools@.len() ==> r@.contains_key(
                    #[trigger] registry.tools@[i].name@,
                ) && r@[registry.tools@[i].name@],
            forall|k: Seq<char>|
                r@.contains_key(k) ==> exists|i: int|
                    0 <= i < registry.tools@.len() && registry.tools@[i].name@ == k,
    {
        let mut entries: Vec<(String, bool)> = Vec::new();
        let mut i: usize = 0;
        while i < registry.tools.len()
            invariant
                0 <= i <= registry.tools@.len(),
                registry.wf(),
                entries@.len() == i as int,
                forall|j: int| 0 <= j < i ==> (#[trigger] entries@[j]).0@ == registry.tools@[
                    j
                ].name@ && entries@[j].1,
            decreases registry.tools@.len() - i,
        {
            entries.push((registry.tools[i].name.clone(), true));
            i = i + 1;
        }
        let r = BuiltinToolsConfig { entries };
        proof {
            assert(distinct_keys(r.entries@));
            assert forall|i2: int| 0 <= i2 < registry.tools@.len() implies r@.contains_key(
                #[trigger] registry.tools@[i2].name@,
            ) && r@[registry.tools@[i2].name@] by {
                lemma_map_of_index(r.entries@, i2);
            }
            assert forall|k: Seq<char>| r@.contains_key(k) implies exists|i2: int|
                0 <= i2 < registry.tools@.len() && registry.tools@[i2].name@ == k by {
                lemma_map_of_contains(r.entries@, k);
                let j = choose|j: int| 0 <= j < r.entries@.len() && r.entries@[j].0@ == k;
                assert(registry.tools@[j].name@ == k);
            }
        }
        r
    }

    /// These settings merged with the current registry: every registered tool
    /// keeps its recorded setting (enabled when none is recorded), and
    /// settings for tools no longer registered are dropped. Reading the old
    /// settings from disk and writing the merged ones back is the caller's
    /// job.
    pub fn merged_with_registry(&self, registry: &BuiltinToolRegistry) -> (r: Self)
        requires
            self.wf(),
            registry.wf(),
        ensures
            r.wf(),
            forall|i: int|
                0 <= i < registry.tools@.len() ==> r@.contains_key(
                    #[trigger] registry.tools@[i].name@,
                ) && r@[registry.tools@[i].name@] == (if self@.contains_key(
                    registry.tools@[i].name@,
                ) {
                    self@[registry.tools@[i].name@]
                } else {
                    true
                }),
            forall|k: Seq<char>|
                r@.contains_key(k) ==> exists|i: int|
                    0 <= i < registry.tools@.len() && registry.tools@[i].name@ == k,
    {
        let mut entries: Vec<(String, bool)> = Vec::new();
        let mut i: usize = 0;
        while i < registry.tools.len()
            invariant
                0 <= i <= registry.tools@.len(),
                self.wf(),
                registry.wf(),
                entries@.len() == i as int,
                forall|j: int| 0 <= j < i ==> (#[trigger] entries@[j]).0@ == registry.tools@[
                    j
                ].name@ && entries@[j].1 == (if self@.contains_key(registry.tools@[j].name@) {
                    self@[registry.tools@[j].name@]
                } else {
                    true
                }),
            decreases registry.tools@.len() - i,
        {
            let enabled = self.is_tool_enabled(registry.tools[i].name.as_str());
            entries.push((registry.tools[i].name.clone(), enabled));
            i = i + 1;
        }
        let r = BuiltinToolsConfig { entries };
        proof {
            assert(distinct_keys(r.entries@));
            assert forall|i2: int| 0 <= i2 < registry.tools@.len() implies r@.contains_key(
                #[trigger] registry.tools@[i2].name@,
            ) && r@[registry.tools@[i2].name@] == (if self@.contains_key(
                registry.tools@[i2].name@,
            ) {
                self@[registry.tools@[i2].name@]
            } else {
                true
            }) by {
                lemma_map_of_index(r.entries@, i2);
            }
            assert forall|k: Seq<char>| r@.contains_key(k) implies exists|i2: int|
                0 <= i2 < registry.tools@.len() && registry.tools@[i2].name@ == k by {
                lemma_map_of_contains(r.entries@, k);
                let j = choose|j: int| 0 <= j < r.entries@.len() && r.entries@[j].0@ == k;
                assert(registry.tools@[j].name@ == k);
            }
        }
        r
    }

    /// The settings file path under the home directory.
    pub fn config_path(home: &str) -> (r: String)
        ensures
            r@ == spec_join_path(spec_join_path(home@, ".sparrow"@), "builtin_tools_config.json"@),
    {
        let d = get_sparrow_dir(home);
        join_path(d.as_str(), "builtin_tools_config.json")
    }

    /// Whether a tool may run: its recorded setting, or enabled when none is
    /// recorded.
    pub fn is_tool_enabled(&self, tool_name: &str) -> (r: bool)
        requires
            self.wf(),
        ensures
            r == if self@.contains_key(tool_name@) {
                self@[tool_name@]
            } else {
                true
            },
    {
        proof {
            lemma_map_of_contains(self.entries@, tool_name@);
        }
        let key: String = tool_name.to_owned();
        let n = self.entries.len();
        let mut i: usize = 0;
        while i < n
            invariant
                0 <= i <= n,
                n == self.entries@.len(),
                self.wf(),
                key@ == tool_name@,
                forall|j: int| 0 <= j < i ==> self.entries@[j].0@ != tool_name@,
            decreases n - i,
        {
            if self.entries[i].0 == key {
                proof {
                    lemma_map_of_index(self.entries@, i as int);
                }
                return self.entries[i].1;
            }
            i = i + 1;
        }
        proof {
            lemma_map_of_contains(self.entries@, tool_name@);
        }
        true
    }

    /// Records a tool's enablement, replacing any earlier setting. Writing
    /// the settings to disk afterwards is the caller's job.
    pub fn set_tool_enabled(&mut self, tool_name: String, enabled: bool)
        requires
            old(self).wf(),
        ensures
            final(self).wf(),
            final(self)@ =~= old(self)@.insert(tool_name@, enabled),
    {
        proof {
            lemma_map_of_contains(self.entries@, tool_name@);
        }
        let n = self.entries.len();
        let mut i: usize = 0;
        let mut found: Option<usize> = None;
        while i < n
            invariant
                0 <= i <= n,
                n == self.entries@.len(),
                found is None ==> forall|j: int| 0 <= j < i ==> self.entries@[j].0@ != tool_name@,
                match found {
                    Some(f) => f < n && self.entries@[f as int].0@ == tool_name@,
                    None => true,
                },
            decreases n - i,
        {
            if found.is_none() && self.entries[i].0 == tool_name {
                found = Some(i);
            }
            i = i + 1;
        }
        match found {
            Some(f) => {
                proof {
                    lemma_map_of_index(self.entries@, f as int);
                    lemma_map_of_remove(self.entries@, f as int);
                }
                self.entries.remove(f);
                proof {
                    lemma_map_of_contains(self.entries@, tool_name@);
                }
            }
            None => {}
        }
        let ghost before = self.entries@;
        proof {
            lemma_map_of_contains(before, tool_name@);
        }
        self.entries.push((tool_name, enabled));
        proof {
            assert(self.entries@.drop_last() =~= before);
            assert(distinct_keys(self.entries@));
            assert(final(self)@ =~= old(self)@.insert(tool_name@, enabled));
        }
    }

    /// The names recorded as enabled, in recording order.
    pub fn get_enabled_tools(&self) -> (r: Vec<String>)
        ensures
            crate::text::seq_views(r@) =~= spec_enabled_names(self.entries@),
    {
        let mut r: Vec<String> = Vec::new();
        let mut i: usize = 0;
        while i < self.entries.len()
            invariant
                0 <= i <= self.entries@.len(),
                crate::text::seq_views(r@) =~= spec_enabled_names(self.entries@.take(i as int)),
            decreases self.entries@.len() - i,
        {
            proof {
                assert(self.entries@.take(i + 1).drop_last() =~= self.entries@.take(i as int));
                assert(self.entries@.take(i + 1).last() == self.entries@[i as int]);
            }
            if self.entries[i].1 {
                let ghost pre = r@;
                r.push(self.entries[i].0.clone());
                proof {
                    assert forall|j: int| 0 <= j < pre.len() implies #[trigger] crate::text::seq_views(
                        r@,
                    )[j] == crate::text::seq_views(pre)[j] by {
                        assert(r@[j] == pre[j]);
                    }
                    assert(crate::text::seq_views(r@) =~= crate::text::seq_views(pre).push(
                        self.entries@[i as int].0@,
                    ));
                }
            }
            i = i + 1;
        }
        proof {
            assert(self.entries@.take(self.entries@.len() as int) =~= self.entries@);
        }
        r
    }
}

/// The names among the entries whose setting is enabled, in order.
pub open spec fn spec_enabled_names(entries: Seq<(String, bool)>) -> Seq<Seq<char>>
    decreases entries.len(),
{
    if entries.len() == 0 {
        Seq::empty()
    } else {
        let prior = spec_enabled_names(entries.drop_last());
        if entries.last().1 {
            prior.push(entries.last().0@)
        } else {
            prior
        }
    }
}

} // verus!
