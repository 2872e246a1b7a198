//! Tool enablement and dispatch for the protocol server: which tools the
//! configuration switches on, and which handler a named tool call reaches.
//! The interaction tool is required and always available; the others can be
//! switched off.

use vstd::prelude::*;
use crate::strutil::str_eq;

verus! {

/// One configuration switch: a tool name and whether it is enabled.
pub struct ToolToggle {
    pub name: String,
    pub enabled: bool,
}

/// Mathematical image of one switch.
pub ghost struct ToggleModel {
    pub name: Seq<char>,
    pub enabled: bool,
}

impl View for ToolToggle {
    type V = ToggleModel;

    open spec fn view(&self) -> ToggleModel {
        ToggleModel { name: self.name@, enabled: self.enabled }
    }
}

/// The configured tool switches.
pub struct ToolToggles {
    pub entries: Vec<ToolToggle>,
}

impl View for ToolToggles {
    type V = Seq<ToggleModel>;

    open spec fn view(&self) -> Seq<ToggleModel> {
        self.entries@.map_values(|t: ToolToggle| t@)
    }
}

/// Whether a named tool is enabled: the first switch with that name
/// decides; a tool without a switch is enabled by default.
pub open spec fn spec_tool_enabled(entries: Seq<ToggleModel>, name: Seq<char>) -> bool
    decreases entries.len(),
{
    if entries.len() == 0 {
        true
    } else if entries[0].name == name {
        entries[0].enabled
    } else {
        spec_tool_enabled(entries.drop_first(), name)
    }
}

/// Looks a tool's switch up; unnamed tools default to enabled.
pub fn tool_enabled(toggles: &ToolToggles, name: &str) -> (r: bool)
    ensures
        r == spec_tool_enabled(toggles@, name@),
{
    let n = toggles.entries.len();
    let mut i: usize = 0;
    proof {
        assert(toggles@.skip(0) =~= toggles@);
    }
    while i < n
        invariant
            i <= n,
            n == toggles.entries.len(),
            spec_tool_enabled(toggles@, name@) == spec_tool_enabled(toggles@.skip(i as int), name@),
        decreases n - i,
    {
        proof {
            assert(toggles@.skip(i as int)[0] == toggles@[i as int]);
            assert(toggles@.skip(i as int).drop_first() =~= toggles@.skip(i + 1));
        }
        if str_eq(toggles.entries[i].name.as_str(), name) {
            return toggles.entries[i].enabled;
        }
        i += 1;
    }
    proof {
        assert(toggles@.skip(n as int) =~= Seq::<ToggleModel>::empty());
    }
    true
}

/// Where a named tool call goes.
#[derive(Clone, Copy, Debug, PartialEq, Eq, Structural)]
pub enum ToolDispatch {
    /// The interaction tool: always available.
    RunInteraction,
    /// The memory tool.
    RunMemory,
    /// The code-search tool.
    RunSearch,
    /// The named tool exists but is switched off.
    ToolDisabled,
    /// No tool of that name exists.
    UnknownTool,
}

/// Resolves a tool call by name against the configured switches: the
/// interaction tool is always served; the memory and search tools only when
/// enabled; anything else is unknown.
pub fn dispatch_tool(name: &str, toggles: &ToolToggles) -> (r: ToolDispatch)
    ensures
        name@ == "zhi"@ ==> r == ToolDispatch::RunInteraction,
        name@ == "ji"@ ==> r == if spec_tool_enabled(toggles@, "ji"@) {
            ToolDispatch::RunMemory
        } else {
            ToolDispatch::ToolDisabled
        },
        name@ == "sou"@ ==> r == if spec_tool_enabled(toggles@, "sou"@) {
            ToolDispatch::RunSearch
        } else {
            ToolDispatch::ToolDisabled
        },
        name@ != "zhi"@ && name@ != "ji"@ && name@ != "sou"@ ==> r == ToolDispatch::UnknownTool,
{
    proof {
        reveal_strlit("zhi");
        reveal_strlit("ji");
        reveal_strlit("sou");
        assert("zhi"@.len() == 3);
        assert("ji"@.len() == 2);
        assert("sou"@.len() == 3);
        assert("zhi"@ != "ji"@);
        assert("ji"@ != "sou"@);
        assert("zhi"@ != "sou"@) by {
            if "zhi"@ == "sou"@ {
                assert("zhi"@[0] == "sou"@[0]);
                assert("zhi"@[0] == 'z');
                assert("sou"@[0] == 's');
            }
        }
    }
    if str_eq(name, "zhi") {
        ToolDispatch::RunInteraction
    } else if str_eq(name, "ji") {
        if tool_enabled(toggles, "ji") {
            ToolDispatch::RunMemory
        } else {
            ToolDispatch::ToolDisabled
        }
    } else if str_eq(name, "sou") {
        if tool_enabled(toggles, "sou") {
            ToolDispatch::RunSearch
        } else {
            ToolDispatch::ToolDisabled
        }
    } else {
        ToolDispatch::UnknownTool
    }
}

/// The tool names the server lists: the interaction tool always, the
/// memory and search tools when their switches allow.
pub open spec fn spec_listed_tools(entries: Seq<ToggleModel>) -> Seq<Seq<char>> {
    let base = seq!["zhi"@];
    let with_memory = if spec_tool_enabled(entries, "ji"@) {
        base.push("ji"@)
    } else {
        base
    };
    if spec_tool_enabled(entries, "sou"@) {
        with_memory.push("sou"@)
    } else {
        with_memory
    }
}

/// Lists the tool names the server offers under these switches.
pub fn enabled_tool_names(toggles: &ToolToggles) -> (r: Vec<String>)
    ensures
        r.deep_view() == spec_listed_tools(toggles@),
{
    let mut out: Vec<String> = Vec::new();
    out.push(String::from_str("zhi"));
    proof {
        assert(out.deep_view() =~= seq!["zhi"@]);
    }
    if tool_enabled(toggles, "ji") {
        let ghost before = out.deep_view();
        out.push(String::from_str("ji"));
        proof {
            assert(out.deep_view() =~= before.push("ji"@));
        }
    }
    if tool_enabled(toggles, "sou") {
        let ghost before = out.deep_view();
        out.push(String::from_str("sou"));
        proof {
            assert(out.deep_view() =~= before.push("sou"@));
        }
    }
    out
}

} // verus!
