//! The tools that the model can call.
use crate::split::{join, join_texts};
use crate::text::{same, texts};
use vstd::prelude::*;

verus! {

/// What a tool does.
#[derive(Clone, Copy, PartialEq, Eq, Structural, Debug)]
pub enum ToolKind {
    WriteFile,
    AppendFile,
    ReadFile,
    ListDir,
    WorkspaceContext,
    PathInfo,
    RuntimeHost,
    ComputerSurvey,
    OpenUrl,
    AutomationLog,
    GuiAutomationArm,
    GuiAutomationDisarm,
    GuiAutomationStatus,
    GuiScreenSnapshot,
    GuiMouseMove,
    GuiMouseClick,
    GuiTypeText,
    VisionToContext,
    RunDetached,
    TerminalOpen,
    WebsocketExchange,
    RunCommand,
    GitStatus,
    GitDiff,
    GitLog,
    GitBranch,
    GitRemote,
    GitAdd,
    GitRestore,
    GitCommit,
    GitPush,
    GitPull,
    GitFetch,
    GitCheckout,
    GitShow,
    GitStash,
    GitRevParse,
    GhPrList,
    GhPrView,
    GhPrDiff,
    GhPrCreate,
    GhPrClose,
    GhPrMerge,
    GhPrComment,
    AskUserChoice,
    SavePlan,
    LoadPlan,
    UpdatePlanStep,
    ReflectSession,
    CreateTool,
}

/// A tool: the name under which it is called, what the model is told of it, and what it does.
pub struct Tool {
    pub name: String,
    pub description: String,
    pub kind: ToolKind,
}

/// The view of a tool.
pub struct ToolView {
    pub name: Seq<char>,
    pub description: Seq<char>,
    pub kind: ToolKind,
}

impl View for Tool {
    type V = ToolView;

    open spec fn view(&self) -> ToolView {
        ToolView { name: self.name@, description: self.description@, kind: self.kind }
    }
}

/// The tools in the order in which they were registered.
pub struct ToolRegistry {
    tools: Vec<Tool>,
}

impl View for ToolRegistry {
    type V = Seq<ToolView>;

    closed spec fn view(&self) -> Seq<ToolView> {
        self.tools@.map_values(|t: Tool| t@)
    }
}

/// The tool with a name: of several the one that was registered last.
pub open spec fn lookup(tools: Seq<ToolView>, name: Seq<char>) -> Option<ToolView>
    decreases tools.len(),
{
    if tools.len() == 0 {
        None
    } else if tools.last().name == name {
        Some(tools.last())
    } else {
        lookup(tools.drop_last(), name)
    }
}

/// What the model is told of a tool.
pub open spec fn tool_line(t: ToolView) -> Seq<char> {
    "- "@ + t.name + " — "@ + t.description
}

/// What the model is told of each tool, in the order in which they were registered.
pub open spec fn tool_lines(tools: Seq<ToolView>) -> Seq<Seq<char>> {
    Seq::new(
        tools.len(),
        |i: int|
            match lookup(tools, tools[i].name) {
                Some(t) => tool_line(t),
                None => seq![],
            },
    )
}

proof fn lemma_lookup(tools: Seq<ToolView>, i: int)
    requires
        0 <= i < tools.len(),
    ensures
        lookup(tools, tools[i].name) is Some,
    decreases tools.len(),
{
    if i < tools.len() - 1 && tools.last().name != tools[i].name {
        assert(tools.drop_last()[i] == tools[i]);
        lemma_lookup(tools.drop_last(), i);
    }
}

impl ToolRegistry {
    /// A registry without tools.
    pub fn new() -> (r: ToolRegistry)
        ensures
            r@ == Seq::<ToolView>::empty(),
    {
        let r = ToolRegistry { tools: Vec::new() };
        assert(r@ =~= Seq::<ToolView>::empty());
        r
    }

    /// Registers a tool.
    pub fn register(&mut self, tool: Tool)
        ensures
            final(self)@ == old(self)@.push(tool@),
    {
        let ghost before = self@;
        let ghost t = tool@;
        self.tools.push(tool);
        assert(self@ =~= before.push(t));
    }

    /// The registry with one more tool.
    pub fn with(self, name: &str, description: &str, kind: ToolKind) -> (r: ToolRegistry)
        ensures
            r@ == self@.push(ToolView { name: name@, description: description@, kind }),
    {
        let mut r = self;
        r.register(Tool { name: name.to_owned(), description: description.to_owned(), kind });
        r
    }

    fn find(&self, name: &str) -> (r: Option<&Tool>)
        ensures
            match (r, lookup(self@, name@)) {
                (Some(t), Some(v)) => t@ == v,
                (None, None) => true,
                _ => false,
            },
    {
        let mut i: usize = self.tools.len();
        assert(self@.take(i as int) =~= self@);
        while i > 0
            invariant
                i <= self.tools@.len(),
                lookup(self@, name@) == lookup(self@.take(i as int), name@),
            decreases i,
        {
            i = i - 1;
            assert(self@.take(i + 1).drop_last() =~= self@.take(i as int));
            assert(self@.take(i + 1).last() == self.tools@[i as int]@);
            if same(self.tools[i].name.as_str(), name) {
                return Some(&self.tools[i]);
            }
        }
        None
    }

    /// What the tool with a name does; nothing where there is none.
    pub fn execute(&self, name: &str) -> (r: Option<ToolKind>)
        ensures
            r == match lookup(self@, name@) {
                Some(t) => Some(t.kind),
                None => None,
            },
    {
        match self.find(name) {
            Some(t) => Some(t.kind),
            None => None,
        }
    }

    /// The names of the tools in the order in which they were registered.
    pub fn names(&self) -> (r: Vec<String>)
        ensures
            texts(r@) == self@.map_values(|t: ToolView| t.name),
    {
        let mut out: Vec<String> = Vec::new();
        for i in 0..self.tools.len()
            invariant
                out@.len() == i,
                forall|k: int| 0 <= k < i ==> (#[trigger] out@[k])@ == self.tools@[k].name@,
        {
            out.push(self.tools[i].name.clone());
        }
        assert(texts(out@) =~= self@.map_values(|t: ToolView| t.name));
        out
    }

    /// What the model is told of the tools.
    pub fn system_tools_block(&self) -> (r: String)
        ensures
            r@ == join(tool_lines(self@), "\n"@),
    {
        let ghost expected = tool_lines(self@);
        let mut out: Vec<String> = Vec::new();
        for i in 0..self.tools.len()
            invariant
                expected == tool_lines(self@),
                out@.len() == i,
                texts(out@) =~= expected.take(i as int),
        {
            proof {
                lemma_lookup(self@, i as int);
                assert(self@[i as int] == self.tools@[i as int]@);
            }
            if let Some(t) = self.find(self.tools[i].name.as_str()) {
                let ghost before = texts(out@);
                let mut line = "- ".to_owned();
                line.append(t.name.as_str());
                line.append(" — ");
                line.append(t.description.as_str());
                let ghost l = line@;
                assert(l == expected[i as int]);
                out.push(line);
                assert(texts(out@) =~= before.push(l));
            }
        }
        assert(texts(out@) =~= expected);
        join_texts(&out, "\n")
    }
}

// ---------------------------------------------------------------------------
// Laws
// ---------------------------------------------------------------------------

/// A tool that was just registered is found under its name, and every other name finds what it
/// found before.
pub proof fn law_last_registered_wins(tools: Seq<ToolView>, t: ToolView, name: Seq<char>)
    ensures
        lookup(tools.push(t), t.name) == Some(t),
        name != t.name ==> lookup(tools.push(t), name) == lookup(tools, name),
{
    assert(tools.push(t).drop_last() =~= tools);
}

/// A name finds a tool just where one was registered under it, and the tool has that name.
pub proof fn law_found_as_registered(tools: Seq<ToolView>, name: Seq<char>)
    ensures
        lookup(tools, name) is Some <==> exists|i: int|
            0 <= i < tools.len() && (#[trigger] tools[i]).name == name,
        lookup(tools, name) matches Some(t) ==> t.name == name && tools.contains(t),
    decreases tools.len(),
{
    if tools.len() > 0 {
        law_found_as_registered(tools.drop_last(), name);
        if tools.last().name == name {
            assert(tools[tools.len() - 1].name == name);
        } else {
            let init = tools.drop_last();
            if lookup(init, name) is Some {
                let t = lookup(init, name)->0;
                let i = choose|i: int| 0 <= i < init.len() && (#[trigger] init[i]).name == name;
                assert(tools[i].name == name);
                let k = choose|k: int| 0 <= k < init.len() && init[k] == t;
                assert(tools[k] == t);
            }
            assert forall|i: int| 0 <= i < tools.len() && (#[trigger] tools[i]).name
                == name implies lookup(init, name) is Some by {
                assert(init[i].name == name);
            }
        }
    }
}

/// The model is told of each tool by its name and its description, in the order in which the tools
/// were registered, where no two have one name.
pub proof fn law_tools_are_told(tools: Seq<ToolView>, i: int)
    requires
        0 <= i < tools.len(),
        forall|a: int, b: int|
            0 <= a < b < tools.len() ==> (#[trigger] tools[a]).name != (#[trigger] tools[b]).name,
    ensures
        tool_lines(tools).len() == tools.len(),
        tool_lines(tools)[i] == "- "@ + tools[i].name + " — "@ + tools[i].description,
        lookup(tools, tools[i].name) == Some(tools[i]),
{
    lemma_unique_lookup(tools, i);
}

proof fn lemma_unique_lookup(tools: Seq<ToolView>, i: int)
    requires
        0 <= i < tools.len(),
        forall|a: int, b: int|
            0 <= a < b < tools.len() ==> (#[trigger] tools[a]).name != (#[trigger] tools[b]).name,
    ensures
        lookup(tools, tools[i].name) == Some(tools[i]),
    decreases tools.len(),
{
    if i < tools.len() - 1 {
        let init = tools.drop_last();
        assert(tools[i].name != tools[tools.len() - 1].name);
        assert forall|a: int, b: int| 0 <= a < b < init.len() implies (#[trigger] init[a]).name != (
        #[trigger] init[b]).name by {
            assert(tools[a].name != tools[b].name);
        }
        lemma_unique_lookup(init, i);
        assert(init[i] == tools[i]);
    }
}

} // verus!
