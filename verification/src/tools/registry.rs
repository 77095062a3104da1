//! Tools registered by name.
use vstd::prelude::*;
use crate::text::{cat, cat3, str_eq};
use crate::tools::ToolResult;

verus! {

/// `serde_json::Value`, carried opaquely.
#[verifier::external_type_specification]
#[verifier::external_body]
pub struct ExValue(serde_json::Value);

/// What `serde_json::from_str::<Value>` reports for a text: `None` when it parses, else the
/// `Display` text of its error (the JSON grammar and the nesting limit are the crate's own).
pub uninterp spec fn json_parse_error(text: Seq<char>) -> Option<Seq<char>>;

/// `serde_json::from_str::<Value>`: the parsed value, or the error's text; whether it fails,
/// and the error's text, are named by `json_parse_error` of the text. The parsed value itself
/// is opaque here: nothing is stated of how it relates to the text.
#[verifier::external_body]
fn parse_args(args_json: &str) -> (r: Result<serde_json::Value, String>)
    ensures
        match r {
            Ok(_) => json_parse_error(args_json@) is None,
            Err(e) => json_parse_error(args_json@) == Some(e@),
        },
{
    serde_json::from_str::<serde_json::Value>(args_json).map_err(|e| e.to_string())
}

/// Tools keyed by name; registering a name again replaces the tool.
pub struct ToolRegistry<T> {
    tools: Vec<(String, T)>,
}

/// The map that a list of named entries stands for, later entries overriding earlier ones.
pub open spec fn entries_map<T>(es: Seq<(String, T)>) -> Map<Seq<char>, T>
    decreases es.len(),
{
    if es.len() == 0 {
        Map::empty()
    } else {
        entries_map(es.drop_last()).insert(es.last().0@, es.last().1)
    }
}

/// No name occurs twice.
pub open spec fn names_unique<T>(es: Seq<(String, T)>) -> bool {
    forall|i: int, j: int| 0 <= i < j < es.len() ==> es[i].0@ != es[j].0@
}

proof fn lemma_entries_map_lookup<T>(es: Seq<(String, T)>, i: int)
    requires
        names_unique(es),
        0 <= i < es.len(),
    ensures
        entries_map(es).contains_key(es[i].0@),
        entries_map(es)[es[i].0@] == es[i].1,
    decreases es.len(),
{
    if i < es.len() - 1 {
        lemma_entries_map_lookup(es.drop_last(), i);
    }
}

proof fn lemma_entries_map_absent<T>(es: Seq<(String, T)>, name: Seq<char>)
    requires
        forall|i: int| 0 <= i < es.len() ==> es[i].0@ != name,
    ensures
        !entries_map(es).contains_key(name),
    decreases es.len(),
{
    if es.len() > 0 {
        lemma_entries_map_absent(es.drop_last(), name);
    }
}

proof fn lemma_entries_map_update<T>(es: Seq<(String, T)>, i: int, e: (String, T))
    requires
        names_unique(es),
        0 <= i < es.len(),
        e.0@ == es[i].0@,
    ensures
        entries_map(es.update(i, e)) == entries_map(es).insert(e.0@, e.1),
        names_unique(es.update(i, e)),
    decreases es.len(),
{
    let es2 = es.update(i, e);
    if i == es.len() - 1 {
        assert(es2.drop_last() =~= es.drop_last());
        assert(entries_map(es2) =~= entries_map(es).insert(e.0@, e.1));
    } else {
        assert(es2.drop_last() =~= es.drop_last().update(i, e));
        lemma_entries_map_update(es.drop_last(), i, e);
        assert(es.last().0@ != e.0@);
        assert(entries_map(es2) =~= entries_map(es).insert(e.0@, e.1));
    }
}

impl<T> ToolRegistry<T> {
    #[verifier::type_invariant]
    spec fn wf(self) -> bool {
        names_unique(self.tools@)
    }

    /// The registered tools by name.
    pub closed spec fn view(&self) -> Map<Seq<char>, T> {
        entries_map(self.tools@)
    }

    /// An empty registry.
    pub fn new() -> (r: Self)
        ensures
            r.view() == Map::<Seq<char>, T>::empty(),
    {
        ToolRegistry { tools: Vec::new() }
    }

    /// The position of `name`, if registered.
    fn position(&self, name: &str) -> (r: Option<usize>)
        ensures
            match r {
                Some(i) => i < self.tools@.len() && self.tools@[i as int].0@ == name@,
                None => forall|i: int| 0 <= i < self.tools@.len() ==> self.tools@[i].0@ != name@,
            },
    {
        let mut i: usize = 0;
        while i < self.tools.len()
            invariant
                i <= self.tools@.len(),
                forall|j: int| 0 <= j < i ==> self.tools@[j].0@ != name@,
            decreases self.tools@.len() - i,
        {
            if str_eq(self.tools[i].0.as_str(), name) {
                return Some(i);
            }
            i = i + 1;
        }
        None
    }

    /// Registers `tool` under `name`, replacing a tool already registered under that name.
    pub fn register(&mut self, name: String, tool: T)
        ensures
            final(self).view() == old(self).view().insert(name@, tool),
    {
        proof {
            use_type_invariant(&*self);
        }
        let pos = self.position(name.as_str());
        let mut tools: Vec<(String, T)> = Vec::new();
        std::mem::swap(&mut tools, &mut self.tools);
        match pos {
            Some(i) => {
                proof {
                    lemma_entries_map_update(tools@, i as int, (name, tool));
                }
                tools.set(i, (name, tool));
            },
            None => {
                proof {
                    assert(tools@.push((name, tool)).drop_last() =~= tools@);
                    assert forall|a: int, b: int| 0 <= a < b < tools@.len() + 1 implies
                        #[trigger] tools@.push((name, tool))[a].0@ != #[trigger] tools@.push((name, tool))[b].0@ by {
                        if b == tools@.len() {
                            assert(tools@[a].0@ != name@);
                        }
                    }
                }
                tools.push((name, tool));
            },
        }
        self.tools = tools;
    }

    /// The tool registered under `name`.
    pub fn get(&self, name: &str) -> (r: Option<&T>)
        ensures
            match r {
                Some(t) => self.view().contains_key(name@) && *t == self.view()[name@],
                None => !self.view().contains_key(name@),
            },
    {
        proof {
            use_type_invariant(self);
        }
        match self.position(name) {
            Some(i) => {
                proof {
                    lemma_entries_map_lookup(self.tools@, i as int);
                }
                Some(&self.tools[i].1)
            },
            None => {
                proof {
                    lemma_entries_map_absent(self.tools@, name@);
                }
                None
            },
        }
    }

    /// What a call of an unregistered tool gets.
    pub fn unknown_tool(name: &str) -> (r: ToolResult)
        ensures
            r.is_error,
            r.output@ == "未知工具: '"@ + name@ + "'"@,
    {
        ToolResult::error(cat3("未知工具: '", name, "'"))
    }

    /// What a tool run that failed with the error text `e` gets.
    pub fn tool_failed(e: &str) -> (r: ToolResult)
        ensures
            r.is_error,
            r.output@ == "工具执行异常: "@ + e@,
    {
        ToolResult::error(cat("工具执行异常: ", e))
    }

    /// Prepares a call of the tool `name` with the JSON arguments `args_json`: the registered
    /// tool and the parsed arguments; the unknown-tool result when no tool has that name; the
    /// parse error's result when the arguments are not JSON.
    pub fn prepare_call(&self, name: &str, args_json: &str) -> (r: Result<(&T, serde_json::Value), ToolResult>)
        ensures
            !self.view().contains_key(name@) ==> (r matches Err(t) && t.is_error && t.output@ == "未知工具: '"@
                + name@ + "'"@),
            self.view().contains_key(name@) ==> match json_parse_error(args_json@) {
                Some(e) => r matches Err(t) && t.is_error && t.output@ == "工具参数解析失败: "@ + e,
                None => r matches Ok((t, _)) && *t == self.view()[name@],
            },
    {
        let tool = match self.get(name) {
            Some(t) => t,
            None => {
                return Err(Self::unknown_tool(name));
            },
        };
        match parse_args(args_json) {
            Ok(v) => Ok((tool, v)),
            Err(e) => Err(ToolResult::error(cat("工具参数解析失败: ", e.as_str()))),
        }
    }

    /// The number of registered tools.
    pub fn len(&self) -> (n: usize)
        ensures
            n == self.view().len(),
    {
        proof {
            use_type_invariant(self);
            lemma_entries_map_len(self.tools@);
        }
        self.tools.len()
    }
}

proof fn lemma_entries_map_len<T>(es: Seq<(String, T)>)
    requires
        names_unique(es),
    ensures
        entries_map(es).dom().finite(),
        entries_map(es).len() == es.len(),
    decreases es.len(),
{
    if es.len() > 0 {
        lemma_entries_map_len(es.drop_last());
        lemma_entries_map_absent(es.drop_last(), es.last().0@);
    }
}

/// Registering a tool makes it what `get` finds under its name, and leaves what every other
/// name finds as it was.
pub proof fn law_register_then_get<T>(r: ToolRegistry<T>, name: Seq<char>, tool: T, other: Seq<char>)
    ensures
        r.view().insert(name, tool).contains_key(name),
        r.view().insert(name, tool)[name] == tool,
        other != name ==> (r.view().insert(name, tool).contains_key(other) <==> r.view().contains_key(
            other,
        )),
        other != name && r.view().contains_key(other) ==> r.view().insert(name, tool)[other]
            == r.view()[other],
{
}

} // verus!
