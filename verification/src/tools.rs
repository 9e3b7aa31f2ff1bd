//! Tool registry: name → tool lookup used by the agent loop.
use vstd::prelude::*;

use crate::text::{opt_or, str_eq};
use crate::wire::ToolSpec;

verus! {

/// Errors from tool execution.
#[derive(Clone, Debug, PartialEq)]
pub enum ToolError {
    Unknown(String),
    Failed { name: String, message: String },
}

/// The text that the error displays.
pub open spec fn tool_error_text(e: ToolError) -> Seq<char> {
    match e {
        ToolError::Unknown(name) => "unknown tool: "@ + name@,
        ToolError::Failed { name, message } => "tool `"@ + name@ + "` failed: "@ + message@,
    }
}

impl ToolError {
    /// `ToolError::Failed` for tool `name`.
    pub fn failed(name: &str, message: String) -> (r: ToolError)
        ensures
            r matches ToolError::Failed { name: n, message: m } && n@ == name@ && m == message,
    {
        ToolError::Failed { name: String::from_str(name), message }
    }

    /// The error as text: `unknown tool: {0}` or `tool `{name}` failed: {message}`.
    pub fn to_string(&self) -> (r: String)
        ensures
            r@ == tool_error_text(*self),
    {
        match self {
            ToolError::Unknown(name) => {
                let mut out = String::from_str("unknown tool: ");
                out.append(name.as_str());
                out
            },
            ToolError::Failed { name, message } => {
                let mut out = String::from_str("tool `");
                out.append(name.as_str());
                out.append("` failed: ");
                out.append(message.as_str());
                out
            },
        }
    }
}

/// `{op} {subject}: {detail}`, the text of an operation that failed.
pub open spec fn operation_text(op: Seq<char>, subject: Seq<char>, detail: Seq<char>) -> Seq<char> {
    op + " "@ + subject + ": "@ + detail
}

pub fn operation_message(op: &str, subject: &str, detail: &str) -> (r: String)
    ensures
        r@ == operation_text(op@, subject@, detail@),
{
    let mut m = String::from_str(op);
    m.append(" ");
    m.append(subject);
    m.append(": ");
    m.append(detail);
    m
}

/// Tool `name` failed because `op` on `subject` failed with `detail`.
pub fn operation_failed(name: &str, op: &str, subject: &str, detail: &str) -> (r: ToolError)
    ensures
        r matches ToolError::Failed { name: n, message: m } && n@ == name@ && m@ == operation_text(
            op@,
            subject@,
            detail@,
        ),
{
    ToolError::failed(name, operation_message(op, subject, detail))
}

/// Tool `name` could not read its arguments: `invalid arguments: {detail}`.
pub fn invalid_arguments(name: &str, detail: &str) -> (r: ToolError)
    ensures
        r matches ToolError::Failed { name: n, message: m } && n@ == name@ && m@ == "invalid arguments: "@
            + detail@,
{
    let mut m = String::from_str("invalid arguments: ");
    m.append(detail);
    ToolError::failed(name, m)
}

/// Tool `name` failed because `op` on program `program` failed: ``{op} `{program}`: {detail}``.
pub fn process_failed(name: &str, op: &str, program: &str, detail: &str) -> (r: ToolError)
    ensures
        r matches ToolError::Failed { name: n, message: m } && n@ == name@ && m@ == op@ + " `"@ + program@
            + "`: "@ + detail@,
{
    let mut m = String::from_str(op);
    m.append(" `");
    m.append(program);
    m.append("`: ");
    m.append(detail);
    ToolError::failed(name, m)
}

/// A callable tool registered with the agent.
///
/// An implementation names, by the spec functions, what it declares itself to
/// be and which results a call may give; the methods keep to them.
pub trait Tool: Send + Sync {
    /// The spec that the tool declares; an implementation defines it as the
    /// spec that its `spec` method returns.
    spec fn declared_spec(&self) -> ToolSpec;

    /// Whether `r` is a result that a call with the arguments `args` may give.
    closed spec fn spec_call(&self, args: Seq<char>, r: Result<String, ToolError>) -> bool {
        true
    }

    fn spec(&self) -> (r: ToolSpec)
        ensures
            r == self.declared_spec(),
    ;

    /// Execute with the raw JSON arguments string from the model.
    fn call(&self, arguments_json: &str) -> (r: Result<String, ToolError>)
        ensures
            self.spec_call(arguments_json@, r),
    ;
}

/// The name that a tool is registered under: its spec's name, or empty.
pub open spec fn tool_name<T: Tool>(tool: T) -> Seq<char> {
    opt_or(tool.declared_spec().name, ""@)
}

/// The map that a list of (name, tool) entries denotes; a later entry wins.
pub open spec fn entries_map<T>(s: Seq<(String, T)>) -> Map<Seq<char>, T>
    decreases s.len(),
{
    if s.len() == 0 {
        Map::empty()
    } else {
        entries_map(s.drop_last()).insert(s.last().0@, s.last().1)
    }
}

pub open spec fn names_unique<T>(s: Seq<(String, T)>) -> bool {
    forall|i: int, j: int| 0 <= i < j < s.len() ==> s[i].0@ != s[j].0@
}

pub proof fn lemma_entries_map<T>(s: Seq<(String, T)>)
    requires
        names_unique(s),
    ensures
        entries_map(s).dom().finite(),
        entries_map(s).dom().len() == s.len(),
        forall|k: Seq<char>|
            entries_map(s).dom().contains(k) <==> exists|i: int| 0 <= i < s.len() && s[i].0@ == k,
        forall|i: int| 0 <= i < s.len() ==> #[trigger] entries_map(s)[s[i].0@] == s[i].1,
    decreases s.len(),
{
    if s.len() > 0 {
        let p = s.drop_last();
        assert(names_unique(p));
        lemma_entries_map(p);
        assert(!entries_map(p).dom().contains(s.last().0@)) by {
            if entries_map(p).dom().contains(s.last().0@) {
                let i = choose|i: int| 0 <= i < p.len() && p[i].0@ == s.last().0@;
                assert(s[i].0@ == s[s.len() - 1].0@);
            }
        }
        assert forall|k: Seq<char>|
            entries_map(s).dom().contains(k) implies exists|i: int| 0 <= i < s.len() && s[i].0@ == k by {
            if k != s.last().0@ {
                let i = choose|i: int| 0 <= i < p.len() && p[i].0@ == k;
                assert(s[i].0@ == k);
            } else {
                assert(s[s.len() - 1].0@ == k);
            }
        }
        assert forall|k: Seq<char>|
            (exists|i: int| 0 <= i < s.len() && s[i].0@ == k) implies entries_map(s).dom().contains(k) by {
            let i = choose|i: int| 0 <= i < s.len() && s[i].0@ == k;
            if i < s.len() - 1 {
                assert(p[i].0@ == k);
            }
        }
        assert forall|i: int| 0 <= i < s.len() implies #[trigger] entries_map(s)[s[i].0@] == s[i].1 by {
            if i < s.len() - 1 {
                assert(p[i] == s[i]);
                assert(entries_map(p)[p[i].0@] == p[i].1);
            }
        }
    }
}

/// Name → tool lookup. Registering a name again replaces its tool.
pub struct ToolRegistry<T> {
    entries: Vec<(String, T)>,
}

impl<T> View for ToolRegistry<T> {
    type V = Map<Seq<char>, T>;

    closed spec fn view(&self) -> Map<Seq<char>, T> {
        entries_map(self.entries@)
    }
}

impl<T> ToolRegistry<T> {
    #[verifier::type_invariant]
    closed spec fn wf(self) -> bool {
        names_unique(self.entries@)
    }
}

impl<T: Tool> ToolRegistry<T> {
    pub fn new() -> (r: Self)
        ensures
            r@ == Map::<Seq<char>, T>::empty(),
    {
        ToolRegistry { entries: Vec::new() }
    }

    /// Index of the entry named `name`, if there is one.
    fn find(&self, name: &str) -> (r: Option<usize>)
        ensures
            r is None ==> forall|i: int| 0 <= i < self.entries@.len() ==> self.entries@[i].0@ != name@,
            r is Some ==> r->0 < self.entries@.len() && self.entries@[r->0 as int].0@ == name@,
    {
        let n = self.entries.len();
        let mut i: usize = 0;
        while i < n
            invariant
                n == self.entries@.len(),
                i <= n,
                forall|j: int| 0 <= j < i ==> self.entries@[j].0@ != name@,
            decreases n - i,
        {
            if str_eq(self.entries[i].0.as_str(), name) {
                return Some(i);
            }
            i += 1;
        }
        None
    }

    /// Register `tool` under the name in its spec (empty when the spec has
    /// none); a tool registered earlier under that name is replaced.
    pub fn register(&mut self, tool: T)
        ensures
            final(self)@ == old(self)@.insert(tool_name(tool), tool),
    {
        proof {
            use_type_invariant(&*self);
        }
        let spec = tool.spec();
        let name = match spec.name {
            Some(n) => n,
            None => String::new(),
        };
        proof {
            reveal_strlit("");
        }
        assert(name@ == tool_name(tool));
        let ghost old_entries = self.entries@;
        let ghost key = name@;
        proof {
            lemma_entries_map(old_entries);
        }
        match self.find(name.as_str()) {
            Some(i) => {
                let mut entries = Vec::new();
                std::mem::swap(&mut entries, &mut self.entries);
                entries.set(i, (name, tool));
                let ghost new_entries = entries@;
                assert(new_entries == old_entries.update(i as int, new_entries[i as int]));
                assert(names_unique(new_entries)) by {
                    assert forall|a: int, b: int| 0 <= a < b < new_entries.len() implies new_entries[a].0@
                        != new_entries[b].0@ by {
                        if a != i && b != i {
                            assert(new_entries[a] == old_entries[a]);
                            assert(new_entries[b] == old_entries[b]);
                        } else if a == i {
                            assert(new_entries[b] == old_entries[b]);
                        } else {
                            assert(new_entries[a] == old_entries[a]);
                        }
                    }
                }
                proof {
                    lemma_entries_map(new_entries);
                    assert(entries_map(new_entries) =~= entries_map(old_entries).insert(key, tool)) by {
                        assert forall|k: Seq<char>|
                            entries_map(new_entries).dom().contains(k) <==> entries_map(
                                old_entries,
                            ).insert(key, tool).dom().contains(k) by {
                            if entries_map(new_entries).dom().contains(k) {
                                let j = choose|j: int| 0 <= j < new_entries.len() && new_entries[j].0@ == k;
                                if j != i {
                                    assert(old_entries[j] == new_entries[j]);
                                }
                            }
                            if entries_map(old_entries).dom().contains(k) {
                                let j = choose|j: int| 0 <= j < old_entries.len() && old_entries[j].0@ == k;
                                if j != i {
                                    assert(old_entries[j] == new_entries[j]);
                                } else {
                                    assert(new_entries[j].0@ == k);
                                }
                            }
                            if k == key {
                                assert(new_entries[i as int].0@ == k);
                            }
                        }
                        assert forall|k: Seq<char>| #[trigger]
                            entries_map(new_entries).dom().contains(k) implies entries_map(new_entries)[k]
                            == entries_map(old_entries).insert(key, tool)[k] by {
                            let j = choose|j: int| 0 <= j < new_entries.len() && new_entries[j].0@ == k;
                            assert(entries_map(new_entries)[new_entries[j].0@] == new_entries[j].1);
                            if j != i {
                                assert(old_entries[j] == new_entries[j]);
                                assert(entries_map(old_entries)[old_entries[j].0@] == old_entries[j].1);
                            }
                        }
                    }
                }
                self.entries = entries;
                assert(self@ == old(self)@.insert(key, tool));
            },
            None => {
                let mut entries = Vec::new();
                std::mem::swap(&mut entries, &mut self.entries);
                entries.push((name, tool));
                let ghost new_entries = entries@;
                assert(new_entries.drop_last() =~= old_entries);
                assert(names_unique(new_entries)) by {
                    assert forall|a: int, b: int| 0 <= a < b < new_entries.len() implies new_entries[a].0@
                        != new_entries[b].0@ by {
                        if b < new_entries.len() - 1 {
                            assert(new_entries[a] == old_entries[a]);
                            assert(new_entries[b] == old_entries[b]);
                        } else {
                            assert(new_entries[a] == old_entries[a]);
                        }
                    }
                }
                assert(entries_map(new_entries) == entries_map(old_entries).insert(key, tool));
                self.entries = entries;
                assert(self@ == old(self)@.insert(key, tool));
            },
        }
    }

    /// The spec of every registered tool, one per name.
    pub fn specs(&self) -> (r: Vec<ToolSpec>)
        ensures
            self@.dom().finite(),
            r@.len() == self@.dom().len(),
            forall|i: int|
                0 <= i < r@.len() ==> exists|n: Seq<char>|
                    #![trigger self@[n]]
                    self@.dom().contains(n) && #[trigger] r@[i] == self@[n].declared_spec(),
            forall|n: Seq<char>|
                #[trigger] self@.dom().contains(n) ==> exists|i: int|
                    0 <= i < r@.len() && r@[i] == self@[n].declared_spec(),
    {
        proof {
            use_type_invariant(self);
            lemma_entries_map(self.entries@);
        }
        let mut out: Vec<ToolSpec> = Vec::new();
        let n = self.entries.len();
        let mut i: usize = 0;
        while i < n
            invariant
                n == self.entries@.len(),
                i <= n,
                out@.len() == i,
                forall|j: int| 0 <= j < i ==> out@[j] == (#[trigger] self.entries@[j]).1.declared_spec(),
            decreases n - i,
        {
            out.push(self.entries[i].1.spec());
            i += 1;
        }
        proof {
            let e = self.entries@;
            assert forall|k: int| 0 <= k < out@.len() implies exists|m: Seq<char>|
                #![trigger self@[m]]
                self@.dom().contains(m) && #[trigger] out@[k] == self@[m].declared_spec() by {
                assert(self@[e[k].0@] == e[k].1);
                assert(self@.dom().contains(e[k].0@));
            }
            assert forall|m: Seq<char>| #[trigger] self@.dom().contains(m) implies exists|k: int|
                0 <= k < out@.len() && out@[k] == self@[m].declared_spec() by {
                let k = choose|k: int| 0 <= k < e.len() && e[k].0@ == m;
                assert(self@[e[k].0@] == e[k].1);
                assert(out@[k] == e[k].1.declared_spec());
            }
        }
        out
    }

    /// Call the tool named `name` with `arguments_json` unchanged and return
    /// what it returns; `ToolError::Unknown(name)` when no tool has that name.
    pub fn call(&self, name: &str, arguments_json: &str) -> (r: Result<String, ToolError>)
        ensures
            self@.dom().contains(name@) ==> self@[name@].spec_call(arguments_json@, r),
            !self@.dom().contains(name@) ==> (r matches Err(ToolError::Unknown(n)) && n@ == name@),
    {
        proof {
            use_type_invariant(self);
            lemma_entries_map(self.entries@);
        }
        match self.find(name) {
            Some(i) => {
                proof {
                    assert(self@[self.entries@[i as int].0@] == self.entries@[i as int].1);
                }
                self.entries[i].1.call(arguments_json)
            },
            None => Err(ToolError::Unknown(String::from_str(name))),
        }
    }
}

impl<T: Tool> Default for ToolRegistry<T> {
    fn default() -> (r: Self)
        ensures
            r@ == Map::<Seq<char>, T>::empty(),
    {
        ToolRegistry::new()
    }
}

} // verus!
