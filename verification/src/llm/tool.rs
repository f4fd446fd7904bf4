//! Named tools that a language model can call, and a registry that
//! dispatches calls by name.
//!
//! A [`Tool`] is an externally supplied callable with a unique name, a
//! description and a JSON schema for its arguments. [`Tools`] keeps at most
//! one tool per name — registering an existing name replaces it — and hands
//! out definitions ordered by name. [`Tools::call`] looks a tool up by
//! name, fails with a `NotFound` error naming the missing tool, rejects
//! argument text that is not valid JSON before the tool ever runs, and
//! otherwise passes the tool's own outcome through unchanged.

use vstd::prelude::*;

use crate::text::{lemma_lex_lt_connected, lemma_lex_lt_irreflexive, lemma_lex_lt_transitive,
    lex_lt, str_eq, str_lt};

verus! {

/// The ghost model of one tool definition: the name, the description, and
/// the rendered argument schema, each as a character sequence.
pub type DefModel = (Seq<char>, Seq<char>, Seq<char>);

/// A tool definition: what a language model is told about one tool.
#[derive(Debug, Clone)]
pub struct ToolDefinition {
    /// Tool name. Unique within a registry.
    pub name: String,
    /// Tool description for the language model.
    pub description: String,
    /// JSON schema for the tool arguments, as rendered JSON text.
    pub arguments: String,
}

impl View for ToolDefinition {
    type V = DefModel;

    open spec fn view(&self) -> DefModel {
        (self.name@, self.description@, self.arguments@)
    }
}

impl ToolDefinition {
    /// Creates a tool definition from its three parts.
    pub fn new(name: &str, description: &str, arguments: &str) -> (d: ToolDefinition)
        ensures
            d@ == (name@, description@, arguments@),
    {
        ToolDefinition {
            name: name.to_owned(),
            description: description.to_owned(),
            arguments: arguments.to_owned(),
        }
    }
}

/// What a tool invocation reports back to the registry.
#[derive(Debug)]
pub enum ToolError {
    /// The argument text did not decode against the tool's argument schema;
    /// the tool's body never ran. Carries the decoder's diagnostic.
    Decode {
        /// The decoder's diagnostic.
        diagnostic: String,
    },
    /// The tool ran and failed; carries the tool's own message.
    Execution {
        /// The tool's failure message.
        message: String,
    },
}

/// Why a dispatch through the registry failed.
#[derive(Debug)]
pub enum CallError {
    /// No tool of the requested name is registered; the message names it.
    NotFound {
        /// A message containing the requested name.
        message: String,
    },
    /// The argument text did not decode; the tool's body never ran.
    ArgumentDecode {
        /// The decoder's diagnostic.
        diagnostic: String,
    },
    /// The tool ran and failed.
    Execution {
        /// The tool's failure message.
        message: String,
    },
}

impl CallError {
    /// The text this error carries.
    pub open spec fn spec_message(&self) -> Seq<char> {
        match self {
            CallError::NotFound { message } => message@,
            CallError::ArgumentDecode { diagnostic } => diagnostic@,
            CallError::Execution { message } => message@,
        }
    }

    /// Returns the text this error carries.
    pub fn message(&self) -> (r: &str)
        ensures
            r@ == self.spec_message(),
    {
        match self {
            CallError::NotFound { message } => message.as_str(),
            CallError::ArgumentDecode { diagnostic } => diagnostic.as_str(),
            CallError::Execution { message } => message.as_str(),
        }
    }
}

/// A named callable that a language model may invoke.
///
/// The registry rejects argument text that is not valid JSON before a tool
/// runs. Implementations decode the (well-formed) JSON text against their
/// declared argument shape and report a [`ToolError::Decode`] failure
/// without running the tool's body when the text does not fit that shape.
pub trait Tool: Sized {
    /// The definition this tool describes itself with.
    spec fn spec_definition(&self) -> DefModel;

    /// Returns the tool's definition: its unique name, its description, and
    /// the JSON schema of its arguments.
    fn definition(&self) -> (d: ToolDefinition)
        ensures
            d@ == self.spec_definition(),
    ;

    /// Decodes the JSON argument text and, on success, executes the tool.
    /// Tools may hold and mutate internal state across calls.
    fn call(&mut self, arguments: &str) -> (r: Result<String, ToolError>);
}

/// The ghost models of a list of definitions, in order.
pub open spec fn defs_of(list: Seq<ToolDefinition>) -> Seq<DefModel> {
    Seq::new(list.len(), |i: int| list[i]@)
}

/// Holds when the definitions are strictly sorted by name.
pub open spec fn sorted_by_name(defs: Seq<DefModel>) -> bool {
    forall|i: int, j: int|
        0 <= i < j < defs.len() ==> lex_lt(#[trigger] defs[i].0, #[trigger] defs[j].0)
}

/// Holds when some definition bears the given name.
pub open spec fn has_name(defs: Seq<DefModel>, name: Seq<char>) -> bool {
    exists|i: int| 0 <= i < defs.len() && (#[trigger] defs[i]).0 == name
}

/// Holds when the pair of a definition and its tool occurs, at one and the
/// same position, in the given definition and tool lists.
pub open spec fn entry_kept<T>(defs: Seq<DefModel>, tools: Seq<T>, d: DefModel, t: T) -> bool {
    exists|j: int| 0 <= j < defs.len() && #[trigger] defs[j] == d && #[trigger] tools[j] == t
}

/// The definitions after registering `d`: the entry of the same name is
/// replaced if one exists, else `d` is placed at its sorted position.
pub open spec fn insert_def(defs: Seq<DefModel>, d: DefModel) -> Seq<DefModel>
    decreases defs.len(),
{
    if defs.len() == 0 {
        seq![d]
    } else if lex_lt(d.0, defs[0].0) {
        seq![d] + defs
    } else if d.0 == defs[0].0 {
        seq![d] + defs.skip(1)
    } else {
        seq![defs[0]] + insert_def(defs.skip(1), d)
    }
}

/// The definitions after removing the first entry of the given name, if any.
pub open spec fn remove_def(defs: Seq<DefModel>, name: Seq<char>) -> Seq<DefModel>
    decreases defs.len(),
{
    if defs.len() == 0 {
        defs
    } else if defs[0].0 == name {
        defs.skip(1)
    } else {
        seq![defs[0]] + remove_def(defs.skip(1), name)
    }
}

/// The exact text of the error message for a missing tool name.
pub open spec fn not_found_message(name: Seq<char>) -> Seq<char> {
    "Tool '"@ + name + "' not found"@
}

/// Inserting at the position `i` that the sorted order dictates — after
/// everything strictly below `d` and, if any entry remains, before a
/// strictly greater one — is what `insert_def` does.
proof fn lemma_insert_def_at(defs: Seq<DefModel>, d: DefModel, i: int)
    requires
        sorted_by_name(defs),
        0 <= i <= defs.len(),
        forall|k: int| 0 <= k < i ==> lex_lt((#[trigger] defs[k]).0, d.0),
        i < defs.len() ==> lex_lt(d.0, defs[i].0),
    ensures
        insert_def(defs, d) == defs.insert(i, d),
    decreases i,
{
    if i == 0 {
        if defs.len() == 0 {
            assert(insert_def(defs, d) =~= defs.insert(0, d));
        } else {
            assert(lex_lt(d.0, defs[0].0));
            assert(insert_def(defs, d) =~= defs.insert(0, d));
        }
    } else {
        assert(lex_lt(defs[0].0, d.0));
        proof_insert_head_facts(defs, d);
        assert forall|k: int| 0 <= k < i - 1 implies lex_lt(
            (#[trigger] defs.skip(1)[k]).0,
            d.0,
        ) by {
            assert(defs.skip(1)[k] == defs[k + 1]);
        }
        lemma_sorted_tail(defs);
        if i < defs.len() {
            assert(defs.skip(1)[i - 1] == defs[i]);
        }
        lemma_insert_def_at(defs.skip(1), d, i - 1);
        assert(insert_def(defs, d) == seq![defs[0]] + defs.skip(1).insert(i - 1, d));
        assert(seq![defs[0]] + defs.skip(1).insert(i - 1, d) =~= defs.insert(i, d));
    }
}

/// Replacing the entry at position `i` whose name equals `d`'s — with
/// everything before it strictly below `d` — is what `insert_def` does.
proof fn lemma_insert_def_replaces_at(defs: Seq<DefModel>, d: DefModel, i: int)
    requires
        sorted_by_name(defs),
        0 <= i < defs.len(),
        defs[i].0 == d.0,
        forall|k: int| 0 <= k < i ==> lex_lt((#[trigger] defs[k]).0, d.0),
    ensures
        insert_def(defs, d) == defs.update(i, d),
    decreases i,
{
    if i == 0 {
        lemma_lex_lt_irreflexive(d.0);
        assert(!lex_lt(d.0, defs[0].0));
        assert(insert_def(defs, d) == seq![d] + defs.skip(1));
        assert(seq![d] + defs.skip(1) =~= defs.update(0, d));
    } else {
        assert(lex_lt(defs[0].0, d.0));
        proof_insert_head_facts(defs, d);
        assert forall|k: int| 0 <= k < i - 1 implies lex_lt(
            (#[trigger] defs.skip(1)[k]).0,
            d.0,
        ) by {
            assert(defs.skip(1)[k] == defs[k + 1]);
        }
        lemma_sorted_tail(defs);
        assert(defs.skip(1)[i - 1] == defs[i]);
        lemma_insert_def_replaces_at(defs.skip(1), d, i - 1);
        assert(insert_def(defs, d) == seq![defs[0]] + defs.skip(1).update(i - 1, d));
        assert(seq![defs[0]] + defs.skip(1).update(i - 1, d) =~= defs.update(i, d));
    }
}

/// When the head's name is strictly below `d`'s, `insert_def` keeps the head
/// and recurses: spells out the facts the branch conditions need.
proof fn proof_insert_head_facts(defs: Seq<DefModel>, d: DefModel)
    requires
        defs.len() > 0,
        lex_lt(defs[0].0, d.0),
    ensures
        !lex_lt(d.0, defs[0].0),
        d.0 != defs[0].0,
        insert_def(defs, d) == seq![defs[0]] + insert_def(defs.skip(1), d),
{
    lemma_lex_lt_irreflexive(defs[0].0);
    if lex_lt(d.0, defs[0].0) {
        lemma_lex_lt_transitive(defs[0].0, d.0, defs[0].0);
    }
    if d.0 == defs[0].0 {
        lemma_lex_lt_irreflexive(d.0);
    }
}

/// The tail of a strictly name-sorted sequence is strictly name-sorted.
proof fn lemma_sorted_tail(defs: Seq<DefModel>)
    requires
        sorted_by_name(defs),
        defs.len() > 0,
    ensures
        sorted_by_name(defs.skip(1)),
{
    assert forall|p: int, q: int| 0 <= p < q < defs.skip(1).len() implies lex_lt(
        (#[trigger] defs.skip(1)[p]).0,
        (#[trigger] defs.skip(1)[q]).0,
    ) by {
        assert(defs.skip(1)[p] == defs[p + 1]);
        assert(defs.skip(1)[q] == defs[q + 1]);
    }
}

/// Removing the first entry named `name`, sitting at position `i`, is what
/// `remove_def` does.
proof fn lemma_remove_def_at(defs: Seq<DefModel>, name: Seq<char>, i: int)
    requires
        0 <= i < defs.len(),
        defs[i].0 == name,
        forall|k: int| 0 <= k < i ==> (#[trigger] defs[k]).0 != name,
    ensures
        remove_def(defs, name) == defs.remove(i),
    decreases i,
{
    if i == 0 {
        assert(remove_def(defs, name) == defs.skip(1));
        assert(defs.skip(1) =~= defs.remove(0));
    } else {
        assert(defs[0].0 != name);
        assert forall|k: int| 0 <= k < i - 1 implies (#[trigger] defs.skip(1)[k]).0 != name by {
            assert(defs.skip(1)[k] == defs[k + 1]);
        }
        assert(defs.skip(1)[i - 1] == defs[i]);
        lemma_remove_def_at(defs.skip(1), name, i - 1);
        assert(remove_def(defs, name) == seq![defs[0]] + defs.skip(1).remove(i - 1));
        assert(seq![defs[0]] + defs.skip(1).remove(i - 1) =~= defs.remove(i));
    }
}

/// Removing a name that no entry bears changes nothing.
proof fn lemma_remove_def_absent(defs: Seq<DefModel>, name: Seq<char>)
    requires
        forall|k: int| 0 <= k < defs.len() ==> (#[trigger] defs[k]).0 != name,
    ensures
        remove_def(defs, name) == defs,
    decreases defs.len(),
{
    if defs.len() > 0 {
        assert forall|k: int| 0 <= k < defs.skip(1).len() implies (#[trigger] defs.skip(1)[k]).0
            != name by {
            assert(defs.skip(1)[k] == defs[k + 1]);
        }
        lemma_remove_def_absent(defs.skip(1), name);
        assert(seq![defs[0]] + defs.skip(1) =~= defs);
    }
}

/// Registering a definition leaves one more entry than before when its name
/// is new, and the same number when the name was already taken: the list
/// counts unique names only.
pub proof fn lemma_insert_def_len(defs: Seq<DefModel>, d: DefModel)
    requires
        sorted_by_name(defs),
    ensures
        insert_def(defs, d).len() == if has_name(defs, d.0) {
            defs.len()
        } else {
            defs.len() + 1
        },
    decreases defs.len(),
{
    if defs.len() == 0 {
        assert(!has_name(defs, d.0));
    } else if lex_lt(d.0, defs[0].0) {
        assert forall|k: int| 0 <= k < defs.len() implies (#[trigger] defs[k]).0 != d.0 by {
            if k > 0 {
                lemma_lex_lt_transitive(d.0, defs[0].0, defs[k].0);
            }
            lemma_lex_lt_irreflexive(defs[k].0);
        }
        assert(!has_name(defs, d.0));
    } else if d.0 == defs[0].0 {
        assert(has_name(defs, d.0));
    } else {
        if !lex_lt(defs[0].0, d.0) {
            lemma_lex_lt_connected(d.0, defs[0].0);
        }
        proof_insert_head_facts(defs, d);
        lemma_sorted_tail(defs);
        lemma_insert_def_len(defs.skip(1), d);
        assert(has_name(defs, d.0) == has_name(defs.skip(1), d.0)) by {
            if has_name(defs, d.0) {
                let w = choose|w: int| 0 <= w < defs.len() && (#[trigger] defs[w]).0 == d.0;
                assert(w != 0);
                assert(defs.skip(1)[w - 1] == defs[w]);
            }
            if has_name(defs.skip(1), d.0) {
                let w = choose|w: int|
                    0 <= w < defs.skip(1).len() && (#[trigger] defs.skip(1)[w]).0 == d.0;
                assert(defs.skip(1)[w] == defs[w + 1]);
            }
        }
    }
}

/// Registering two definitions under the same name, one after the other,
/// leaves exactly what registering the second alone would: the second
/// registration wins and no duplicate entry exists.
pub proof fn lemma_insert_def_same_name_replaces(defs: Seq<DefModel>, d1: DefModel, d2: DefModel)
    requires
        sorted_by_name(defs),
        d1.0 == d2.0,
    ensures
        insert_def(insert_def(defs, d1), d2) == insert_def(defs, d2),
    decreases defs.len(),
{
    lemma_lex_lt_irreflexive(d1.0);
    if defs.len() == 0 {
        assert(insert_def(defs, d1) == seq![d1]);
        assert(insert_def(seq![d1], d2) =~= seq![d2] + seq![d1].skip(1));
        assert(seq![d2] + seq![d1].skip(1) =~= seq![d2]);
        assert(insert_def(defs, d2) =~= seq![d2]);
    } else if lex_lt(d1.0, defs[0].0) {
        let s1 = seq![d1] + defs;
        assert(insert_def(defs, d1) == s1);
        assert(s1[0] == d1);
        assert(insert_def(s1, d2) == seq![d2] + s1.skip(1));
        assert(seq![d2] + s1.skip(1) =~= seq![d2] + defs);
        assert(insert_def(defs, d2) == seq![d2] + defs);
    } else if d1.0 == defs[0].0 {
        let s1 = seq![d1] + defs.skip(1);
        assert(insert_def(defs, d1) == s1);
        assert(s1[0] == d1);
        assert(insert_def(s1, d2) == seq![d2] + s1.skip(1));
        assert(seq![d2] + s1.skip(1) =~= seq![d2] + defs.skip(1));
        assert(insert_def(defs, d2) == seq![d2] + defs.skip(1));
    } else {
        if !lex_lt(defs[0].0, d1.0) {
            lemma_lex_lt_connected(d1.0, defs[0].0);
        }
        proof_insert_head_facts(defs, d1);
        proof_insert_head_facts(defs, d2);
        lemma_sorted_tail(defs);
        lemma_insert_def_same_name_replaces(defs.skip(1), d1, d2);
        let s1 = seq![defs[0]] + insert_def(defs.skip(1), d1);
        assert(insert_def(defs, d1) == s1);
        assert(s1.len() > 0);
        assert(s1[0] == defs[0]);
        assert(insert_def(s1, d2) == seq![defs[0]] + insert_def(s1.skip(1), d2));
        assert(s1.skip(1) =~= insert_def(defs.skip(1), d1));
        assert(insert_def(defs, d2) == seq![defs[0]] + insert_def(defs.skip(1), d2));
    }
}

#[derive(Debug)]
struct ToolEntry<T> {
    definition: ToolDefinition,
    tool: T,
}

/// A registry of tools, keyed by unique name.
///
/// At most one tool is registered per name: registering an existing name
/// replaces the earlier tool. The registry owns its tools exclusively and
/// mutates them in place across calls, so stateful tools are permitted.
/// Definitions come out ordered by name.
#[derive(Debug)]
pub struct Tools<T> {
    entries: Vec<ToolEntry<T>>,
}

impl<T> Tools<T> {
    /// The definitions of the registered tools, in name order.
    pub closed spec fn defs(&self) -> Seq<DefModel> {
        Seq::new(self.entries@.len(), |i: int| self.entries@[i].definition@)
    }

    /// The registered tool values, positionally aligned with `defs`.
    pub closed spec fn spec_tools(&self) -> Seq<T> {
        Seq::new(self.entries@.len(), |i: int| self.entries@[i].tool)
    }

    /// Well-formed: the entries are strictly sorted by name, so each name
    /// occurs at most once, and each definition is paired with its tool.
    pub open spec fn wf(&self) -> bool {
        sorted_by_name(self.defs()) && self.spec_tools().len() == self.defs().len()
    }

    /// Holds when a tool of the given name is registered.
    pub open spec fn contains_name(&self, name: Seq<char>) -> bool {
        has_name(self.defs(), name)
    }
}

impl<T: Tool> Tools<T> {
    /// Creates a new, empty tool registry.
    pub fn new() -> (tools: Tools<T>)
        ensures
            tools.defs() == Seq::<DefModel>::empty(),
            tools.spec_tools() == Seq::<T>::empty(),
            tools.wf(),
    {
        let tools = Tools { entries: Vec::new() };
        proof {
            assert(tools.defs() =~= Seq::<DefModel>::empty());
            assert(tools.spec_tools() =~= Seq::<T>::empty());
        }
        tools
    }

    /// Returns the definitions of all registered tools, ordered by name.
    pub fn definitions(&self) -> (r: Vec<ToolDefinition>)
        ensures
            defs_of(r@) == self.defs(),
    {
        let mut r: Vec<ToolDefinition> = Vec::new();
        let mut i: usize = 0;
        while i < self.entries.len()
            invariant
                i <= self.entries@.len(),
                defs_of(r@) =~= self.defs().take(i as int),
            decreases self.entries@.len() - i,
        {
            let e = &self.entries[i];
            let d = ToolDefinition {
                name: e.definition.name.clone(),
                description: e.definition.description.clone(),
                arguments: e.definition.arguments.clone(),
            };
            proof {
                assert(d@ == self.defs()[i as int]);
            }
            let ghost prev = r@;
            r.push(d);
            i = i + 1;
            proof {
                assert(r@ == prev.push(d));
                assert(r@.len() == prev.len() + 1);
                assert(defs_of(prev).len() == prev.len());
                assert(defs_of(prev) == self.defs().take((i - 1) as int));
                assert(prev.len() == i as int - 1);
                assert(defs_of(r@).len() == i as int);
                assert forall|k: int| 0 <= k < r@.len() implies #[trigger] defs_of(r@)[k]
                    == self.defs().take(i as int)[k] by {
                    assert(defs_of(r@)[k] == r@[k]@);
                    if k < prev.len() {
                        assert(r@[k] == prev[k]);
                        assert(defs_of(prev)[k] == prev[k]@);
                    } else {
                        assert(r@[k] == d);
                    }
                }
                assert(defs_of(r@) =~= self.defs().take(i as int));
            }
        }
        proof {
            assert(self.defs().take(self.entries@.len() as int) =~= self.defs());
        }
        r
    }

    /// Registers a tool under the name its definition carries. Always
    /// succeeds; an existing tool of the same name is replaced. Exactly the
    /// given tool value ends up bound under that name, and every entry
    /// under a different name keeps both its definition and its tool.
    pub fn register(&mut self, tool: T)
        requires
            old(self).wf(),
        ensures
            final(self).wf(),
            final(self).defs() == insert_def(old(self).defs(), tool.spec_definition()),
            forall|i: int|
                0 <= i < final(self).defs().len() && (#[trigger] final(self).defs()[i]).0
                    == tool.spec_definition().0 ==> final(self).spec_tools()[i] == tool,
            forall|i: int|
                0 <= i < final(self).defs().len() && (#[trigger] final(self).defs()[i]).0
                    != tool.spec_definition().0 ==> entry_kept(
                    old(self).defs(),
                    old(self).spec_tools(),
                    final(self).defs()[i],
                    final(self).spec_tools()[i],
                ),
    {
        let ghost tool0 = tool;
        let definition = tool.definition();
        let ghost d = definition@;
        let ghost orig = self.defs();
        let ghost orig_tools = self.spec_tools();
        let mut i: usize = 0;
        loop
            invariant
                self == old(self),
                self.wf(),
                tool == tool0,
                d == tool0.spec_definition(),
                definition@ == d,
                orig == self.defs(),
                orig_tools == self.spec_tools(),
                i <= self.entries@.len(),
                forall|k: int| 0 <= k < i ==> lex_lt((#[trigger] self.defs()[k]).0, d.0),
            decreases self.entries@.len() - i,
        {
            if i == self.entries.len() {
                proof {
                    lemma_insert_def_at(orig, d, i as int);
                }
                self.entries.push(ToolEntry { definition, tool });
                proof {
                    assert(self.defs() =~= orig.insert(i as int, d));
                    assert(self.spec_tools() =~= orig_tools.push(tool0));
                    lemma_insert_preserves_sorted(orig, d, i as int);
                    assert forall|k: int|
                        0 <= k < self.defs().len() && (#[trigger] self.defs()[k]).0 == d.0 implies
                        self.spec_tools()[k] == tool0 by {
                        if k < orig.len() {
                            lemma_lex_lt_irreflexive(d.0);
                        }
                    }
                    assert forall|k: int|
                        0 <= k < self.defs().len() && (#[trigger] self.defs()[k]).0 != d.0 implies
                        entry_kept(orig, orig_tools, self.defs()[k], self.spec_tools()[k]) by {
                        assert(orig[k] == self.defs()[k]);
                        assert(orig_tools[k] == self.spec_tools()[k]);
                    }
                }
                return ;
            }
            if str_eq(definition.name.as_str(), self.entries[i].definition.name.as_str()) {
                proof {
                    lemma_insert_def_replaces_at(orig, d, i as int);
                }
                let _old_entry = self.entries.remove(i);
                self.entries.insert(i, ToolEntry { definition, tool });
                proof {
                    assert(self.defs() =~= orig.update(i as int, d));
                    assert(self.spec_tools() =~= orig_tools.update(i as int, tool0));
                    lemma_update_same_name_preserves_sorted(orig, d, i as int);
                    assert forall|k: int|
                        0 <= k < self.defs().len() && (#[trigger] self.defs()[k]).0 == d.0 implies
                        self.spec_tools()[k] == tool0 by {
                        if k != i as int {
                            assert(self.defs()[k] == orig[k]);
                            assert(orig[i as int].0 == d.0);
                            lemma_lex_lt_irreflexive(d.0);
                        }
                    }
                    assert forall|k: int|
                        0 <= k < self.defs().len() && (#[trigger] self.defs()[k]).0 != d.0 implies
                        entry_kept(orig, orig_tools, self.defs()[k], self.spec_tools()[k]) by {
                        assert(orig[k] == self.defs()[k]);
                        assert(orig_tools[k] == self.spec_tools()[k]);
                    }
                }
                return ;
            }
            if str_lt(definition.name.as_str(), self.entries[i].definition.name.as_str()) {
                proof {
                    lemma_insert_def_at(orig, d, i as int);
                }
                self.entries.insert(i, ToolEntry { definition, tool });
                proof {
                    assert(self.defs() =~= orig.insert(i as int, d));
                    assert(self.spec_tools() =~= orig_tools.insert(i as int, tool0));
                    lemma_insert_preserves_sorted(orig, d, i as int);
                    assert forall|k: int|
                        0 <= k < self.defs().len() && (#[trigger] self.defs()[k]).0 == d.0 implies
                        self.spec_tools()[k] == tool0 by {
                        if k < i as int {
                            assert(self.defs()[k] == orig[k]);
                            lemma_lex_lt_irreflexive(d.0);
                        } else if k > i as int {
                            assert(self.defs()[k] == orig[k - 1]);
                            if k - 1 > i as int {
                                lemma_lex_lt_transitive(d.0, orig[i as int].0, orig[k - 1].0);
                            }
                            lemma_lex_lt_irreflexive(d.0);
                        }
                    }
                    assert forall|k: int|
                        0 <= k < self.defs().len() && (#[trigger] self.defs()[k]).0 != d.0 implies
                        entry_kept(orig, orig_tools, self.defs()[k], self.spec_tools()[k]) by {
                        if k < i as int {
                            assert(orig[k] == self.defs()[k]);
                            assert(orig_tools[k] == self.spec_tools()[k]);
                        } else {
                            assert(orig[k - 1] == self.defs()[k]);
                            assert(orig_tools[k - 1] == self.spec_tools()[k]);
                        }
                    }
                }
                return ;
            }
            proof {
                if !lex_lt(self.defs()[i as int].0, d.0) {
                    lemma_lex_lt_connected(d.0, self.defs()[i as int].0);
                }
            }
            i = i + 1;
        }
    }

    /// Removes the tool of the given name from the registry, if present;
    /// an absent name changes nothing. Every surviving entry keeps both its
    /// definition and its tool.
    pub fn unregister(&mut self, name: &str)
        requires
            old(self).wf(),
        ensures
            final(self).wf(),
            final(self).defs() == remove_def(old(self).defs(), name@),
            !old(self).contains_name(name@) ==> *final(self) == *old(self),
            forall|i: int|
                0 <= i < final(self).defs().len() ==> entry_kept(
                    old(self).defs(),
                    old(self).spec_tools(),
                    #[trigger] final(self).defs()[i],
                    final(self).spec_tools()[i],
                ),
    {
        let ghost orig = self.defs();
        let ghost orig_tools = self.spec_tools();
        let mut i: usize = 0;
        loop
            invariant
                self == old(self),
                self.wf(),
                orig == self.defs(),
                orig_tools == self.spec_tools(),
                i <= self.entries@.len(),
                forall|k: int| 0 <= k < i ==> (#[trigger] self.defs()[k]).0 != name@,
            decreases self.entries@.len() - i,
        {
            if i == self.entries.len() {
                proof {
                    lemma_remove_def_absent(orig, name@);
                    assert forall|k: int| 0 <= k < self.defs().len() implies entry_kept(
                        orig,
                        orig_tools,
                        self.defs()[k],
                        self.spec_tools()[k],
                    ) by {
                        assert(orig[k] == self.defs()[k]);
                        assert(orig_tools[k] == self.spec_tools()[k]);
                    }
                }
                return ;
            }
            if str_eq(name, self.entries[i].definition.name.as_str()) {
                proof {
                    assert((orig[i as int]).0 == name@);
                    assert(has_name(orig, name@));
                    lemma_remove_def_at(orig, name@, i as int);
                }
                let _removed = self.entries.remove(i);
                proof {
                    assert(self.defs() =~= orig.remove(i as int));
                    assert(self.spec_tools() =~= orig_tools.remove(i as int));
                    lemma_remove_preserves_sorted(orig, i as int);
                    assert forall|k: int| 0 <= k < self.defs().len() implies entry_kept(
                        orig,
                        orig_tools,
                        self.defs()[k],
                        self.spec_tools()[k],
                    ) by {
                        if k < i as int {
                            assert(orig[k] == self.defs()[k]);
                            assert(orig_tools[k] == self.spec_tools()[k]);
                        } else {
                            assert(orig[k + 1] == self.defs()[k]);
                            assert(orig_tools[k + 1] == self.spec_tools()[k]);
                        }
                    }
                }
                return ;
            }
            i = i + 1;
        }
    }

    /// Calls the tool of the given name with the given JSON argument text.
    ///
    /// An unregistered name fails with [`CallError::NotFound`] whose message
    /// names the missing tool. For a registered name the registry first
    /// checks that the argument text is valid JSON: malformed text fails
    /// with [`CallError::ArgumentDecode`] and the tool is never invoked.
    /// Otherwise the tool decodes the text against its declared argument
    /// shape and runs, and its outcome is passed through unchanged: a decode
    /// failure becomes [`CallError::ArgumentDecode`], a tool failure becomes
    /// [`CallError::Execution`], success stays success. The set of
    /// registered definitions is unchanged either way, and only the named
    /// tool's own state may change.
    pub fn call(&mut self, name: &str, arguments: &str) -> (r: Result<String, CallError>)
        requires
            old(self).wf(),
        ensures
            final(self).wf(),
            final(self).defs() == old(self).defs(),
            !old(self).contains_name(name@) ==> (r matches Err(CallError::NotFound { message })
                && message@ == not_found_message(name@)),
            !old(self).contains_name(name@) ==> *final(self) == *old(self),
            old(self).contains_name(name@) ==> !(r matches Err(CallError::NotFound { .. })),
            old(self).contains_name(name@) && crate::llm::json_parse(arguments@) is None ==> (
            r matches Err(CallError::ArgumentDecode { .. }) && *final(self) == *old(self)),
            forall|i: int|
                0 <= i < old(self).defs().len() && (#[trigger] old(self).defs()[i]).0 != name@
                    ==> final(self).spec_tools()[i] == old(self).spec_tools()[i],
    {
        let ghost orig = self.defs();
        let ghost orig_tools = self.spec_tools();
        let mut i: usize = 0;
        loop
            invariant
                self == old(self),
                self.wf(),
                orig == self.defs(),
                orig_tools == self.spec_tools(),
                i <= self.entries@.len(),
                forall|k: int| 0 <= k < i ==> (#[trigger] self.defs()[k]).0 != name@,
            decreases self.entries@.len() - i,
        {
            if i == self.entries.len() {
                let mut message = String::from_str("Tool '");
                message.append(name);
                message.append("' not found");
                proof {
                    assert(message@ =~= not_found_message(name@));
                }
                return Err(CallError::NotFound { message });
            }
            if str_eq(name, self.entries[i].definition.name.as_str()) {
                proof {
                    assert((self.defs()[i as int]).0 == name@);
                    assert(self.contains_name(name@));
                }
                match crate::llm::parse_json(arguments) {
                    Err(parse_error) => {
                        let diagnostic = crate::llm::json_error_text(&parse_error);
                        return Err(CallError::ArgumentDecode { diagnostic });
                    },
                    Ok(_decoded) => {},
                }
                let mut entry = self.entries.remove(i);
                let outcome = entry.tool.call(arguments);
                self.entries.insert(i, entry);
                proof {
                    assert(self.defs() =~= orig);
                    assert forall|k: int|
                        0 <= k < orig.len() && (#[trigger] orig[k]).0 != name@ implies self
                            .spec_tools()[k] == orig_tools[k] by {
                        assert(k != i as int);
                    }
                }
                return dispatch_outcome(outcome);
            }
            i = i + 1;
        }
    }
}

impl<T: Tool> Default for Tools<T> {
    /// An empty registry.
    fn default() -> (tools: Tools<T>)
        ensures
            tools.defs() == Seq::<DefModel>::empty(),
            tools.wf(),
    {
        Tools::new()
    }
}

/// Maps a tool's outcome into the registry's error taxonomy: success and
/// the tool's own failure pass through, a decode failure becomes an
/// argument-decode error. Never yields `NotFound`.
pub fn dispatch_outcome(outcome: Result<String, ToolError>) -> (r: Result<String, CallError>)
    ensures
        match outcome {
            Ok(text) => r == Ok::<String, CallError>(text),
            Err(ToolError::Decode { diagnostic }) => r == Err::<String, CallError>(
                CallError::ArgumentDecode { diagnostic },
            ),
            Err(ToolError::Execution { message }) => r == Err::<String, CallError>(
                CallError::Execution { message },
            ),
        },
{
    match outcome {
        Ok(text) => Ok(text),
        Err(ToolError::Decode { diagnostic }) => Err(CallError::ArgumentDecode { diagnostic }),
        Err(ToolError::Execution { message }) => Err(CallError::Execution { message }),
    }
}

/// Inserting at a position that respects the strict order keeps the
/// sequence strictly sorted.
proof fn lemma_insert_preserves_sorted(defs: Seq<DefModel>, d: DefModel, i: int)
    requires
        sorted_by_name(defs),
        0 <= i <= defs.len(),
        forall|k: int| 0 <= k < i ==> lex_lt((#[trigger] defs[k]).0, d.0),
        i < defs.len() ==> lex_lt(d.0, defs[i].0),
    ensures
        sorted_by_name(defs.insert(i, d)),
{
    let s = defs.insert(i, d);
    assert forall|p: int, q: int| 0 <= p < q < s.len() implies lex_lt(
        (#[trigger] s[p]).0,
        (#[trigger] s[q]).0,
    ) by {
        if p < i && q == i {
        } else if p == i && q > i {
            assert(s[q] == defs[q - 1]);
            if q - 1 > i {
                lemma_lex_lt_transitive(d.0, defs[i].0, defs[q - 1].0);
            }
        } else if p < i && q > i {
            assert(s[p] == defs[p]);
            assert(s[q] == defs[q - 1]);
            if q - 1 > i {
                lemma_lex_lt_transitive(d.0, defs[i].0, defs[q - 1].0);
            }
            lemma_lex_lt_transitive(defs[p].0, d.0, defs[q - 1].0);
        } else if q < i {
            assert(s[p] == defs[p]);
            assert(s[q] == defs[q]);
        } else if p > i {
            assert(s[p] == defs[p - 1]);
            assert(s[q] == defs[q - 1]);
        }
    }
}

/// Replacing an entry by one of the same name keeps the sequence strictly
/// sorted.
proof fn lemma_update_same_name_preserves_sorted(defs: Seq<DefModel>, d: DefModel, i: int)
    requires
        sorted_by_name(defs),
        0 <= i < defs.len(),
        defs[i].0 == d.0,
    ensures
        sorted_by_name(defs.update(i, d)),
{
    let s = defs.update(i, d);
    assert forall|p: int, q: int| 0 <= p < q < s.len() implies lex_lt(
        (#[trigger] s[p]).0,
        (#[trigger] s[q]).0,
    ) by {
        assert(s[p].0 == defs[p].0);
        assert(s[q].0 == defs[q].0);
    }
}

/// Removing an entry keeps the sequence strictly sorted.
proof fn lemma_remove_preserves_sorted(defs: Seq<DefModel>, i: int)
    requires
        sorted_by_name(defs),
        0 <= i < defs.len(),
    ensures
        sorted_by_name(defs.remove(i)),
{
    let s = defs.remove(i);
    assert forall|p: int, q: int| 0 <= p < q < s.len() implies lex_lt(
        (#[trigger] s[p]).0,
        (#[trigger] s[q]).0,
    ) by {
        if p < i {
            assert(s[p] == defs[p]);
        } else {
            assert(s[p] == defs[p + 1]);
        }
        if q < i {
            assert(s[q] == defs[q]);
        } else {
            assert(s[q] == defs[q + 1]);
        }
    }
}

} // verus!
