//! The resolver's tables: the global symbol table (namespace and simple name
//! to definition identity), the per-namespace open table, the lexical scope
//! stack, and the dense node-indexed resolution map.
//!
//! The string-keyed tables are association lists kept in insertion order, so
//! every enumeration the resolver makes over them is deterministic. A later
//! entry for the same key overwrites an earlier one, which the lookup
//! functions express by scanning from the end.

use vstd::prelude::*;
use crate::ast::{NodeId, Span};
use crate::names::DefId;

verus! {

/// Last-wins lookup of `name` in an association list of scopes' bindings,
/// innermost bindings last.
pub open spec fn scope_lookup(pairs: Seq<(String, DefId)>, name: Seq<char>) -> Option<DefId>
    decreases pairs.len(),
{
    if pairs.len() == 0 {
        None
    } else if pairs.last().0@ == name {
        Some(pairs.last().1)
    } else {
        scope_lookup(pairs.drop_last(), name)
    }
}

/// Last-wins lookup of `name` in namespace `ns` in the global table's entries.
pub open spec fn global_lookup(
    entries: Seq<(String, String, DefId)>,
    ns: Seq<char>,
    name: Seq<char>,
) -> Option<DefId>
    decreases entries.len(),
{
    if entries.len() == 0 {
        None
    } else if entries.last().0@ == ns && entries.last().1@ == name {
        Some(entries.last().2)
    } else {
        global_lookup(entries.drop_last(), ns, name)
    }
}

/// One of the two global symbol tables (type names or term names), keyed by
/// namespace name and simple declared name. Binding the same pair again
/// overwrites the earlier definition.
pub struct Globals {
    pub entries: Vec<(String, String, DefId)>,
}

impl View for Globals {
    type V = Seq<(String, String, DefId)>;

    open spec fn view(&self) -> Seq<(String, String, DefId)> {
        self.entries@
    }
}

impl Globals {
    pub fn new() -> (r: Globals)
        ensures
            r@ == Seq::<(String, String, DefId)>::empty(),
    {
        Globals { entries: Vec::new() }
    }

    /// Binds `name` in namespace `ns` to `id`, shadowing any earlier binding
    /// of the same pair.
    pub fn bind(&mut self, ns: String, name: String, id: DefId)
        ensures
            final(self)@ == old(self)@.push((ns, name, id)),
    {
        self.entries.push((ns, name, id));
    }

    fn get_from(&self, ns: &String, name: &String, i: usize) -> (r: Option<DefId>)
        requires
            i <= self@.len(),
        ensures
            r == global_lookup(self@.take(i as int), ns@, name@),
        decreases i,
    {
        if i == 0 {
            None
        } else {
            let e = &self.entries[i - 1];
            proof {
                assert(self@.take(i as int).last() == self@[i - 1]);
                assert(self@.take(i as int).drop_last() =~= self@.take(i - 1));
            }
            if e.0 == *ns && e.1 == *name {
                Some(e.2)
            } else {
                self.get_from(ns, name, i - 1)
            }
        }
    }

    /// The definition `name` denotes in namespace `ns`, if any.
    pub fn get(&self, ns: &String, name: &String) -> (r: Option<DefId>)
        ensures
            r == global_lookup(self@, ns@, name@),
    {
        let r = self.get_from(ns, name, self.entries.len());
        proof {
            assert(self@.take(self@.len() as int) =~= self@);
        }
        r
    }
}

/// One explicit `open` directive in force: the alias it was opened under
/// (empty for a direct open), the opened namespace, and the span of the
/// directive's namespace name.
pub struct OpenEntry {
    pub alias: String,
    pub ns: String,
    pub span: Span,
}

/// The mathematical shape of an open directive in force.
pub ghost struct OpenV {
    pub alias: Seq<char>,
    pub ns: Seq<char>,
    pub span: Span,
}

impl View for OpenEntry {
    type V = OpenV;

    open spec fn view(&self) -> OpenV {
        OpenV { alias: self.alias@, ns: self.ns@, span: self.span }
    }
}

/// The opens taken to their mathematical shape, order kept.
pub open spec fn opens_v(entries: Seq<OpenEntry>) -> Seq<OpenV> {
    entries.map_values(|e: OpenEntry| e@)
}

/// The opens in force for the namespace being walked, in source order.
/// Rebuilt on entry to every namespace.
pub struct OpenTable {
    pub entries: Vec<OpenEntry>,
}

impl View for OpenTable {
    type V = Seq<OpenEntry>;

    open spec fn view(&self) -> Seq<OpenEntry> {
        self.entries@
    }
}

impl OpenTable {
    pub fn new() -> (r: OpenTable)
        ensures
            r@ == Seq::<OpenEntry>::empty(),
    {
        OpenTable { entries: Vec::new() }
    }

    pub fn add(&mut self, alias: String, ns: String, span: Span)
        ensures
            final(self)@ == old(self)@.push(OpenEntry { alias, ns, span }),
    {
        self.entries.push(OpenEntry { alias, ns, span });
    }
}

/// The resolution map: a dense, node-id-indexed mapping from every resolved
/// name occurrence to the definition it denotes.
pub struct Resolutions {
    pub slots: Vec<Option<DefId>>,
}

impl View for Resolutions {
    type V = Map<NodeId, DefId>;

    open spec fn view(&self) -> Map<NodeId, DefId> {
        Map::new(
            |k: NodeId| k < self.slots@.len() && self.slots@[k as int] is Some,
            |k: NodeId| self.slots@[k as int].unwrap(),
        )
    }
}

impl Resolutions {
    pub fn new() -> (r: Resolutions)
        ensures
            r@ == Map::<NodeId, DefId>::empty(),
    {
        let r = Resolutions { slots: Vec::new() };
        proof {
            assert(r@ =~= Map::<NodeId, DefId>::empty());
        }
        r
    }

    /// Records that node `node` resolves to `id`.
    pub fn insert(&mut self, node: NodeId, id: DefId)
        ensures
            final(self)@ == old(self)@.insert(node, id),
    {
        let idx = node as usize;
        while self.slots.len() <= idx
            invariant
                old(self).slots@.len() <= self.slots@.len(),
                self.slots@ == old(self).slots@ + Seq::new(
                    (self.slots@.len() - old(self).slots@.len()) as nat,
                    |j: int| None::<DefId>,
                ),
            decreases idx + 1 - self.slots.len(),
        {
            self.slots.push(None);
            proof {
                assert(self.slots@ =~= old(self).slots@ + Seq::new(
                    (self.slots@.len() - old(self).slots@.len()) as nat,
                    |j: int| None::<DefId>,
                ));
            }
        }
        self.slots.set(idx, Some(id));
        proof {
            assert(self@ =~= old(self)@.insert(node, id));
        }
    }

    /// What `node` was resolved to, if anything.
    pub fn get(&self, node: NodeId) -> (r: Option<DefId>)
        ensures
            r == if self@.contains_key(node) {
                Some(self@[node])
            } else {
                None::<DefId>
            },
    {
        let idx = node as usize;
        if idx < self.slots.len() {
            self.slots[idx]
        } else {
            None
        }
    }
}

} // verus!
