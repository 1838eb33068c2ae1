use vstd::prelude::*;
use crate::value::{NodeId, Value};

verus! {

/// One write into the per-run value cache.
#[derive(Debug)]
pub struct CacheEntry {
    pub node_id: NodeId,
    pub name: String,
    pub value: Value,
}

/// The cache as its sequence of writes: node, output name, value.
pub type CacheView = Seq<(NodeId, Seq<char>, Value)>;

/// The latest value written under `(id, name)` among `entries`.
pub open spec fn lookup(entries: CacheView, id: NodeId, name: Seq<char>) -> Option<Value>
    decreases entries.len(),
{
    if entries.len() == 0 {
        None
    } else {
        let last = entries.last();
        if last.0 == id && last.1 == name {
            Some(last.2)
        } else {
            lookup(entries.drop_last(), id, name)
        }
    }
}

/// The per-run value cache, keyed by node and output socket name. Writes
/// are appended; a later write under the same key shadows an earlier one,
/// and nothing is ever removed during a run.
pub struct ExistingValues {
    pub entries: Vec<CacheEntry>,
}

impl View for ExistingValues {
    type V = CacheView;

    open spec fn view(&self) -> CacheView {
        self.entries@.map_values(|e: CacheEntry| (e.node_id, e.name@, e.value))
    }
}

impl ExistingValues {
    pub open spec fn get(&self, id: NodeId, name: Seq<char>) -> Option<Value> {
        lookup(self@, id, name)
    }

    pub fn new() -> (r: Self)
        ensures
            r@ == CacheView::empty(),
    {
        let r = ExistingValues { entries: Vec::new() };
        assert(r@ =~= CacheView::empty());
        r
    }

    /// Records `value` under `(node_id, name)`.
    pub fn set_value(&mut self, node_id: NodeId, name: String, value: Value)
        ensures
            final(self)@ == old(self)@.push((node_id, name@, value)),
    {
        self.entries.push(CacheEntry { node_id, name, value });
        assert(self@ =~= old(self)@.push((node_id, name@, value)));
    }

    /// The latest value written under `(node_id, name)`, if any.
    pub fn get_value(&self, node_id: NodeId, name: &String) -> (r: Option<Value>)
        ensures
            r == self.get(node_id, name@),
    {
        let mut i: usize = self.entries.len();
        assert(self@.subrange(0, i as int) =~= self@);
        while i > 0
            invariant
                i <= self.entries@.len(),
                self@.len() == self.entries@.len(),
                self.get(node_id, name@) == lookup(self@.subrange(0, i as int), node_id, name@),
            decreases i,
        {
            let e = &self.entries[i - 1];
            assert(self@.subrange(0, i as int).drop_last() =~= self@.subrange(0, i - 1));
            if e.node_id == node_id && e.name == *name {
                return Some(e.value);
            }
            i = i - 1;
        }
        None
    }
}

} // verus!
