//! A log backend in memory: queryable, indexed by id, ordered, versioned.

use crate::buffer::octets;
use crate::error::BackendError;
use crate::logbackend::{
    append_version, latest_version, versions, LogBackend, LogModel, Queryable, Writable,
};
use bytes::Bytes;
use std::collections::BTreeMap;
use vstd::prelude::*;
use vstd::std_specs::iter::IteratorSpec;

verus! {

/// Keeps, for each id, every version written under it; the last one is the
/// entry's current content.
pub struct HeapLogBackend {
    table: BTreeMap<u64, Vec<Bytes>>,
}

impl View for HeapLogBackend {
    type V = Map<u64, Seq<Seq<u8>>>;

    /// The log as plain values: for each id its versions, oldest first.
    closed spec fn view(&self) -> Map<u64, Seq<Seq<u8>>> {
        Map::new(
            |id: u64| self.table@.contains_key(id),
            |id: u64| self.table@[id]@.map_values(|b: Bytes| octets(b)),
        )
    }
}

impl HeapLogBackend {
    /// An empty log.
    pub fn new() -> (r: HeapLogBackend)
        ensures
            r@ == Map::<u64, Seq<Seq<u8>>>::empty(),
    {
        let r = HeapLogBackend { table: BTreeMap::new() };
        assert(r@ =~= Map::<u64, Seq<Seq<u8>>>::empty());
        r
    }

    /// How many ids have an entry.
    pub fn len(&self) -> (n: usize)
        ensures
            n == self@.dom().len(),
    {
        broadcast use vstd::std_specs::btree::group_btree_axioms;

        assert(self@.dom() =~= self.table@.dom());
        self.table.len()
    }

    /// Every version written under `id`, oldest first.
    pub fn history(&self, id: u64) -> (r: Vec<Bytes>)
        ensures
            r@.map_values(|b: Bytes| octets(b)) == versions(self@, id),
    {
        broadcast use vstd::std_specs::btree::group_btree_axioms;

        let mut r: Vec<Bytes> = Vec::new();
        match self.table.get(&id) {
            Some(list) => {
                let mut i: usize = 0;
                while i < list.len()
                    invariant
                        i <= list@.len(),
                        r@.len() == i,
                        forall|k: int| 0 <= k < i ==> octets(r@[k]) == octets(list@[k]),
                    decreases list@.len() - i,
                {
                    r.push(list[i].clone());
                    i += 1;
                }
                assert(r@.map_values(|b: Bytes| octets(b)) =~= versions(self@, id));
            },
            None => {
                assert(r@.map_values(|b: Bytes| octets(b)) =~= versions(self@, id));
            },
        }
        r
    }

    /// The ids that have an entry, each once, in the order of the map.
    pub fn ids(&self) -> (r: Vec<u64>)
        ensures
            r@.to_set() == self@.dom(),
            r@.len() == self@.dom().len(),
    {
        broadcast use vstd::std_specs::btree::group_btree_axioms;

        let mut r: Vec<u64> = Vec::new();
        let keys = self.table.keys();
        let ghost all = keys.remaining().unref();
        for k in it: keys
            invariant
                it.seq().unref() == all,
                r@ == all.subrange(0, it.index() as int),
        {
            r.push(*k);
            assert(r@ =~= all.subrange(0, it.index() + 1));
        }
        assert(r@ =~= all);
        assert(self@.dom() =~= self.table@.dom());
        r
    }
}

impl LogModel for HeapLogBackend {
    open spec fn faithful() -> bool {
        true
    }

    open spec fn unfailing() -> bool {
        true
    }

    open spec fn entries(&self) -> Map<u64, Seq<Seq<u8>>> {
        self@
    }
}

impl Writable for HeapLogBackend {
    /// Adds `data` as the newest version of `id`. Never fails.
    fn write(&mut self, id: u64, data: Bytes) -> (r: Result<(), BackendError>)
        ensures
            r is Ok,
            final(self)@ == append_version(old(self)@, id, octets(data)),
    {
        broadcast use vstd::std_specs::btree::group_btree_axioms;

        let ghost before = self@;
        let ghost table0 = self.table@;
        let mut list: Vec<Bytes> = match self.table.remove(&id) {
            Some(list) => list,
            None => Vec::new(),
        };
        let ghost kept = list@.map_values(|b: Bytes| octets(b));
        assert(kept =~= versions(before, id));
        list.push(data);
        assert(list@.map_values(|b: Bytes| octets(b)) =~= kept.push(octets(data)));
        self.table.insert(id, list);
        let ghost after = append_version(before, id, octets(data));
        assert forall|k: u64| self@.contains_key(k) == after.contains_key(k) by {
            assert(self.table@.contains_key(k) == (k == id || table0.contains_key(k)));
        }
        assert forall|k: u64| self@.contains_key(k) implies self@[k] == after[k] by {
            if k != id {
                assert(self.table@[k] == table0[k]);
            }
        }
        assert(self@ =~= after);
        Ok(())
    }
}

impl Queryable for HeapLogBackend {
    /// Returns the newest version of `id`; fails exactly when nothing was
    /// written under `id`.
    fn query(&self, id: u64) -> (r: Result<Bytes, BackendError>)
        ensures
            match latest_version(self@, id) {
                Some(data) => r is Ok && octets(r.unwrap()) == data,
                None => r == Err::<Bytes, BackendError>(BackendError::NotFound),
            },
    {
        broadcast use vstd::std_specs::btree::group_btree_axioms;

        match self.table.get(&id) {
            Some(list) => {
                if list.len() == 0 {
                    Err(BackendError::NotFound)
                } else {
                    Ok(list[list.len() - 1].clone())
                }
            },
            None => Err(BackendError::NotFound),
        }
    }
}

impl LogBackend for HeapLogBackend {

}

} // verus!
