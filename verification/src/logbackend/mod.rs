//! Where decided entries are kept: what a backend owes its user, and the two
//! backends that come with the library.

pub mod file_logbackend;
pub mod heap_logbackend;

pub use file_logbackend::FileLogBackend;
pub use heap_logbackend::HeapLogBackend;

use crate::buffer::octets;
use crate::error::BackendError;
use bytes::Bytes;
use vstd::prelude::*;

verus! {

/// The versions kept under `id`, oldest first; none if nothing was written.
pub open spec fn versions(log: Map<u64, Seq<Seq<u8>>>, id: u64) -> Seq<Seq<u8>> {
    if log.contains_key(id) {
        log[id]
    } else {
        Seq::empty()
    }
}

/// The log once `data` is written under `id`: a new last version of that id.
pub open spec fn append_version(log: Map<u64, Seq<Seq<u8>>>, id: u64, data: Seq<u8>) -> Map<
    u64,
    Seq<Seq<u8>>,
> {
    log.insert(id, versions(log, id).push(data))
}

/// The version that a query for `id` finds: the one written last.
pub open spec fn latest_version(log: Map<u64, Seq<Seq<u8>>>, id: u64) -> Option<Seq<u8>> {
    if versions(log, id).len() > 0 {
        Some(versions(log, id).last())
    } else {
        None
    }
}

/// What is written under an id is what a query for that id finds next.
pub proof fn lemma_query_after_write(log: Map<u64, Seq<Seq<u8>>>, id: u64, data: Seq<u8>)
    ensures
        latest_version(append_version(log, id, data), id) == Some(data),
{
}

/// A write touches no other id.
pub proof fn lemma_write_keeps_others(
    log: Map<u64, Seq<Seq<u8>>>,
    id: u64,
    data: Seq<u8>,
    other: u64,
)
    requires
        other != id,
    ensures
        versions(append_version(log, id, data), other) == versions(log, other),
{
}

/// A write keeps every earlier version of its id, in order, before the new
/// one: the first version ever written stays the first.
pub proof fn lemma_write_extends_history(log: Map<u64, Seq<Seq<u8>>>, id: u64, data: Seq<u8>)
    ensures
        versions(append_version(log, id, data), id).drop_last() == versions(log, id),
        versions(log, id).len() > 0 ==> versions(append_version(log, id, data), id).first()
            == versions(log, id).first(),
{
    assert(versions(log, id).push(data).drop_last() =~= versions(log, id));
}

/// What a store holds, as the contracts of `write` and `query` see it.
///
/// A store that keeps those contracts says so in `faithful` and says in
/// `entries` what it holds; one that moreover never fails says so in
/// `unfailing`. Nothing is taken for granted of a store that says neither:
/// by default both are false.
pub trait LogModel {
    /// Whether stores of this type keep the contracts of `write` and
    /// `query`.
    open spec fn faithful() -> bool {
        false
    }

    /// Whether stores of this type take every write and answer every query
    /// from what they hold.
    open spec fn unfailing() -> bool {
        false
    }

    /// Every version written so far, by id, oldest first.
    open spec fn entries(&self) -> Map<u64, Seq<Seq<u8>>> {
        Map::empty()
    }
}

/// A store that takes entries.
pub trait Writable: LogModel {
    /// Commits `data` under `id`, after the versions already there.
    ///
    /// A faithful store that reports success holds `data` as the newest
    /// version of `id` and is otherwise unchanged; one that reports a
    /// failure is unchanged. An unfailing store reports success.
    fn write(&mut self, id: u64, data: Bytes) -> (r: Result<(), BackendError>)
        ensures
            Self::faithful() && r is Ok ==> final(self).entries() == append_version(
                old(self).entries(),
                id,
                octets(data),
            ),
            Self::faithful() && r is Err ==> final(self).entries() == old(self).entries(),
            Self::unfailing() ==> r is Ok,
    ;
}

/// A store that answers lookups by id.
pub trait Queryable: LogModel {
    /// Returns the most recent version kept under `id`.
    ///
    /// What a faithful store returns is the newest version of `id`, and it
    /// reports that nothing was found only where there is none. It may fail
    /// otherwise, or not offer lookups at all, unless it is unfailing: then
    /// it returns the newest version wherever there is one, and reports that
    /// nothing was found where there is none.
    fn query(&self, id: u64) -> (r: Result<Bytes, BackendError>)
        ensures
            Self::faithful() ==> (r matches Ok(data) ==> latest_version(self.entries(), id)
                == Some(octets(data))),
            Self::faithful() ==> (r == Err::<Bytes, BackendError>(BackendError::NotFound)
                ==> latest_version(self.entries(), id) is None),
            Self::faithful() && Self::unfailing() ==> (latest_version(self.entries(), id) is Some
                ==> r is Ok),
            Self::faithful() && Self::unfailing() ==> (latest_version(self.entries(), id) is None
                ==> r == Err::<Bytes, BackendError>(BackendError::NotFound)),
    ;
}

/// A store that does both.
pub trait LogBackend: Queryable + Writable {

}

} // verus!
