//! The directory of a cluster: which endpoints play which role.

use crate::search::{first_index, lemma_first_index_at};
use crate::text::{clone_strings, holds_str, str_eq, texts};
use vstd::prelude::*;

verus! {

/// A directory as plain values: role names with their endpoints, in the
/// order in which the roles were first entered.
pub type BookView = Seq<(Seq<char>, Seq<Seq<char>>)>;

/// Where the first entry named `role` stands, or the number of entries if
/// there is none.
pub open spec fn role_index(book: BookView, role: Seq<char>) -> int {
    first_index(book, |e: (Seq<char>, Seq<Seq<char>>)| e.0 == role)
}

/// Where the first entry that lists `address` stands, or the number of
/// entries if there is none.
pub open spec fn address_index(book: BookView, address: Seq<char>) -> int {
    first_index(book, |e: (Seq<char>, Seq<Seq<char>>)| e.1.contains(address))
}

/// The endpoints entered under `role`.
pub open spec fn lookup(book: BookView, role: Seq<char>) -> Option<Seq<Seq<char>>> {
    let i = role_index(book, role);
    if 0 <= i < book.len() {
        Some(book[i].1)
    } else {
        None
    }
}

/// The role that `address` plays: the first one that lists it.
pub open spec fn role_of(book: BookView, address: Seq<char>) -> Option<Seq<char>> {
    let i = address_index(book, address);
    if 0 <= i < book.len() {
        Some(book[i].0)
    } else {
        None
    }
}

/// The directory once `endpoints` are entered under `role`: they take the
/// place of what the role listed before, or the role is added at the end.
pub open spec fn put(book: BookView, role: Seq<char>, endpoints: Seq<Seq<char>>) -> BookView {
    let i = role_index(book, role);
    if 0 <= i < book.len() {
        book.update(i, (role, endpoints))
    } else {
        book.push((role, endpoints))
    }
}

/// The name under which the directory lists the coordinator: `master`, or
/// else `president`.
pub open spec fn master_name(book: BookView) -> Option<Seq<char>> {
    if lookup(book, "master"@) is Some {
        Some("master"@)
    } else if lookup(book, "president"@) is Some {
        Some("president"@)
    } else {
        None
    }
}

/// The name under which the directory lists the voters: `worker`, or else
/// `senator`.
pub open spec fn worker_name(book: BookView) -> Option<Seq<char>> {
    if lookup(book, "worker"@) is Some {
        Some("worker"@)
    } else if lookup(book, "senator"@) is Some {
        Some("senator"@)
    } else {
        None
    }
}

/// The coordinator's endpoints.
pub open spec fn masters(book: BookView) -> Seq<Seq<char>> {
    match master_name(book) {
        Some(name) => lookup(book, name).unwrap(),
        None => Seq::empty(),
    }
}

/// The voters' endpoints.
pub open spec fn workers(book: BookView) -> Seq<Seq<char>> {
    match worker_name(book) {
        Some(name) => lookup(book, name).unwrap(),
        None => Seq::empty(),
    }
}

/// Whether `address` is one of the coordinator's endpoints and plays no
/// role that is listed earlier.
pub open spec fn is_master(book: BookView, address: Seq<char>) -> bool {
    role_of(book, address) is Some && role_of(book, address) == master_name(book)
}

/// Whether `address` is one of the voters' endpoints and plays no role that
/// is listed earlier.
pub open spec fn is_worker(book: BookView, address: Seq<char>) -> bool {
    role_of(book, address) is Some && role_of(book, address) == worker_name(book)
}

/// One role with its endpoints.
struct Entry {
    role: String,
    endpoints: Vec<String>,
}

/// The directory that lets the roles address each other and tell who a
/// sender is.
pub struct AddressBook {
    entries: Vec<Entry>,
}

impl View for AddressBook {
    type V = BookView;

    closed spec fn view(&self) -> BookView {
        self.entries@.map_values(|e: Entry| (e.role@, texts(e.endpoints@)))
    }
}

impl Clone for AddressBook {
    /// A copy that lists the same endpoints under the same roles.
    fn clone(&self) -> (r: Self)
        ensures
            r@ == self@,
    {
        let mut entries: Vec<Entry> = Vec::new();
        let mut i: usize = 0;
        while i < self.entries.len()
            invariant
                i <= self.entries@.len(),
                entries@.len() == i,
                forall|k: int|
                    0 <= k < i ==> entries@[k].role@ == self.entries@[k].role@ && texts(
                        entries@[k].endpoints@,
                    ) == texts(self.entries@[k].endpoints@),
            decreases self.entries@.len() - i,
        {
            entries.push(
                Entry {
                    role: self.entries[i].role.clone(),
                    endpoints: clone_strings(&self.entries[i].endpoints),
                },
            );
            i += 1;
        }
        let r = AddressBook { entries };
        assert(r@ =~= self@);
        r
    }
}

impl AddressBook {
    /// A directory without entries.
    pub fn new() -> (r: AddressBook)
        ensures
            r@ == BookView::empty(),
    {
        let r = AddressBook { entries: Vec::new() };
        assert(r@ =~= BookView::empty());
        r
    }

    /// Where the first entry named `role` stands.
    fn find(&self, role: &str) -> (i: usize)
        ensures
            i == role_index(self@, role@),
            i <= self.entries@.len(),
    {
        let mut i: usize = 0;
        while i < self.entries.len()
            invariant
                i <= self.entries@.len(),
                forall|k: int| 0 <= k < i ==> (#[trigger] self@[k]).0 != role@,
            decreases self.entries@.len() - i,
        {
            if str_eq(self.entries[i].role.as_str(), role) {
                proof {
                    assert(self@[i as int].0 == role@);
                    lemma_first_index_at(
                        self@,
                        |e: (Seq<char>, Seq<Seq<char>>)| e.0 == role@,
                        i as int,
                    );
                }
                return i;
            }
            i += 1;
        }
        proof {
            lemma_first_index_at(
                        self@,
                        |e: (Seq<char>, Seq<Seq<char>>)| e.0 == role@,
                        i as int,
                    );
        }
        i
    }

    /// Enters `endpoints` under `role`, in place of what the role listed
    /// before.
    pub fn insert(&mut self, role: String, endpoints: Vec<String>)
        ensures
            final(self)@ == put(old(self)@, role@, texts(endpoints@)),
    {
        let i: usize = self.find(role.as_str());
        let ghost before = self@;
        let ghost entry = (role@, texts(endpoints@));
        if i < self.entries.len() {
            self.entries.set(i, Entry { role, endpoints });
            assert(self@ =~= before.update(i as int, entry));
        } else {
            self.entries.push(Entry { role, endpoints });
            assert(self@ =~= before.push(entry));
        }
    }

    /// The endpoints entered under `role`.
    pub fn get(&self, role: &str) -> (r: Option<Vec<String>>)
        ensures
            r is Some <==> lookup(self@, role@) is Some,
            r matches Some(list) ==> lookup(self@, role@) == Some(texts(list@)),
    {
        let i: usize = self.find(role);
        if i < self.entries.len() {
            Some(clone_strings(&self.entries[i].endpoints))
        } else {
            None
        }
    }

    /// Whether the directory has an entry named `role`.
    pub fn lists(&self, role: &str) -> (r: bool)
        ensures
            r == lookup(self@, role@) is Some,
    {
        let i: usize = self.find(role);
        i < self.entries.len()
    }

    /// The role that `address` plays: the first one that lists it.
    pub fn role_of(&self, address: &str) -> (r: Option<String>)
        ensures
            r is Some <==> role_of(self@, address@) is Some,
            r matches Some(role) ==> role_of(self@, address@) == Some(role@),
    {
        let mut i: usize = 0;
        while i < self.entries.len()
            invariant
                i <= self.entries@.len(),
                forall|k: int| 0 <= k < i ==> !(#[trigger] self@[k]).1.contains(address@),
            decreases self.entries@.len() - i,
        {
            if holds_str(&self.entries[i].endpoints, address) {
                proof {
                    assert(self@[i as int].1.contains(address@));
                    lemma_first_index_at(
                        self@,
                        |e: (Seq<char>, Seq<Seq<char>>)| e.1.contains(address@),
                        i as int,
                    );
                }
                return Some(self.entries[i].role.clone());
            }
            i += 1;
        }
        proof {
            lemma_first_index_at(
                        self@,
                        |e: (Seq<char>, Seq<Seq<char>>)| e.1.contains(address@),
                        i as int,
                    );
        }
        None
    }

    /// The name under which the coordinator is listed.
    pub fn master_name(&self) -> (r: Option<String>)
        ensures
            r is Some <==> master_name(self@) is Some,
            r matches Some(name) ==> master_name(self@) == Some(name@),
    {
        if self.lists("master") {
            Some("master".to_owned())
        } else if self.lists("president") {
            Some("president".to_owned())
        } else {
            None
        }
    }

    /// The name under which the voters are listed.
    pub fn worker_name(&self) -> (r: Option<String>)
        ensures
            r is Some <==> worker_name(self@) is Some,
            r matches Some(name) ==> worker_name(self@) == Some(name@),
    {
        if self.lists("worker") {
            Some("worker".to_owned())
        } else if self.lists("senator") {
            Some("senator".to_owned())
        } else {
            None
        }
    }

    /// The coordinator's endpoints.
    pub fn masters(&self) -> (r: Vec<String>)
        ensures
            texts(r@) == masters(self@),
    {
        let list = if self.lists("master") {
            self.get("master")
        } else {
            self.get("president")
        };
        match list {
            Some(list) => list,
            None => {
                let r: Vec<String> = Vec::new();
                assert(texts(r@) =~= Seq::<Seq<char>>::empty());
                r
            },
        }
    }

    /// The voters' endpoints.
    pub fn workers(&self) -> (r: Vec<String>)
        ensures
            texts(r@) == workers(self@),
    {
        let list = if self.lists("worker") {
            self.get("worker")
        } else {
            self.get("senator")
        };
        match list {
            Some(list) => list,
            None => {
                let r: Vec<String> = Vec::new();
                assert(texts(r@) =~= Seq::<Seq<char>>::empty());
                r
            },
        }
    }

    /// How many voters the directory lists.
    pub fn worker_count(&self) -> (n: usize)
        ensures
            n == workers(self@).len(),
    {
        let i: usize = self.find("worker");
        if i < self.entries.len() {
            self.entries[i].endpoints.len()
        } else {
            let j: usize = self.find("senator");
            if j < self.entries.len() {
                self.entries[j].endpoints.len()
            } else {
                0
            }
        }
    }

    /// Whether `address` plays the coordinator's role.
    pub fn is_master(&self, address: &str) -> (r: bool)
        ensures
            r == is_master(self@, address@),
    {
        match (self.role_of(address), self.master_name()) {
            (Some(role), Some(name)) => str_eq(role.as_str(), name.as_str()),
            _ => false,
        }
    }

    /// Whether `address` plays a voter's role.
    pub fn is_worker(&self, address: &str) -> (r: bool)
        ensures
            r == is_worker(self@, address@),
    {
        match (self.role_of(address), self.worker_name()) {
            (Some(role), Some(name)) => str_eq(role.as_str(), name.as_str()),
            _ => false,
        }
    }
}

} // verus!
