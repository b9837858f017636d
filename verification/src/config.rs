//! The configuration of one node.

use crate::address_book::{put, AddressBook, BookView};
use crate::error::ConfigError;
use crate::search::{first_index, lemma_first_index_at};
use crate::text::{str_eq, texts};
use vstd::prelude::*;

verus! {

/// Which log backend a node uses.
pub enum LogType {
    /// Entries are kept in memory.
    Heap,
    /// Entries are appended to the file at this path.
    File(String),
}

/// A choice of log backend as plain values.
pub enum LogTypeView {
    Heap,
    File(Seq<char>),
}

impl View for LogType {
    type V = LogTypeView;

    open spec fn view(&self) -> LogTypeView {
        match self {
            LogType::Heap => LogTypeView::Heap,
            LogType::File(path) => LogTypeView::File(path@),
        }
    }
}

impl Clone for LogType {
    /// A copy of the choice.
    fn clone(&self) -> (r: Self)
        ensures
            r@ == self@,
    {
        match self {
            LogType::Heap => LogType::Heap,
            LogType::File(path) => LogType::File(path.clone()),
        }
    }
}

/// What a configuration file says of one instance.
pub struct Config {
    api: Option<String>,
    address: String,
    address_book: Vec<(String, String)>,
    log_backend: Option<LogType>,
}

/// A configuration as plain values.
pub struct ConfigView {
    /// Where the admin interface listens, if the file says so.
    pub api: Option<Seq<char>>,
    /// Where this node's transport is bound.
    pub address: Seq<char>,
    /// The other nodes: a name and an endpoint each, in the file's order.
    pub address_book: Seq<(Seq<char>, Seq<char>)>,
    /// The log backend, if the file names one.
    pub log_backend: Option<LogTypeView>,
}

/// A list of names with endpoints as plain values.
pub open spec fn pairs_view(pairs: Seq<(String, String)>) -> Seq<(Seq<char>, Seq<char>)> {
    pairs.map_values(|p: (String, String)| (p.0@, p.1@))
}

/// The endpoints of a list of names with endpoints, in order.
pub open spec fn endpoints_of(pairs: Seq<(Seq<char>, Seq<char>)>) -> Seq<Seq<char>> {
    pairs.map_values(|p: (Seq<char>, Seq<char>)| p.1)
}

/// Where the first configuration named `name` stands, or the number of
/// configurations if there is none.
pub open spec fn named_index(names: Seq<Seq<char>>, name: Seq<char>) -> int {
    first_index(names, |n: Seq<char>| n == name)
}

/// The names of a file's configurations, in order.
pub open spec fn names_of(entries: Seq<(String, Config)>) -> Seq<Seq<char>> {
    entries.map_values(|e: (String, Config)| e.0@)
}

impl View for Config {
    type V = ConfigView;

    closed spec fn view(&self) -> ConfigView {
        ConfigView {
            api: match self.api {
                Some(api) => Some(api@),
                None => None,
            },
            address: self.address@,
            address_book: pairs_view(self.address_book@),
            log_backend: match self.log_backend {
                Some(kind) => Some(kind@),
                None => None,
            },
        }
    }
}

impl Config {
    /// A configuration with these settings.
    pub fn new(
        api: Option<String>,
        address: String,
        address_book: Vec<(String, String)>,
        log_backend: Option<LogType>,
    ) -> (r: Config)
        ensures
            r@ == (ConfigView {
                api: match api {
                    Some(api) => Some(api@),
                    None => None,
                },
                address: address@,
                address_book: pairs_view(address_book@),
                log_backend: match log_backend {
                    Some(kind) => Some(kind@),
                    None => None,
                },
            }),
    {
        Config { api, address, address_book, log_backend }
    }

    /// Where the admin interface listens: `127.0.0.1:8000` unless the file
    /// says otherwise.
    pub fn api(&self) -> (r: String)
        ensures
            r@ == match self@.api {
                Some(api) => api,
                None => "127.0.0.1:8000"@,
            },
    {
        match &self.api {
            Some(api) => api.clone(),
            None => "127.0.0.1:8000".to_owned(),
        }
    }

    /// Where this node's transport is bound.
    pub fn address(&self) -> (r: String)
        ensures
            r@ == self@.address,
    {
        self.address.clone()
    }

    /// The other nodes: a name and an endpoint each.
    pub fn address_book(&self) -> (r: Vec<(String, String)>)
        ensures
            pairs_view(r@) == self@.address_book,
    {
        let mut r: Vec<(String, String)> = Vec::new();
        let mut i: usize = 0;
        while i < self.address_book.len()
            invariant
                i <= self.address_book@.len(),
                r@.len() == i,
                forall|k: int|
                    0 <= k < i ==> r@[k].0@ == self.address_book@[k].0@ && r@[k].1@
                        == self.address_book@[k].1@,
            decreases self.address_book@.len() - i,
        {
            r.push((self.address_book[i].0.clone(), self.address_book[i].1.clone()));
            i += 1;
        }
        assert(pairs_view(r@) =~= pairs_view(self.address_book@));
        r
    }

    /// The log backend: in memory unless the file says otherwise.
    pub fn log_backend(&self) -> (r: LogType)
        ensures
            r@ == match self@.log_backend {
                Some(kind) => kind,
                None => LogTypeView::Heap,
            },
    {
        match &self.log_backend {
            Some(kind) => kind.clone(),
            None => LogType::Heap,
        }
    }

    /// The endpoints of the other nodes, in order.
    pub fn endpoints(&self) -> (r: Vec<String>)
        ensures
            texts(r@) == endpoints_of(self@.address_book),
    {
        let mut r: Vec<String> = Vec::new();
        let mut i: usize = 0;
        while i < self.address_book.len()
            invariant
                i <= self.address_book@.len(),
                r@.len() == i,
                forall|k: int| 0 <= k < i ==> r@[k]@ == self.address_book@[k].1@,
            decreases self.address_book@.len() - i,
        {
            r.push(self.address_book[i].1.clone());
            i += 1;
        }
        assert(texts(r@) =~= endpoints_of(self@.address_book));
        r
    }

    /// The directory of a master with this configuration: every other node
    /// is a worker.
    pub fn worker_book(&self) -> (r: AddressBook)
        ensures
            r@ == put(BookView::empty(), "worker"@, endpoints_of(self@.address_book)),
    {
        let mut book = AddressBook::new();
        book.insert("worker".to_owned(), self.endpoints());
        book
    }

    /// The directory of a worker with this configuration: every other node
    /// is a master.
    pub fn master_book(&self) -> (r: AddressBook)
        ensures
            r@ == put(BookView::empty(), "master"@, endpoints_of(self@.address_book)),
    {
        let mut book = AddressBook::new();
        book.insert("master".to_owned(), self.endpoints());
        book
    }

    /// Picks the configuration named `name` out of those of a file: the
    /// first with that name. No name asks for the default configuration.
    pub fn select(entries: Vec<(String, Config)>, name: Option<String>) -> (r: Result<
        Config,
        ConfigError,
    >)
        ensures
            match name {
                None => r is Ok && r.unwrap()@ == default_view(),
                Some(n) => {
                    let i = named_index(names_of(entries@), n@);
                    if 0 <= i < entries@.len() {
                        r is Ok && r.unwrap()@ == entries@[i].1@
                    } else {
                        r == Err::<Config, ConfigError>(ConfigError::Missing)
                    }
                },
            },
    {
        let n = match name {
            Some(n) => n,
            None => {
                return Ok(Config::default());
            },
        };
        let ghost names = names_of(entries@);
        let mut list = entries;
        let mut i: usize = 0;
        while i < list.len()
            invariant
                i <= list@.len(),
                list@ == entries@,
                names == names_of(entries@),
                name == Some(n),
                forall|k: int| 0 <= k < i ==> #[trigger] names[k] != n@,
            decreases list@.len() - i,
        {
            if str_eq(list[i].0.as_str(), n.as_str()) {
                proof {
                    assert(names[i as int] == n@);
                    lemma_first_index_at(names, |x: Seq<char>| x == n@, i as int);
                }
                let found = list.swap_remove(i);
                return Ok(found.1);
            }
            i += 1;
        }
        proof {
            lemma_first_index_at(names, |x: Seq<char>| x == n@, i as int);
        }
        Err(ConfigError::Missing)
    }
}

/// The default configuration as plain values.
pub open spec fn default_view() -> ConfigView {
    ConfigView {
        api: Some("127.0.0.1:8000"@),
        address: "127.0.0.1:18000"@,
        address_book: Seq::empty(),
        log_backend: Some(LogTypeView::Heap),
    }
}

impl Default for Config {
    /// The configuration of a node that was given none.
    fn default() -> (r: Config)
        ensures
            r@ == default_view(),
    {
        let r = Config {
            api: Some("127.0.0.1:8000".to_owned()),
            address: "127.0.0.1:18000".to_owned(),
            address_book: Vec::new(),
            log_backend: Some(LogType::Heap),
        };
        assert(r@.address_book =~= Seq::<(Seq<char>, Seq<char>)>::empty());
        r
    }
}

} // verus!
