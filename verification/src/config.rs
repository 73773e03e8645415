//! The configuration with which a store is opened: the storage engine, and
//! the storage options that the caller passes, looked up by key.
use vstd::prelude::*;

verus! {

/// The value bound to `key` in `options`: that of the last pair whose key is
/// `key`, as in a map filled from the pairs in order.
pub open spec fn option_value(options: Seq<(String, String)>, key: Seq<char>) -> Option<Seq<char>>
    decreases options.len(),
{
    if options.len() == 0 {
        None
    } else if options.last().0@ == key {
        Some(options.last().1@)
    } else {
        option_value(options.drop_last(), key)
    }
}

/// A lookup finds only a value bound to exactly the asked key, the one of the
/// last pair with that key; it finds nothing when no pair has that key.
pub proof fn lemma_option_value(options: Seq<(String, String)>, key: Seq<char>)
    ensures
        option_value(options, key) matches Some(v) ==> exists|i: int|
            0 <= i < options.len() && #[trigger] options[i].0@ == key && options[i].1@ == v
                && forall|j: int| i < j < options.len() ==> #[trigger] options[j].0@ != key,
        option_value(options, key) is None ==> forall|i: int|
            0 <= i < options.len() ==> #[trigger] options[i].0@ != key,
    decreases options.len(),
{
    if options.len() > 0 {
        let n = options.len() - 1;
        let rest = options.drop_last();
        lemma_option_value(rest, key);
        if options.last().0@ == key {
            assert(options[n].0@ == key);
        } else {
            assert forall|i: int| 0 <= i < n implies options[i] == rest[i] by {}
            if let Some(v) = option_value(rest, key) {
                let i = choose|i: int|
                    0 <= i < rest.len() && #[trigger] rest[i].0@ == key && rest[i].1@ == v
                        && forall|j: int| i < j < rest.len() ==> #[trigger] rest[j].0@ != key;
                assert(options[i].0@ == key);
                assert forall|j: int| i < j < options.len() implies #[trigger] options[j].0@ != key by {
                    if j < n {
                        assert(rest[j].0@ != key);
                    }
                }
            } else {
                assert forall|i: int| 0 <= i < options.len() implies #[trigger] options[i].0@ != key by {
                    if i < n {
                        assert(rest[i].0@ != key);
                    }
                }
            }
        }
    }
}

/// The view of an optional string.
pub open spec fn opt_view(s: Option<String>) -> Option<Seq<char>> {
    match s {
        Some(v) => Some(v@),
        None => None,
    }
}

/// The key of the option that names the directory of the store's data.
pub open spec fn data_path_key() -> Seq<char> {
    "store.data.path"@
}

/// The key of the option that names the logging configuration file.
pub open spec fn log_config_key() -> Seq<char> {
    "log4rs.config"@
}

/// A store configuration: the storage engine and the storage options.
#[derive(Clone, Debug)]
pub struct StoreConfig {
    engine: String,
    options: Vec<(String, String)>,
}

impl StoreConfig {
    /// The name of the storage engine.
    pub closed spec fn spec_engine(&self) -> Seq<char> {
        self.engine@
    }

    /// The storage options, in the order they were given.
    pub closed spec fn spec_options(&self) -> Seq<(String, String)> {
        self.options@
    }

    /// The configuration of a store on the RocksDB engine with the storage
    /// options `options`.
    pub fn new(options: Vec<(String, String)>) -> (c: StoreConfig)
        ensures
            c.spec_engine() == "rocksdb"@,
            c.spec_options() == options@,
    {
        StoreConfig { engine: "rocksdb".to_owned(), options }
    }

    /// The name of the storage engine.
    pub fn engine(&self) -> (e: &String)
        ensures
            e@ == self.spec_engine(),
    {
        &self.engine
    }

    /// The storage options, in the order they were given.
    pub fn options(&self) -> (o: &Vec<(String, String)>)
        ensures
            o@ == self.spec_options(),
    {
        &self.options
    }

    /// The value of the storage option `key`, if it is set.
    pub fn storage_option(&self, key: &str) -> (v: Option<String>)
        ensures
            opt_view(v) == option_value(self.spec_options(), key@),
            v matches Some(s) ==> exists|i: int|
                0 <= i < self.spec_options().len() && #[trigger] self.spec_options()[i].0@ == key@
                    && self.spec_options()[i].1@ == s@ && forall|j: int|
                    i < j < self.spec_options().len() ==> #[trigger] self.spec_options()[j].0@
                        != key@,
            v is None ==> forall|i: int|
                0 <= i < self.spec_options().len() ==> #[trigger] self.spec_options()[i].0@
                    != key@,
    {
        let v = self.lookup(key);
        proof {
            lemma_option_value(self.options@, key@);
        }
        v
    }

    /// The value of the last pair whose key is `key`.
    fn lookup(&self, key: &str) -> (v: Option<String>)
        ensures
            opt_view(v) == option_value(self.options@, key@),
    {
        let k = key.to_owned();
        let mut i = self.options.len();
        assert(self.options@.take(i as int) =~= self.options@);
        while i > 0
            invariant
                i <= self.options.len(),
                k@ == key@,
                option_value(self.options@, key@) == option_value(
                    self.options@.take(i as int),
                    key@,
                ),
            decreases i,
        {
            let ghost prefix = self.options@.take(i as int);
            assert(prefix.drop_last() =~= self.options@.take(i - 1));
            if self.options[i - 1].0 == k {
                return Some(self.options[i - 1].1.clone());
            }
            i = i - 1;
        }
        assert(self.options@.take(0) =~= Seq::<(String, String)>::empty());
        None
    }

    /// The directory of the store's data, if the options name one.
    pub fn data_path(&self) -> (v: Option<String>)
        ensures
            opt_view(v) == option_value(self.spec_options(), data_path_key()),
    {
        self.storage_option("store.data.path")
    }

    /// The logging configuration file, if the options name one.
    pub fn log_config_file(&self) -> (v: Option<String>)
        ensures
            opt_view(v) == option_value(self.spec_options(), log_config_key()),
    {
        self.storage_option("log4rs.config")
    }
}

} // verus!
