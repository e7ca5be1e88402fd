//! The cache key scheme and what a read of the cache store can yield.
//!
//! A key names the record of one namespace, one scope and one window of
//! time. It is the location of the record in the store, so a record
//! expires by itself: once the clock has left the window, the same request
//! maps to another key.

use vstd::prelude::*;
use crate::clock::{
    get_date_formatted, lemma_stamp_identifies_window, stamp, window, Granularity, Moment,
};
use crate::code_map::CodeMap;
use crate::error::Failure;
use crate::exchange::{codes_match, Currencies, Currency};

verus! {

/// The kinds of record the cache holds.
#[derive(Clone, Copy, Debug, PartialEq, Eq, Structural)]
pub enum Namespace {
    /// Exchange rates of one source currency, fresh for an hour.
    Rates,
    /// The currency directory, fresh for a day.
    Currencies,
}

impl Namespace {
    /// How long a record of this namespace stays fresh.
    pub open spec fn spec_granularity(&self) -> Granularity {
        match self {
            Namespace::Rates => Granularity::Hourly,
            Namespace::Currencies => Granularity::Daily,
        }
    }

    /// How long a record of this namespace stays fresh.
    #[verifier::when_used_as_spec(spec_granularity)]
    pub fn granularity(&self) -> (g: Granularity)
        ensures
            g == self.spec_granularity(),
    {
        match self {
            Namespace::Rates => Granularity::Hourly,
            Namespace::Currencies => Granularity::Daily,
        }
    }
}

/// The directory that holds every record.
pub open spec fn cache_dir_text() -> Seq<char> {
    "./.teonite/cache"@
}

/// The key of the record of `namespace` and `scope` for the window `now`
/// falls in: the cache directory, the scope, the stamp of the window and the
/// file extension.
pub open spec fn key_text(namespace: Namespace, scope: Seq<char>, now: Moment) -> Seq<char> {
    cache_dir_text() + "/"@ + scope + stamp(namespace.granularity(), now) + ".json"@
}

/// The directory that holds every record.
pub fn get_path_to_cache() -> (path: String)
    ensures
        path@ == cache_dir_text(),
{
    "./.teonite/cache".to_owned()
}

/// The key of the record of `namespace` and `scope` for the window `now`
/// falls in.
pub fn cache_key(namespace: Namespace, scope: &str, now: &Moment) -> (key: String)
    ensures
        key@ == key_text(namespace, scope@, *now),
{
    let mut key = get_path_to_cache();
    key.append("/");
    key.append(scope);
    let window_stamp = get_date_formatted(now, namespace.granularity());
    key.append(window_stamp.as_str());
    key.append(".json");
    key
}

/// The key of the exchange rates of `source`, which are cached by the hour.
pub fn get_path_to_exchange_cache(source: &str, now: &Moment) -> (key: String)
    ensures
        key@ == key_text(Namespace::Rates, source@, *now),
{
    cache_key(Namespace::Rates, source, now)
}

/// The key of the currency directory, which is cached by the day.
pub fn get_path_to_currencies_cache(now: &Moment) -> (key: String)
    ensures
        key@ == key_text(Namespace::Currencies, Seq::<char>::empty(), *now),
{
    let key = cache_key(Namespace::Currencies, "", now);
    proof {
        reveal_strlit("");
        assert(""@ =~= Seq::<char>::empty());
    }
    key
}

/// Key stability: for one namespace and one scope, two moments get the
/// same key exactly when they fall in the same window of the namespace's
/// granularity. The key is stable within a window and differs across
/// windows.
pub proof fn lemma_key_stability(namespace: Namespace, scope: Seq<char>, t1: Moment, t2: Moment)
    requires
        t1.valid(),
        t2.valid(),
    ensures
        key_text(namespace, scope, t1) == key_text(namespace, scope, t2) <==> window(
            namespace.granularity(),
            t1,
        ) == window(namespace.granularity(), t2),
{
    let g = namespace.granularity();
    lemma_stamp_identifies_window(g, t1, t2);
    let head = cache_dir_text() + "/"@ + scope;
    let tail = ".json"@;
    let s1 = stamp(g, t1);
    let s2 = stamp(g, t2);
    let k1 = key_text(namespace, scope, t1);
    let k2 = key_text(namespace, scope, t2);
    if k1 == k2 {
        assert(k1.len() == head.len() + s1.len() + tail.len());
        assert(k2.len() == head.len() + s2.len() + tail.len());
        assert(k1.subrange(head.len() as int, (head.len() + s1.len()) as int) =~= s1);
        assert(k2.subrange(head.len() as int, (head.len() + s2.len()) as int) =~= s2);
    }
}

/// What a read of the cache store found under a key.
#[derive(Debug, PartialEq, Eq)]
pub enum Stored<T> {
    /// Nothing is stored under the key.
    Absent,
    /// The record stored under the key.
    Present(T),
    /// Something is stored under the key, and no record can be had from
    /// it: it is empty, or it cannot be read or parsed.
    Corrupted,
}

impl<T> Stored<T> {
    /// What a read found, from its two steps: `None` where nothing is
    /// stored under the key, `Some(None)` where something is and no record
    /// can be had from it, and `Some(Some(record))` where one can.
    pub fn from_read(read: Option<Option<T>>) -> (stored: Stored<T>)
        ensures
            read is None ==> stored == Stored::<T>::Absent,
            read == Some(None::<T>) ==> stored == Stored::<T>::Corrupted,
            read matches Some(Some(record)) ==> stored == Stored::Present(record),
    {
        match read {
            None => Stored::Absent,
            Some(None) => Stored::Corrupted,
            Some(Some(record)) => Stored::Present(record),
        }
    }
}

/// What a read of the directory found, from its two steps as in
/// [`Stored::from_read`]. Currencies of which one stands under another code
/// than its own are no directory: such a record is corrupted.
pub fn directory_from_read<R>(read: Option<Option<CodeMap<Currency<R>>>>) -> (stored: Stored<
    Currencies<R>,
>)
    ensures
        read is None ==> stored is Absent,
        read == Some(None::<CodeMap<Currency<R>>>) ==> stored is Corrupted,
        read matches Some(Some(data)) ==> (stored is Present <==> codes_match(data@)),
        read matches Some(Some(data)) ==> (stored is Corrupted <==> !codes_match(data@)),
        read matches Some(Some(data)) ==> (stored matches Stored::Present(directory)
            ==> directory@ == data@),
{
    match read {
        None => Stored::Absent,
        Some(None) => Stored::Corrupted,
        Some(Some(data)) => match Currencies::new(data) {
            Some(directory) => Stored::Present(directory),
            None => Stored::Corrupted,
        },
    }
}

/// Whether the store holds a directory that is still fresh: one was found
/// under the key of the current day. A corrupted record is a failure, not a
/// missing directory.
pub fn fresh_currency_info_exists_in_cache<R>(stored: &Stored<Currencies<R>>) -> (fresh: Result<
    bool,
    Failure,
>)
    ensures
        stored is Absent ==> fresh == Ok::<bool, Failure>(false),
        stored is Present ==> fresh == Ok::<bool, Failure>(true),
        stored is Corrupted ==> fresh == Err::<bool, Failure>(Failure::CacheCorrupted),
{
    match stored {
        Stored::Absent => Ok(false),
        Stored::Present(_) => Ok(true),
        Stored::Corrupted => Err(Failure::CacheCorrupted),
    }
}

} // verus!
