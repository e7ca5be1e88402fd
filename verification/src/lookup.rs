//! The read-through lookups: exchange rates, with the merge of a fetched
//! delta into the stored record, and the currency directory.
//!
//! A lookup alternates between work that only the caller can do (reading
//! the store, asking the remote source, writing the store) and decisions,
//! which are made here. The caller begins a lookup, reads the store under
//! its key and hands over what it found; the lookup answers with the next
//! step, which is either a fetch or the outcome. After a fetch the caller
//! hands over what came back and gets the outcome. An outcome that names a
//! key asks the caller to write the record under it; a failure of that
//! write does not change the outcome.

use vstd::prelude::*;
use crate::cache::{
    cache_key, get_path_to_currencies_cache, get_path_to_exchange_cache, key_text, Namespace,
    Stored,
};
use crate::clock::Moment;
use crate::code_map::{entries_map, entry_codes, lemma_entries_map_dom, CodeMap};
use crate::error::Failure;
use crate::exchange::{
    currencies_url, currencies_url_text, rates_url, rates_url_text, rejection_text, Credential,
    Currencies, CurrencyCode, Rates,
};
use crate::http::FetchOutcome;
use crate::text::texts;

verus! {

/// The codes of `targets` that `held` lacks, each once, in the order in
/// which they first occur.
pub open spec fn missing_codes(targets: Seq<Seq<char>>, held: Set<Seq<char>>) -> Seq<Seq<char>>
    decreases targets.len(),
{
    if targets.len() == 0 {
        Seq::empty()
    } else {
        let earlier = missing_codes(targets.drop_last(), held);
        let code = targets.last();
        if held.contains(code) || targets.drop_last().contains(code) {
            earlier
        } else {
            earlier.push(code)
        }
    }
}

/// The missing codes are the set difference of the targets and the held
/// codes, without duplicates: none is missing exactly when every target is
/// held.
pub proof fn lemma_missing_codes(targets: Seq<Seq<char>>, held: Set<Seq<char>>)
    ensures
        missing_codes(targets, held).no_duplicates(),
        missing_codes(targets, held).to_set() =~= targets.to_set().difference(held),
        missing_codes(targets, held).len() == 0 <==> targets.to_set().subset_of(held),
        missing_codes(targets, held).len() <= targets.len(),
    decreases targets.len(),
{
    let missing = missing_codes(targets, held);
    if targets.len() > 0 {
        let front = targets.drop_last();
        let earlier = missing_codes(front, held);
        let code = targets.last();
        lemma_missing_codes(front, held);
        assert forall|c: Seq<char>| #[trigger]
            targets.to_set().contains(c) <==> (front.to_set().contains(c) || c == code) by {
            if targets.to_set().contains(c) {
                let i = choose|i: int| 0 <= i < targets.len() && targets[i] == c;
                if i < front.len() {
                    assert(front[i] == c);
                }
            }
            if front.to_set().contains(c) {
                let i = choose|i: int| 0 <= i < front.len() && front[i] == c;
                assert(targets[i] == c);
            }
            if c == code {
                assert(targets[targets.len() - 1] == c);
            }
        }
        if held.contains(code) || front.contains(code) {
            assert(missing.to_set() =~= targets.to_set().difference(held));
        } else {
            assert(!earlier.to_set().contains(code));
            assert forall|c: Seq<char>| #[trigger]
                missing.to_set().contains(c) <==> (earlier.to_set().contains(c) || c == code) by {
                if missing.to_set().contains(c) {
                    let i = choose|i: int| 0 <= i < missing.len() && missing[i] == c;
                    if i < earlier.len() {
                        assert(earlier[i] == c);
                    }
                }
                if earlier.to_set().contains(c) {
                    let i = choose|i: int| 0 <= i < earlier.len() && earlier[i] == c;
                    assert(missing[i] == c);
                }
                if c == code {
                    assert(missing[missing.len() - 1] == c);
                }
            }
            assert(missing.to_set() =~= targets.to_set().difference(held));
            assert forall|a: int, b: int| 0 <= a < b < missing.len() implies missing[a]
                != missing[b] by {
                if b == earlier.len() {
                    assert(earlier[a] == missing[a]);
                    assert(earlier.to_set().contains(earlier[a]));
                } else {
                    assert(earlier[a] != earlier[b]);
                }
            }
        }
        if missing.len() == 0 {
            assert(missing.to_set() =~= Set::<Seq<char>>::empty());
            assert forall|c: Seq<char>| targets.to_set().contains(c) implies held.contains(c) by {
                assert(!targets.to_set().difference(held).contains(c));
            }
        } else {
            assert(missing.to_set().contains(missing[0]));
        }
    } else {
        assert(targets.to_set() =~= Set::<Seq<char>>::empty());
        assert(missing.to_set() =~= Set::<Seq<char>>::empty());
    }
}

/// The stored rates with a fetched delta merged in: every code of either
/// map, and under a code that both hold the stored rate. A stored entry is
/// never overwritten.
pub open spec fn merged<V>(cached: Map<Seq<char>, V>, delta: Map<Seq<char>, V>) -> Map<
    Seq<char>,
    V,
> {
    delta.union_prefer_right(cached)
}

/// Merging keeps every stored entry as it is, and adds the fetched entry
/// of every code that was not stored.
pub proof fn lemma_merge_keeps_cached<V>(cached: Map<Seq<char>, V>, delta: Map<Seq<char>, V>)
    ensures
        merged(cached, delta).dom() =~= cached.dom().union(delta.dom()),
        forall|code: Seq<char>| #[trigger]
            cached.contains_key(code) ==> merged(cached, delta)[code] == cached[code],
        forall|code: Seq<char>|
            !cached.contains_key(code) && #[trigger] delta.contains_key(code) ==> merged(
                cached,
                delta,
            )[code] == delta[code],
{
}

/// Idempotence: merging the same delta into the same stored rates twice
/// yields what merging it once yields.
pub proof fn lemma_merge_idempotent<V>(cached: Map<Seq<char>, V>, delta: Map<Seq<char>, V>)
    ensures
        merged(merged(cached, delta), delta) == merged(cached, delta),
{
    assert(merged(merged(cached, delta), delta) =~= merged(cached, delta));
}

/// Merging an empty delta, or merging into what already holds the delta,
/// changes nothing; merging into empty rates yields the delta.
pub proof fn lemma_merge_empty<V>(rates: Map<Seq<char>, V>)
    ensures
        merged(rates, Map::<Seq<char>, V>::empty()) == rates,
        merged(Map::<Seq<char>, V>::empty(), rates) == rates,
{
    assert(merged(rates, Map::<Seq<char>, V>::empty()) =~= rates);
    assert(merged(Map::<Seq<char>, V>::empty(), rates) =~= rates);
}

/// Whether `codes` holds `code`.
fn holds(codes: &Vec<CurrencyCode>, code: &String) -> (held: bool)
    ensures
        held == texts(codes@).contains(code@),
{
    let mut i: usize = 0;
    while i < codes.len()
        invariant
            i <= codes@.len(),
            forall|j: int| 0 <= j < i ==> texts(codes@)[j] != code@,
        decreases codes@.len() - i,
    {
        if codes[i] == *code {
            assert(texts(codes@)[i as int] == code@);
            return true;
        }
        i += 1;
    }
    false
}

/// The targets that `cached` holds no rate for, each once, in the order
/// in which they first occur.
pub fn missing_targets<V>(targets: &Vec<CurrencyCode>, cached: &Rates<V>) -> (missing: Vec<
    CurrencyCode,
>)
    ensures
        texts(missing@) == missing_codes(texts(targets@), cached@.dom()),
{
    let ghost all = texts(targets@);
    let ghost held = cached@.dom();
    let mut missing: Vec<CurrencyCode> = Vec::new();
    let mut i: usize = 0;
    while i < targets.len()
        invariant
            i <= targets@.len(),
            all == texts(targets@),
            held == cached@.dom(),
            texts(missing@) == missing_codes(all.take(i as int), held),
        decreases targets@.len() - i,
    {
        let code = &targets[i];
        proof {
            let upto = all.take(i + 1);
            assert(upto.drop_last() =~= all.take(i as int));
            assert(upto.last() == code@);
            lemma_missing_codes(all.take(i as int), held);
            let front = all.take(i as int);
            if !held.contains(code@) {
                assert(front.contains(code@) <==> front.to_set().contains(code@));
                assert(texts(missing@).contains(code@) <==> texts(missing@).to_set().contains(
                    code@,
                ));
            }
        }
        if !cached.data.contains_key(code.as_str()) && !holds(&missing, code) {
            let ghost before = texts(missing@);
            missing.push(code.clone());
            assert(texts(missing@) =~= before.push(code@));
        }
        i += 1;
    }
    proof {
        assert(all.take(targets@.len() as int) =~= all);
    }
    missing
}

/// Merges a fetched delta into the stored rates. Every stored entry stays
/// as it is; the entry of every other fetched code is added.
pub fn merge<V>(cached: Rates<V>, delta: Rates<V>) -> (out: Rates<V>)
    ensures
        out@ == merged(cached@, delta@),
{
    let ghost stored = cached@;
    let mut out = cached;
    let fetched = delta.data.into_entries();
    let ghost all = fetched@;
    for entry in it: fetched.into_iter()
        invariant
            it.seq() == all,
            entry_codes(all).no_duplicates(),
            out@ == merged(stored, entries_map(all.take(it.index() as int))),
    {
        let ghost before = entries_map(all.take(it.index() as int));
        proof {
            let front = all.take(it.index() as int);
            let upto = all.take(it.index() + 1);
            assert(upto.drop_last() =~= front);
            assert(upto.last() == entry);
            assert(entries_map(upto) == before.insert(entry.0@, entry.1));
            lemma_entries_map_dom(front);
            if before.contains_key(entry.0@) {
                let j = choose|j: int| 0 <= j < front.len() && entry_codes(front)[j] == entry.0@;
                assert(entry_codes(all)[j] == entry_codes(all)[it.index() as int]);
            }
        }
        if !out.data.contains_key(entry.0.as_str()) {
            proof {
                assert(merged(stored, before).insert(entry.0@, entry.1) =~= merged(
                    stored,
                    before.insert(entry.0@, entry.1),
                ));
            }
            out.data.insert(entry.0, entry.1);
        } else {
            proof {
                if stored.contains_key(entry.0@) {
                    assert(merged(stored, before) =~= merged(
                        stored,
                        before.insert(entry.0@, entry.1),
                    ));
                }
            }
        }
    }
    proof {
        assert(all.take(all.len() as int) =~= all);
    }
    out
}

/// The rate from `source` to `target`, or the failure that names the pair
/// where `rates` holds none.
pub fn resolve_rate<V: Copy>(rates: &Rates<V>, source: &str, target: &str) -> (resolved: Result<
    V,
    Failure,
>)
    ensures
        resolved is Ok <==> rates@.contains_key(target@),
        resolved matches Ok(rate) ==> rate == rates@[target@],
        resolved matches Err(failure) ==> (failure matches Failure::UnresolvedTarget {
            source: from,
            target: to,
        } && from@ == source@ && to@ == target@),
{
    match rates.data.get(target) {
        Some(rate) => Ok(*rate),
        None => Err(
            Failure::UnresolvedTarget { source: source.to_owned(), target: target.to_owned() },
        ),
    }
}

/// How a lookup of exchange rates ended.
#[derive(Debug)]
pub enum RatesOutcome<V> {
    /// The rates that could be had. `store_at` names the key to write
    /// them under, where a fetch went into them; the targets in `unresolved`
    /// have no rate even so.
    Resolved { rates: Rates<V>, store_at: Option<String>, unresolved: Vec<CurrencyCode> },
    /// The lookup failed.
    Failed(Failure),
}

impl<V> RatesOutcome<V> {
    /// The outcome holds `rates`, asks for a write under `store_at` where
    /// that names a key, and reports `unresolved`.
    pub open spec fn resolves(
        self,
        rates: Map<Seq<char>, V>,
        store_at: Option<Seq<char>>,
        unresolved: Seq<Seq<char>>,
    ) -> bool {
        &&& self matches RatesOutcome::Resolved { rates: held, store_at: key, unresolved: codes }
        &&& held@ == rates
        &&& texts(codes@) == unresolved
        &&& match store_at {
            Some(text) => key matches Some(k) && k@ == text,
            None => key is None,
        }
    }

    /// The outcome is the rejection of the request, with `complaints` as
    /// its message.
    pub open spec fn rejected(self, complaints: Seq<char>) -> bool {
        self matches RatesOutcome::Failed(Failure::RemoteRejected(message)) && message@
            == complaints
    }
}

/// What the caller of a lookup of exchange rates has to do next.
#[derive(Debug)]
pub enum RatesStep<V> {
    /// Send the request `url`, which asks the remote source for the rates
    /// of `codes`, and hand what comes back to [`RatesLookup::after_fetch`]
    /// together with `cached`.
    Fetch { url: String, codes: Vec<CurrencyCode>, cached: Rates<V> },
    /// Nothing: the lookup has ended.
    Finish(RatesOutcome<V>),
}

impl<V> RatesStep<V> {
    /// The step is the request `url`, which asks for exactly `codes`,
    /// beside the stored rates `cached`.
    pub open spec fn fetches(
        self,
        url: Seq<char>,
        codes: Seq<Seq<char>>,
        cached: Map<Seq<char>, V>,
    ) -> bool {
        &&& self matches RatesStep::Fetch { url: request, codes: asked, cached: held }
        &&& request@ == url
        &&& texts(asked@) == codes
        &&& held@ == cached
    }

    /// The step ends the lookup with the stored rates `held`, untouched:
    /// nothing is fetched and nothing is to be written.
    pub open spec fn finishes_with(self, held: Rates<V>) -> bool {
        &&& self matches RatesStep::Finish(RatesOutcome::Resolved { rates, store_at, unresolved })
        &&& rates == held
        &&& store_at is None
        &&& unresolved@.len() == 0
    }
}

/// One lookup of the exchange rates of a source currency against a set of
/// targets.
#[derive(Debug)]
pub struct RatesLookup {
    /// The source currency.
    pub source: CurrencyCode,
    /// The requested targets. A code that occurs twice counts once.
    pub targets: Vec<CurrencyCode>,
    /// The credential every request carries.
    pub credential: Credential,
    /// The key of the stored rates, for reading and for writing.
    pub key: String,
}

impl RatesLookup {
    /// Begins a lookup at the moment `now`: the key is that of the rates
    /// of `source` for the hour `now` falls in.
    pub fn begin(
        source: CurrencyCode,
        targets: Vec<CurrencyCode>,
        credential: Credential,
        now: &Moment,
    ) -> (lookup: RatesLookup)
        requires
            targets@.len() > 0,
        ensures
            lookup.source == source,
            lookup.targets == targets,
            lookup.credential == credential,
            lookup.begun_at(*now),
    {
        let key = get_path_to_exchange_cache(source.as_str(), now);
        RatesLookup { source, targets, credential, key }
    }

    /// The request that asks the remote source for the rates of `codes`.
    pub open spec fn request(&self, codes: Seq<Seq<char>>) -> Seq<char> {
        rates_url_text(self.source@, codes, self.credential@)
    }

    /// The requested targets as a set.
    pub open spec fn wanted(&self) -> Set<Seq<char>> {
        texts(self.targets@).to_set()
    }

    /// Whether the lookup was begun at the moment `now`: its key is that
    /// of the rates of its source for the hour `now` falls in.
    pub open spec fn begun_at(&self, now: Moment) -> bool {
        self.key@ == key_text(Namespace::Rates, self.source@, now)
    }

    /// Whether `step` is what follows the read of the store that found
    /// `stored`.
    pub open spec fn decides<V>(&self, stored: Stored<Rates<V>>, step: RatesStep<V>) -> bool {
        match stored {
            Stored::Corrupted => step == RatesStep::<V>::Finish(
                RatesOutcome::Failed(Failure::CacheCorrupted),
            ),
            Stored::Absent => {
                let missing = missing_codes(texts(self.targets@), Set::empty());
                step.fetches(self.request(missing), missing, Map::empty())
            },
            Stored::Present(held) => {
                let missing = missing_codes(texts(self.targets@), held@.dom());
                if missing.len() == 0 {
                    step.finishes_with(held)
                } else {
                    step.fetches(self.request(missing), missing, held@) && step->cached == held
                }
            },
        }
    }

    /// Whether `outcome` is how the lookup ends when the fetch beside the
    /// stored rates `cached` brought `fetched`.
    pub open spec fn settles<V>(
        &self,
        cached: Rates<V>,
        fetched: FetchOutcome<Rates<V>>,
        outcome: RatesOutcome<V>,
    ) -> bool {
        match fetched {
            FetchOutcome::Success(delta) => outcome.resolves(
                merged(cached@, delta@),
                Some(self.key@),
                missing_codes(texts(self.targets@), merged(cached@, delta@).dom()),
            ),
            FetchOutcome::ApiRejected(error) => outcome.rejected(rejection_text(error)),
            FetchOutcome::TransportOrParseFailure(reason) => outcome == RatesOutcome::<V>::Failed(
                Failure::RemoteUnreachableOrMalformed(reason),
            ),
        }
    }

    /// Decides what follows the read of the store.
    ///
    /// Where nothing is stored, every target is fetched, in one request.
    /// Where the stored rates hold every target, they are the outcome and
    /// nothing is fetched or written. Where they lack some, exactly the
    /// missing targets are fetched, and none that is stored. A corrupted
    /// record ends the lookup; it is never taken for a miss.
    pub fn after_read<V>(&self, stored: Stored<Rates<V>>) -> (step: RatesStep<V>)
        requires
            self.targets@.len() > 0,
        ensures
            self.decides(stored, step),
            step is Fetch ==> step->codes@.len() > 0 && texts(step->codes@).no_duplicates(),
            step is Fetch ==> texts(step->codes@).to_set() == self.wanted().difference(
                step->cached@.dom(),
            ),
            step is Fetch <==> stored is Absent || (stored is Present && !self.wanted().subset_of(
                stored->0@.dom(),
            )),
    {
        match stored {
            Stored::Corrupted => RatesStep::Finish(RatesOutcome::Failed(Failure::CacheCorrupted)),
            Stored::Absent => {
                let cached: Rates<V> = Rates::new();
                let codes = missing_targets(&self.targets, &cached);
                proof {
                    lemma_missing_codes(texts(self.targets@), Set::empty());
                    assert(self.wanted().contains(texts(self.targets@)[0]));
                    assert(!self.wanted().subset_of(Set::empty()));
                    assert(texts(codes@).len() == codes@.len());
                }
                let url = rates_url(self.source.as_str(), &codes, &self.credential);
                RatesStep::Fetch { url, codes, cached }
            },
            Stored::Present(held) => {
                let codes = missing_targets(&self.targets, &held);
                proof {
                    lemma_missing_codes(texts(self.targets@), held@.dom());
                    assert(texts(codes@).len() == codes@.len());
                }
                if codes.len() == 0 {
                    RatesStep::Finish(
                        RatesOutcome::Resolved { rates: held, store_at: None, unresolved: codes },
                    )
                } else {
                    let url = rates_url(self.source.as_str(), &codes, &self.credential);
                    RatesStep::Fetch { url, codes, cached: held }
                }
            },
        }
    }

    /// The step of a lookup that passes over the store: every target is
    /// fetched, as where nothing is stored.
    pub fn refresh<V>(&self) -> (step: RatesStep<V>)
        requires
            self.targets@.len() > 0,
        ensures
            self.decides(Stored::<Rates<V>>::Absent, step),
            step is Fetch,
    {
        self.after_read(Stored::Absent)
    }

    /// Decides how the lookup ends after the fetch.
    ///
    /// Fetched rates are merged into `cached`, which keeps every entry it
    /// had, and the merged rates are to be written under the key of the
    /// lookup. A rejection by the remote source fails the lookup with the
    /// source's complaints; so does a failure of transport or parsing, with
    /// its reason. Neither asks for a write.
    pub fn after_fetch<V>(&self, cached: Rates<V>, fetched: FetchOutcome<Rates<V>>) -> (outcome:
        RatesOutcome<V>)
        ensures
            self.settles(cached, fetched, outcome),
            outcome is Resolved <==> fetched is Success,
    {
        match fetched {
            FetchOutcome::Success(delta) => {
                let rates = merge(cached, delta);
                let unresolved = missing_targets(&self.targets, &rates);
                RatesOutcome::Resolved { rates, store_at: Some(self.key.clone()), unresolved }
            },
            FetchOutcome::ApiRejected(error) => RatesOutcome::Failed(
                Failure::RemoteRejected(error.render()),
            ),
            FetchOutcome::TransportOrParseFailure(reason) => RatesOutcome::Failed(
                Failure::RemoteUnreachableOrMalformed(reason),
            ),
        }
    }
}

/// An empty store: for all targets, of which there is at least one, the
/// lookup fetches once, a request that names every target and none twice,
/// and ends with the fetched rates, which are to be written under the key
/// of the hour the lookup was begun in.
pub proof fn lemma_empty_store_fetches_every_target<V>(
    lookup: RatesLookup,
    now: Moment,
    step: RatesStep<V>,
    delta: Rates<V>,
    outcome: RatesOutcome<V>,
)
    requires
        lookup.targets@.len() > 0,
        lookup.begun_at(now),
        lookup.decides(Stored::<Rates<V>>::Absent, step),
        step is Fetch ==> lookup.settles(step->cached, FetchOutcome::Success(delta), outcome),
    ensures
        step is Fetch,
        step->url@ == lookup.request(texts(step->codes@)),
        texts(step->codes@).to_set() == lookup.wanted(),
        texts(step->codes@).no_duplicates(),
        outcome.resolves(
            delta@,
            Some(key_text(Namespace::Rates, lookup.source@, now)),
            missing_codes(texts(lookup.targets@), delta@.dom()),
        ),
{
    lemma_missing_codes(texts(lookup.targets@), Set::empty());
    assert(lookup.wanted().difference(Set::empty()) =~= lookup.wanted());
    lemma_merge_empty(delta@);
}

/// A full hit: for all stored rates that hold every target, the lookup
/// fetches nothing and ends with the stored rates, untouched.
pub proof fn lemma_full_hit_returns_the_stored_rates<V>(
    lookup: RatesLookup,
    held: Rates<V>,
    step: RatesStep<V>,
)
    requires
        lookup.wanted().subset_of(held@.dom()),
        lookup.decides(Stored::Present(held), step),
    ensures
        !(step is Fetch),
        step.finishes_with(held),
{
    lemma_missing_codes(texts(lookup.targets@), held@.dom());
}

/// A partial hit: for all stored rates that lack some target, the lookup
/// fetches exactly the missing targets, never a stored code, and ends
/// with the stored rates and the fetched entries of the codes they lacked;
/// every stored entry is as it was.
pub proof fn lemma_partial_hit_fetches_the_missing<V>(
    lookup: RatesLookup,
    held: Rates<V>,
    step: RatesStep<V>,
    delta: Rates<V>,
    outcome: RatesOutcome<V>,
)
    requires
        !lookup.wanted().subset_of(held@.dom()),
        lookup.decides(Stored::Present(held), step),
        step is Fetch ==> lookup.settles(step->cached, FetchOutcome::Success(delta), outcome),
    ensures
        step is Fetch,
        step->url@ == lookup.request(texts(step->codes@)),
        texts(step->codes@).to_set() == lookup.wanted().difference(held@.dom()),
        texts(step->codes@).no_duplicates(),
        outcome is Resolved,
        outcome->rates@.dom() == held@.dom().union(delta@.dom()),
        forall|code: Seq<char>| #[trigger]
            held@.contains_key(code) ==> outcome->rates@[code] == held@[code],
        forall|code: Seq<char>|
            !held@.contains_key(code) && #[trigger] delta@.contains_key(code)
                ==> outcome->rates@[code] == delta@[code],
        outcome->store_at matches Some(key) && key@ == lookup.key@,
{
    lemma_missing_codes(texts(lookup.targets@), held@.dom());
    lemma_merge_keeps_cached(held@, delta@);
}

/// How a lookup of the currency directory ended.
#[derive(Debug)]
pub enum DirectoryOutcome<R> {
    /// The directory. `store_at` names the key to write it under, where
    /// it was fetched.
    Resolved { directory: Currencies<R>, store_at: Option<String> },
    /// The lookup failed.
    Failed(Failure),
}

impl<R> DirectoryOutcome<R> {
    /// The outcome is `fresh`, to be written under the key `store_at`.
    pub open spec fn stores(self, fresh: Currencies<R>, store_at: Seq<char>) -> bool {
        &&& self matches DirectoryOutcome::Resolved { directory, store_at: key }
        &&& directory == fresh
        &&& key matches Some(k)
        &&& k@ == store_at
    }

    /// The outcome is the rejection of the request, with `complaints` as
    /// its message.
    pub open spec fn rejected(self, complaints: Seq<char>) -> bool {
        self matches DirectoryOutcome::Failed(Failure::RemoteRejected(message)) && message@
            == complaints
    }
}

/// What the caller of a lookup of the currency directory has to do next.
#[derive(Debug)]
pub enum DirectoryStep<R> {
    /// Read the store under the key of the lookup, and hand what it holds
    /// to [`DirectoryLookup::after_read`].
    Read,
    /// Send the request `url`, which asks the remote source for the
    /// directory, and hand what comes back to
    /// [`DirectoryLookup::after_fetch`].
    Fetch { url: String },
    /// Nothing: the lookup has ended.
    Finish(DirectoryOutcome<R>),
}

impl<R> DirectoryStep<R> {
    /// The step is the request `url`.
    pub open spec fn fetches(self, url: Seq<char>) -> bool {
        self matches DirectoryStep::Fetch { url: request } && request@ == url
    }
}

/// One lookup of the currency directory. The directory is one snapshot: it
/// is fetched whole or not at all.
#[derive(Debug)]
pub struct DirectoryLookup {
    /// The source currency the directory is asked for, if any.
    pub source: Option<CurrencyCode>,
    /// The credential every request carries.
    pub credential: Credential,
    /// Whether the stored directory is passed over and fetched anew.
    pub force_refresh: bool,
    /// The key of the stored directory, for reading and for writing.
    pub key: String,
}

/// The scope of the key of a directory: the code of the source currency,
/// or nothing.
pub open spec fn directory_scope(source: Option<CurrencyCode>) -> Seq<char> {
    match source {
        Some(code) => code@,
        None => Seq::empty(),
    }
}

impl DirectoryLookup {
    /// Begins a lookup at the moment `now`: the key is that of the
    /// directory of `source`, or of the directory at large, for the day `now`
    /// falls in.
    pub fn begin(
        source: Option<CurrencyCode>,
        credential: Credential,
        force_refresh: bool,
        now: &Moment,
    ) -> (lookup: DirectoryLookup)
        ensures
            lookup.source == source,
            lookup.credential == credential,
            lookup.force_refresh == force_refresh,
            lookup.key@ == key_text(Namespace::Currencies, directory_scope(source), *now),
    {
        let key = match &source {
            Some(code) => cache_key(Namespace::Currencies, code.as_str(), now),
            None => get_path_to_currencies_cache(now),
        };
        DirectoryLookup { source, credential, force_refresh, key }
    }

    /// The request that asks the remote source for the directory.
    pub open spec fn request(&self) -> Seq<char> {
        currencies_url_text(
            self.credential@,
            match self.source {
                Some(code) => Some(code@),
                None => None,
            },
        )
    }

    /// The step that sends the request for the directory.
    fn fetch_step<R>(&self) -> (step: DirectoryStep<R>)
        ensures
            step.fetches(self.request()),
    {
        let url = match &self.source {
            Some(code) => currencies_url(&self.credential, Some(code.as_str())),
            None => currencies_url(&self.credential, None),
        };
        DirectoryStep::Fetch { url }
    }

    /// The first step: a forced refresh fetches without reading the store.
    pub fn first_step<R>(&self) -> (step: DirectoryStep<R>)
        ensures
            self.force_refresh ==> step.fetches(self.request()),
            !self.force_refresh ==> step == DirectoryStep::<R>::Read,
    {
        if self.force_refresh {
            self.fetch_step()
        } else {
            DirectoryStep::Read
        }
    }

    /// Decides what follows the read of the store: a stored directory is
    /// the outcome, a missing one is fetched, and a corrupted record ends
    /// the lookup.
    pub fn after_read<R>(&self, stored: Stored<Currencies<R>>) -> (step: DirectoryStep<R>)
        ensures
            stored is Absent ==> step.fetches(self.request()),
            stored matches Stored::Present(directory) ==> step == DirectoryStep::Finish(
                DirectoryOutcome::Resolved { directory, store_at: None },
            ),
            stored is Corrupted ==> step == DirectoryStep::<R>::Finish(
                DirectoryOutcome::Failed(Failure::CacheCorrupted),
            ),
    {
        match stored {
            Stored::Absent => self.fetch_step(),
            Stored::Present(directory) => DirectoryStep::Finish(
                DirectoryOutcome::Resolved { directory, store_at: None },
            ),
            Stored::Corrupted => DirectoryStep::Finish(
                DirectoryOutcome::Failed(Failure::CacheCorrupted),
            ),
        }
    }

    /// Decides how the lookup ends after the fetch: a fetched directory is
    /// the outcome and is to be written under the key of the lookup; a
    /// rejection or a failure of transport or parsing fails the lookup and
    /// asks for no write.
    pub fn after_fetch<R>(&self, fetched: FetchOutcome<Currencies<R>>) -> (outcome:
        DirectoryOutcome<R>)
        ensures
            fetched matches FetchOutcome::Success(fresh) ==> outcome.stores(fresh, self.key@),
            fetched matches FetchOutcome::ApiRejected(error) ==> outcome.rejected(
                rejection_text(error),
            ),
            fetched matches FetchOutcome::TransportOrParseFailure(reason) ==> outcome
                == DirectoryOutcome::<R>::Failed(Failure::RemoteUnreachableOrMalformed(reason)),
    {
        match fetched {
            FetchOutcome::Success(directory) => DirectoryOutcome::Resolved {
                directory,
                store_at: Some(self.key.clone()),
            },
            FetchOutcome::ApiRejected(error) => DirectoryOutcome::Failed(
                Failure::RemoteRejected(error.render()),
            ),
            FetchOutcome::TransportOrParseFailure(reason) => DirectoryOutcome::Failed(
                Failure::RemoteUnreachableOrMalformed(reason),
            ),
        }
    }
}

} // verus!
