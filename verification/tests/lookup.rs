use teonite::cache::{get_path_to_currencies_cache, get_path_to_exchange_cache, Stored};
use teonite::clock::Moment;
use teonite::code_map::CodeMap;
use teonite::error::Failure;
use teonite::exchange::{ApiError, Credential, Currencies, Currency, Rates, API_URL};
use teonite::http::{classify, Body, FetchOutcome};
use teonite::lookup::{
    merge, missing_targets, DirectoryLookup, DirectoryOutcome, DirectoryStep, RatesLookup,
    RatesOutcome, RatesStep,
};

fn noon() -> Moment {
    Moment::new(2024, 5, 17, 12, 30, 0).unwrap()
}

fn credential() -> Credential {
    Credential::new("SECRET".to_string()).unwrap()
}

fn lookup_of(source: &str, targets: &[&str]) -> RatesLookup {
    RatesLookup::begin(source.to_string(), codes(targets), credential(), &noon())
}

fn codes(list: &[&str]) -> Vec<String> {
    list.iter().map(|code| code.to_string()).collect()
}

fn rates(list: &[(&str, f32)]) -> Rates<f32> {
    let mut made = Rates::new();
    for (code, rate) in list {
        made.data.insert(code.to_string(), *rate);
    }
    made
}

fn listing(map: &Rates<f32>) -> Vec<(String, f32)> {
    let mut all = Vec::new();
    for i in 0..map.data.len() {
        let entry = map.data.entry(i);
        all.push((entry.0.clone(), entry.1));
    }
    all.sort_by(|a, b| a.0.cmp(&b.0));
    all
}

fn pairs(list: &[(&str, f32)]) -> Vec<(String, f32)> {
    list.iter().map(|(code, rate)| (code.to_string(), *rate)).collect()
}

fn directory(list: &[&str]) -> Currencies<f32> {
    let mut data = CodeMap::new();
    for code in list {
        data.insert(
            code.to_string(),
            Currency {
                name: format!("Currency {}", code),
                symbol_native: String::new(),
                decimal_digits: 2,
                rounding: 0.0,
                code: code.to_string(),
            },
        );
    }
    Currencies::new(data).unwrap()
}

fn rejection() -> ApiError {
    ApiError {
        message: "Invalid base currency".to_string(),
        errors: vec![("base_currency".to_string(), vec!["not supported".to_string()])],
    }
}

#[test]
fn empty_cache_fetches_every_target_once_and_stores_the_result() {
    let now = noon();
    let lookup = RatesLookup::begin("USD".to_string(), codes(&["EUR", "PLN"]), credential(), &now);
    assert_eq!(lookup.key, get_path_to_exchange_cache("USD", &now));
    assert_eq!(lookup.key, "./.teonite/cache/USD120017052024.json");
    let step = lookup.after_read(Stored::<Rates<f32>>::Absent);
    let (url, asked, cached) = match step {
        RatesStep::Fetch { url, codes, cached } => (url, codes, cached),
        other => panic!("a fetch was due, not {:?}", other),
    };
    assert_eq!(
        url,
        format!("{}/latest?apikey=SECRET&currencies=EUR,PLN&base_currency=USD", API_URL)
    );
    assert_eq!(asked, codes(&["EUR", "PLN"]));
    assert!(cached.data.is_empty());
    let fetched = FetchOutcome::Success(rates(&[("EUR", 0.92), ("PLN", 4.01)]));
    match lookup.after_fetch(cached, fetched) {
        RatesOutcome::Resolved { rates, store_at, unresolved } => {
            assert_eq!(listing(&rates), pairs(&[("EUR", 0.92), ("PLN", 4.01)]));
            assert_eq!(store_at, Some(lookup.key.clone()));
            assert!(unresolved.is_empty());
        }
        other => panic!("rates were due, not {:?}", other),
    }
}

#[test]
fn partial_hit_fetches_only_what_is_missing() {
    let lookup = lookup_of("USD", &["EUR", "PLN"]);
    let step = lookup.after_read(Stored::Present(rates(&[("EUR", 0.92)])));
    let (url, asked, cached) = match step {
        RatesStep::Fetch { url, codes, cached } => (url, codes, cached),
        other => panic!("a fetch was due, not {:?}", other),
    };
    assert_eq!(
        url,
        format!("{}/latest?apikey=SECRET&currencies=PLN&base_currency=USD", API_URL)
    );
    assert_eq!(asked, codes(&["PLN"]));
    assert_eq!(listing(&cached), pairs(&[("EUR", 0.92)]));
    let fetched = FetchOutcome::Success(rates(&[("PLN", 4.01)]));
    match lookup.after_fetch(cached, fetched) {
        RatesOutcome::Resolved { rates, store_at, unresolved } => {
            assert_eq!(listing(&rates), pairs(&[("EUR", 0.92), ("PLN", 4.01)]));
            assert_eq!(store_at, Some("./.teonite/cache/USD120017052024.json".to_string()));
            assert!(unresolved.is_empty());
        }
        other => panic!("rates were due, not {:?}", other),
    }
}

#[test]
fn full_hit_returns_the_stored_rates_without_a_fetch() {
    let lookup = lookup_of("USD", &["PLN", "EUR"]);
    let stored = rates(&[("EUR", 0.92), ("PLN", 4.01), ("GBP", 0.79)]);
    match lookup.after_read(Stored::Present(stored)) {
        RatesStep::Finish(RatesOutcome::Resolved { rates, store_at, unresolved }) => {
            assert_eq!(listing(&rates), pairs(&[("EUR", 0.92), ("GBP", 0.79), ("PLN", 4.01)]));
            assert_eq!(store_at, None);
            assert!(unresolved.is_empty());
        }
        other => panic!("the stored rates were due, not {:?}", other),
    }
}

#[test]
fn remote_rejection_fails_with_the_complaints_and_stores_nothing() {
    let lookup = lookup_of("XXX", &["EUR"]);
    let cached = match lookup.after_read(Stored::<Rates<f32>>::Absent) {
        RatesStep::Fetch { cached, .. } => cached,
        other => panic!("a fetch was due, not {:?}", other),
    };
    let fetched: FetchOutcome<Rates<f32>> = classify(422, Body::Rejection(rejection()));
    match lookup.after_fetch(cached, fetched) {
        RatesOutcome::Failed(failure) => {
            assert_eq!(
                failure,
                Failure::RemoteRejected("Invalid base currency\nnot supported\n".to_string())
            );
            assert!(failure.message().contains("not supported"));
            assert!(failure.message().contains("Invalid base currency"));
            assert!(failure.escalates());
        }
        other => panic!("a failure was due, not {:?}", other),
    }
}

#[test]
fn corrupted_record_is_no_miss() {
    let lookup = lookup_of("USD", &["EUR"]);
    let read: Stored<Rates<f32>> = Stored::from_read(Some(None));
    match lookup.after_read(read) {
        RatesStep::Finish(RatesOutcome::Failed(failure)) => {
            assert_eq!(failure, Failure::CacheCorrupted);
            assert_eq!(
                failure.message(),
                "Failed to parse cached data. Please clear .teonite/cache folder."
            );
        }
        other => panic!("a failure was due, not {:?}", other),
    }
}

#[test]
fn unreachable_remote_yields_no_data() {
    let lookup = lookup_of("USD", &["EUR"]);
    let fetched: FetchOutcome<Rates<f32>> =
        FetchOutcome::TransportOrParseFailure("connection refused".to_string());
    match lookup.after_fetch(Rates::new(), fetched) {
        RatesOutcome::Failed(failure) => {
            assert_eq!(
                failure,
                Failure::RemoteUnreachableOrMalformed("connection refused".to_string())
            );
        }
        other => panic!("a failure was due, not {:?}", other),
    }
}

#[test]
fn duplicate_targets_count_once() {
    let lookup = lookup_of("USD", &["PLN", "EUR", "PLN", "EUR", "CHF"]);
    match lookup.after_read(Stored::<Rates<f32>>::Absent) {
        RatesStep::Fetch { codes: asked, .. } => {
            assert_eq!(asked, codes(&["PLN", "EUR", "CHF"]));
        }
        other => panic!("a fetch was due, not {:?}", other),
    }
    match lookup.after_read(Stored::Present(rates(&[("EUR", 0.92)]))) {
        RatesStep::Fetch { codes: asked, .. } => {
            assert_eq!(asked, codes(&["PLN", "CHF"]));
        }
        other => panic!("a fetch was due, not {:?}", other),
    }
}

#[test]
fn targets_without_a_rate_are_reported() {
    let lookup = lookup_of("USD", &["EUR", "ZZZ", "PLN", "ZZZ"]);
    let cached = rates(&[("EUR", 0.92)]);
    let fetched = FetchOutcome::Success(rates(&[("PLN", 4.01)]));
    match lookup.after_fetch(cached, fetched) {
        RatesOutcome::Resolved { rates, unresolved, .. } => {
            assert_eq!(listing(&rates), pairs(&[("EUR", 0.92), ("PLN", 4.01)]));
            assert_eq!(unresolved, codes(&["ZZZ"]));
        }
        other => panic!("rates were due, not {:?}", other),
    }
}

#[test]
fn a_fetch_never_overwrites_a_stored_rate() {
    let lookup = lookup_of("USD", &["EUR", "PLN"]);
    let cached = rates(&[("EUR", 0.92)]);
    let fetched = FetchOutcome::Success(rates(&[("PLN", 4.01), ("EUR", 0.5), ("GBP", 0.79)]));
    match lookup.after_fetch(cached, fetched) {
        RatesOutcome::Resolved { rates, .. } => {
            assert_eq!(listing(&rates), pairs(&[("EUR", 0.92), ("GBP", 0.79), ("PLN", 4.01)]));
        }
        other => panic!("rates were due, not {:?}", other),
    }
}

#[test]
fn merging_a_delta_twice_is_merging_it_once() {
    let once = merge(rates(&[("EUR", 0.92)]), rates(&[("PLN", 4.01), ("EUR", 1.5)]));
    let expected = listing(&once);
    let twice = merge(once, rates(&[("PLN", 4.01), ("EUR", 1.5)]));
    assert_eq!(listing(&twice), expected);
    assert_eq!(expected, pairs(&[("EUR", 0.92), ("PLN", 4.01)]));
}

#[test]
fn merging_with_nothing_changes_nothing() {
    let kept = merge(rates(&[("EUR", 0.92), ("PLN", 4.01)]), Rates::new());
    assert_eq!(listing(&kept), pairs(&[("EUR", 0.92), ("PLN", 4.01)]));
    let taken = merge(Rates::new(), rates(&[("EUR", 0.92), ("PLN", 4.01)]));
    assert_eq!(listing(&taken), pairs(&[("EUR", 0.92), ("PLN", 4.01)]));
}

#[test]
fn missing_targets_are_those_without_a_stored_rate() {
    let held = rates(&[("EUR", 0.92), ("GBP", 0.79)]);
    assert_eq!(
        missing_targets(&codes(&["EUR", "PLN", "GBP", "CHF", "PLN"]), &held),
        codes(&["PLN", "CHF"])
    );
    assert_eq!(missing_targets(&codes(&["GBP", "EUR"]), &held), codes(&[]));
    assert_eq!(missing_targets(&codes(&[]), &held), codes(&[]));
}

#[test]
fn directory_is_read_before_it_is_fetched() {
    let now = noon();
    let lookup = DirectoryLookup::begin(None, credential(), false, &now);
    assert_eq!(lookup.key, get_path_to_currencies_cache(&now));
    assert!(matches!(lookup.first_step::<f32>(), DirectoryStep::Read));
    match lookup.after_read(Stored::Present(directory(&["USD", "EUR"]))) {
        DirectoryStep::Finish(DirectoryOutcome::Resolved { directory, store_at }) => {
            assert!(directory.contains("USD"));
            assert!(directory.contains("EUR"));
            assert_eq!(store_at, None);
        }
        other => panic!("the stored directory was due, not {:?}", other),
    }
    match lookup.after_read(Stored::<Currencies<f32>>::Absent) {
        DirectoryStep::Fetch { url } => {
            assert_eq!(url, "https://api.freecurrencyapi.com/v1/currencies?apikey=SECRET");
        }
        other => panic!("a fetch was due, not {:?}", other),
    }
    match lookup.after_read(Stored::<Currencies<f32>>::Corrupted) {
        DirectoryStep::Finish(DirectoryOutcome::Failed(failure)) => {
            assert_eq!(failure, Failure::CacheCorrupted);
        }
        other => panic!("a failure was due, not {:?}", other),
    }
}

#[test]
fn forced_refresh_passes_over_the_store() {
    let lookup = DirectoryLookup::begin(None, credential(), true, &noon());
    match lookup.first_step::<f32>() {
        DirectoryStep::Fetch { url } => {
            assert_eq!(url, "https://api.freecurrencyapi.com/v1/currencies?apikey=SECRET");
        }
        other => panic!("a fetch was due, not {:?}", other),
    }
    match lookup.after_fetch(FetchOutcome::Success(directory(&["USD"]))) {
        DirectoryOutcome::Resolved { directory, store_at } => {
            assert_eq!(directory.codes(), codes(&["USD"]));
            assert_eq!(store_at, Some("./.teonite/cache/17052024.json".to_string()));
        }
        other => panic!("the fetched directory was due, not {:?}", other),
    }
}

#[test]
fn directory_fetch_can_fail_both_ways() {
    let lookup = DirectoryLookup::begin(None, credential(), false, &noon());
    match lookup.after_fetch::<f32>(FetchOutcome::ApiRejected(rejection())) {
        DirectoryOutcome::Failed(failure) => {
            assert_eq!(
                failure,
                Failure::RemoteRejected("Invalid base currency\nnot supported\n".to_string())
            );
        }
        other => panic!("a failure was due, not {:?}", other),
    }
    let fetched = FetchOutcome::TransportOrParseFailure("timed out".to_string());
    match lookup.after_fetch::<f32>(fetched) {
        DirectoryOutcome::Failed(failure) => {
            assert_eq!(failure, Failure::RemoteUnreachableOrMalformed("timed out".to_string()));
        }
        other => panic!("a failure was due, not {:?}", other),
    }
}

#[test]
fn a_pair_without_a_rate_is_named() {
    let held = rates(&[("EUR", 0.92)]);
    assert_eq!(teonite::lookup::resolve_rate(&held, "USD", "EUR"), Ok(0.92));
    let failure = teonite::lookup::resolve_rate(&held, "USD", "ZZZ").unwrap_err();
    assert_eq!(
        failure,
        Failure::UnresolvedTarget { source: "USD".to_string(), target: "ZZZ".to_string() }
    );
    assert_eq!(failure.message(), "Cannot exchange: 'USD' - 'ZZZ'");
}

#[test]
fn directory_of_a_source_has_its_own_key() {
    let lookup = DirectoryLookup::begin(Some("USD".to_string()), credential(), false, &noon());
    assert_eq!(lookup.key, "./.teonite/cache/USD17052024.json");
    assert_eq!(lookup.source, Some("USD".to_string()));
    match lookup.first_step::<f32>() {
        DirectoryStep::Read => {}
        other => panic!("a read was due, not {:?}", other),
    }
    match lookup.after_read(Stored::<Currencies<f32>>::Absent) {
        DirectoryStep::Fetch { url } => {
            assert_eq!(
                url,
                "https://api.freecurrencyapi.com/v1/currencies?apikey=SECRET&base_currency=USD"
            );
        }
        other => panic!("a fetch was due, not {:?}", other),
    }
    let at_large = DirectoryLookup::begin(None, credential(), false, &noon());
    assert_eq!(at_large.key, "./.teonite/cache/17052024.json");
}

#[test]
fn refresh_fetches_every_target_whatever_is_stored() {
    let lookup = lookup_of("USD", &["EUR", "PLN", "EUR"]);
    match lookup.refresh::<f32>() {
        RatesStep::Fetch { url, codes: asked, cached } => {
            assert_eq!(asked, codes(&["EUR", "PLN"]));
            assert!(cached.data.is_empty());
            assert_eq!(
                url,
                format!("{}/latest?apikey=SECRET&currencies=EUR,PLN&base_currency=USD", API_URL)
            );
        }
        other => panic!("a fetch was due, not {:?}", other),
    }
}

#[test]
fn a_rejection_without_field_errors_reaches_the_user_with_its_message() {
    let lookup = lookup_of("XXX", &["EUR"]);
    let bare = ApiError { message: "Invalid base currency".to_string(), errors: vec![] };
    let fetched: FetchOutcome<Rates<f32>> = classify(422, Body::Rejection(bare));
    match lookup.after_fetch(Rates::new(), fetched) {
        RatesOutcome::Failed(failure) => {
            assert_eq!(failure, Failure::RemoteRejected("Invalid base currency\n".to_string()));
            assert!(failure.message().contains("Invalid base currency"));
            assert!(failure.escalates());
        }
        other => panic!("a failure was due, not {:?}", other),
    }
}
