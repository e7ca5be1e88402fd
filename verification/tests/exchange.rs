use teonite::code_map::CodeMap;
use teonite::error::Failure;
use teonite::exchange::{
    currencies_url, get_rate, rates_url, ApiError, Credential, Currencies, Currency, Rates,
    API_URL,
};
use teonite::http::{classify, expected_body, Body, BodyKind, FetchOutcome, UNPROCESSABLE};
use teonite::text::join;

fn euro() -> Currency<f32> {
    Currency {
        name: "Euro".to_string(),
        symbol_native: "€".to_string(),
        decimal_digits: 2,
        rounding: 0.0,
        code: "EUR".to_string(),
    }
}

fn key(token: &str) -> Credential {
    Credential::new(token.to_string()).unwrap()
}

fn strings(list: &[&str]) -> Vec<String> {
    list.iter().map(|item| item.to_string()).collect()
}

#[test]
fn rates_request_names_key_codes_and_source() {
    assert_eq!(
        rates_url("USD", &strings(&["EUR", "PLN"]), &key("SECRET")),
        "https://api.freecurrencyapi.com/v1/latest?apikey=SECRET&currencies=EUR,PLN&base_currency=USD"
    );
    assert_eq!(
        rates_url("PLN", &strings(&["EUR"]), &key("k")),
        "https://api.freecurrencyapi.com/v1/latest?apikey=k&currencies=EUR&base_currency=PLN"
    );
    assert_eq!(
        rates_url("PLN", &strings(&[]), &key("k")),
        "https://api.freecurrencyapi.com/v1/latest?apikey=k&currencies=&base_currency=PLN"
    );
}

#[test]
fn directory_request_names_the_key_and_maybe_a_source() {
    assert_eq!(API_URL, "https://api.freecurrencyapi.com/v1");
    assert_eq!(
        currencies_url(&key("SECRET"), None),
        "https://api.freecurrencyapi.com/v1/currencies?apikey=SECRET"
    );
    assert_eq!(
        currencies_url(&key("SECRET"), Some("USD")),
        "https://api.freecurrencyapi.com/v1/currencies?apikey=SECRET&base_currency=USD"
    );
}

#[test]
fn join_puts_the_separator_between_neighbours() {
    assert_eq!(join(&strings(&[]), ", "), "");
    assert_eq!(join(&strings(&["a"]), ", "), "a");
    assert_eq!(join(&strings(&["a", "b", "c"]), ", "), "a, b, c");
    assert_eq!(join(&strings(&["", ""]), ","), ",");
}

#[test]
fn rate_is_looked_up_by_code() {
    let mut rates: Rates<f32> = Rates::new();
    rates.data.insert("EUR".to_string(), 0.92);
    rates.data.insert("PLN".to_string(), 4.01);
    assert_eq!(get_rate(&rates, "EUR"), Some(0.92));
    assert_eq!(get_rate(&rates, "PLN"), Some(4.01));
    assert_eq!(get_rate(&rates, "USD"), None);
    assert_eq!(get_rate(&rates, "eur"), None);
}

#[test]
fn rejection_is_rendered_one_line_for_each_field() {
    let error = ApiError {
        message: "Validation error".to_string(),
        errors: vec![
            ("base_currency".to_string(), strings(&["not supported"])),
            ("currencies".to_string(), strings(&["too many", "unknown code"])),
            ("apikey".to_string(), strings(&[])),
        ],
    };
    assert_eq!(error.render(), "Validation error\nnot supported\ntoo many, unknown code\n\n");
    let empty = ApiError { message: String::new(), errors: vec![] };
    assert_eq!(empty.render(), "\n");
}

#[test]
fn rejection_without_field_errors_still_shows_the_message() {
    let error = ApiError { message: "Invalid base currency".to_string(), errors: vec![] };
    assert_eq!(error.render(), "Invalid base currency\n");
    assert!(error.render().contains("Invalid base currency"));
}

#[test]
fn directory_holds_each_currency_under_its_own_code() {
    let mut data = CodeMap::new();
    data.insert("EUR".to_string(), euro());
    let directory = Currencies::new(data).unwrap();
    assert!(directory.contains("EUR"));
    assert!(!directory.contains("USD"));
    assert_eq!(directory.display_name("EUR"), "Euro");
    assert_eq!(directory.display_name("USD"), " ");
    assert_eq!(directory.codes(), strings(&["EUR"]));
    assert_eq!(directory.data().get("EUR"), Some(&euro()));
    assert_eq!(directory.data().len(), 1);
}

#[test]
fn directory_refuses_a_currency_under_another_code() {
    let mut data = CodeMap::new();
    data.insert("EUR".to_string(), euro());
    data.insert("USD".to_string(), euro());
    assert!(Currencies::new(data).is_none());
    let empty: CodeMap<Currency<f32>> = CodeMap::new();
    assert!(Currencies::new(empty).is_some());
}

#[test]
fn body_is_read_as_the_status_asks() {
    assert_eq!(UNPROCESSABLE, 422);
    assert_eq!(expected_body(422), BodyKind::Rejection);
    assert_eq!(expected_body(200), BodyKind::Payload);
    assert_eq!(expected_body(204), BodyKind::Payload);
    assert_eq!(expected_body(299), BodyKind::Payload);
    assert_eq!(expected_body(199), BodyKind::Unread);
    assert_eq!(expected_body(300), BodyKind::Unread);
    assert_eq!(expected_body(401), BodyKind::Unread);
    assert_eq!(expected_body(500), BodyKind::Unread);
}

#[test]
fn unprocessable_status_is_a_rejection() {
    let error = ApiError {
        message: "Invalid base currency".to_string(),
        errors: vec![("base_currency".to_string(), strings(&["not supported"]))],
    };
    match classify::<u8>(422, Body::Rejection(error)) {
        FetchOutcome::ApiRejected(error) => {
            assert_eq!(error.message, "Invalid base currency");
            assert_eq!(error.render(), "Invalid base currency\nnot supported\n");
            assert!(error.render().contains("not supported"));
            assert!(error.render().contains("Invalid base currency"));
        }
        other => panic!("a rejection was due, not {:?}", other),
    }
}

#[test]
fn success_status_with_a_payload_is_a_success() {
    assert!(matches!(classify(200, Body::Payload(7u8)), FetchOutcome::Success(7)));
    assert!(matches!(classify(201, Body::Payload(8u8)), FetchOutcome::Success(8)));
}

#[test]
fn everything_else_is_a_failure_of_transport_or_parsing() {
    let unreadable = |status: u16| classify::<u8>(status, Body::Unreadable("bad json".to_string()));
    for status in [200u16, 422, 500, 404] {
        match unreadable(status) {
            FetchOutcome::TransportOrParseFailure(reason) => assert_eq!(reason, "bad json"),
            other => panic!("a failure was due, not {:?}", other),
        }
    }
    for status in [199u16, 300, 404, 500] {
        match classify(status, Body::Payload(1u8)) {
            FetchOutcome::TransportOrParseFailure(reason) => {
                assert_eq!(reason, "Unexpected response status")
            }
            other => panic!("a failure was due, not {:?}", other),
        }
    }
    match classify(422, Body::Payload(1u8)) {
        FetchOutcome::TransportOrParseFailure(reason) => {
            assert_eq!(reason, "Response body does not match its status")
        }
        other => panic!("a failure was due, not {:?}", other),
    }
    let error = || ApiError { message: "m".to_string(), errors: vec![] };
    match classify::<u8>(200, Body::Rejection(error())) {
        FetchOutcome::TransportOrParseFailure(reason) => {
            assert_eq!(reason, "Response body does not match its status")
        }
        other => panic!("a failure was due, not {:?}", other),
    }
    match classify::<u8>(500, Body::Rejection(error())) {
        FetchOutcome::TransportOrParseFailure(reason) => {
            assert_eq!(reason, "Unexpected response status")
        }
        other => panic!("a failure was due, not {:?}", other),
    }
}

#[test]
fn empty_credential_is_refused() {
    assert_eq!(Credential::new(String::new()).unwrap_err(), Failure::InvalidCredential);
    assert_eq!(Credential::new("k".to_string()).unwrap().token(), "k");
    assert_eq!(Credential::new(" ".to_string()).unwrap().token(), " ");
    let credential = Credential::new("SECRET".to_string()).unwrap();
    assert_eq!(credential.clone().token(), "SECRET");
}

#[test]
fn each_failure_has_its_message() {
    assert_eq!(
        Failure::CacheCorrupted.message(),
        "Failed to parse cached data. Please clear .teonite/cache folder."
    );
    assert_eq!(
        Failure::CachePersistFailed { key: "./.teonite/cache/x.json".to_string() }.message(),
        "Failed to cache exchange rates: '\"./.teonite/cache/x.json\"'"
    );
    assert_eq!(
        Failure::RemoteRejected("Invalid base currency\nnot supported\n".to_string()).message(),
        "Invalid base currency\nnot supported\n"
    );
    assert_eq!(
        Failure::RemoteUnreachableOrMalformed("timed out".to_string()).message(),
        "timed out"
    );
    assert_eq!(
        Failure::UnresolvedTarget { source: "USD".to_string(), target: "ZZZ".to_string() }
            .message(),
        "Cannot exchange: 'USD' - 'ZZZ'"
    );
    assert_eq!(
        Failure::InvalidCredential.message(),
        "Invalid API key, please provide valid API_KEY enviroment variable"
    );
}

#[test]
fn only_a_failed_write_stays_with_the_cache_layer() {
    assert!(!Failure::CachePersistFailed { key: "k".to_string() }.escalates());
    assert!(Failure::CacheCorrupted.escalates());
    assert!(Failure::RemoteRejected("m".to_string()).escalates());
    assert!(Failure::RemoteUnreachableOrMalformed("m".to_string()).escalates());
    assert!(Failure::UnresolvedTarget { source: "a".to_string(), target: "b".to_string() }
        .escalates());
    assert!(Failure::InvalidCredential.escalates());
}

#[test]
fn currencies_under_another_code_are_no_directory_body() {
    let mut good = CodeMap::new();
    good.insert("EUR".to_string(), euro());
    match teonite::http::directory_body(Body::Payload(good)) {
        Body::Payload(directory) => assert!(directory.contains("EUR")),
        other => panic!("a directory was due, not {:?}", other),
    }
    let mut bad = CodeMap::new();
    bad.insert("USD".to_string(), euro());
    match teonite::http::directory_body(Body::Payload(bad)) {
        Body::Unreadable(reason) => assert_eq!(
            reason,
            "Currency directory holds a currency under another code than its own"
        ),
        other => panic!("an unreadable body was due, not {:?}", other),
    }
    let rejection = ApiError { message: "m".to_string(), errors: vec![] };
    match teonite::http::directory_body::<f32>(Body::Rejection(rejection)) {
        Body::Rejection(error) => assert_eq!(error.message, "m"),
        other => panic!("a rejection was due, not {:?}", other),
    }
    match teonite::http::directory_body::<f32>(Body::Unreadable("bad json".to_string())) {
        Body::Unreadable(reason) => assert_eq!(reason, "bad json"),
        other => panic!("an unreadable body was due, not {:?}", other),
    }
}
