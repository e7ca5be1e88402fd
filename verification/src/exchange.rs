//! The data the remote rate source hands out, and the requests it takes.
//!
//! The library never computes with an exchange rate or a rounding
//! increment: it stores, looks up and merges them. Both are therefore type
//! parameters, which the caller fills with its number type.

use vstd::prelude::*;
use crate::error::Failure;
use crate::code_map::{
    entries_map, entry_codes, lemma_entries_map_dom, lemma_entries_map_values, CodeMap,
};
use crate::text::{join, joined, texts};

verus! {

/// A short upper-case identifier of a currency, such as `USD`. The library
/// treats it as an opaque key.
pub type CurrencyCode = String;

/// Exchange rates relative to one source currency, by target code.
#[derive(Debug)]
pub struct Rates<V> {
    /// The rates by target code.
    pub data: CodeMap<V>,
}

impl<V> View for Rates<V> {
    type V = Map<Seq<char>, V>;

    open spec fn view(&self) -> Map<Seq<char>, V> {
        self.data@
    }
}

impl<V> Rates<V> {
    /// Rates for no code.
    pub fn new() -> (made: Rates<V>)
        ensures
            made@ == Map::<Seq<char>, V>::empty(),
    {
        Rates { data: CodeMap::new() }
    }
}

/// The rate of `currency_code`, where `rates` holds one.
pub fn get_rate<V: Copy>(rates: &Rates<V>, currency_code: &str) -> (rate: Option<V>)
    ensures
        rate is Some <==> rates@.contains_key(currency_code@),
        rate matches Some(r) ==> r == rates@[currency_code@],
{
    match rates.data.get(currency_code) {
        Some(rate) => Some(*rate),
        None => None,
    }
}

/// What the remote source knows of one currency.
#[derive(Debug, PartialEq, Eq)]
pub struct Currency<R> {
    /// The display name.
    pub name: String,
    /// The symbol the currency is written with where it is at home.
    pub symbol_native: String,
    /// The number of decimal places amounts are written with.
    pub decimal_digits: u8,
    /// The rounding increment.
    pub rounding: R,
    /// The currency's own code.
    pub code: CurrencyCode,
}

/// Whether every currency of `data` stands under its own code.
pub open spec fn codes_match<R>(data: Map<Seq<char>, Currency<R>>) -> bool {
    forall|code: Seq<char>| #[trigger] data.contains_key(code) ==> data[code].code@ == code
}

/// The currency directory: every currency a source can be exchanged
/// against, each under its own code.
#[derive(Debug)]
pub struct Currencies<R> {
    data: CodeMap<Currency<R>>,
}

impl<R> View for Currencies<R> {
    type V = Map<Seq<char>, Currency<R>>;

    closed spec fn view(&self) -> Map<Seq<char>, Currency<R>> {
        self.data@
    }
}

impl<R> Currencies<R> {
    /// Every currency stands under its own code.
    #[verifier::type_invariant]
    pub closed spec fn valid(&self) -> bool {
        codes_match(self.data@)
    }

    /// The directory that holds `data`, or `None` where a currency stands
    /// under another code than its own.
    pub fn new(data: CodeMap<Currency<R>>) -> (made: Option<Currencies<R>>)
        ensures
            made is Some <==> codes_match(data@),
            made matches Some(directory) ==> directory@ == data@ && directory.valid(),
    {
        proof {
            use_type_invariant(&data);
            data.lemma_entries();
            lemma_entries_map_values(data.entries());
            lemma_entries_map_dom(data.entries());
        }
        let n = data.len();
        let mut i: usize = 0;
        while i < n
            invariant
                i <= n,
                n == data.entries().len(),
                data@ == entries_map(data.entries()),
                entry_codes(data.entries()).no_duplicates(),
                forall|j: int|
                    0 <= j < data.entries().len() ==> data@.contains_key(
                        #[trigger] data.entries()[j].0@,
                    ) && data@[data.entries()[j].0@] == data.entries()[j].1,
                forall|j: int|
                    0 <= j < i ==> (#[trigger] data.entries()[j]).1.code@
                        == data.entries()[j].0@,
            decreases n - i,
        {
            let entry = data.entry(i);
            if entry.1.code != entry.0 {
                proof {
                    let code = data.entries()[i as int].0@;
                    assert(data@.contains_key(code));
                    assert(data@[code].code@ != code);
                }
                return None;
            }
            i += 1;
        }
        proof {
            assert forall|code: Seq<char>| #[trigger]
                data@.contains_key(code) implies data@[code].code@ == code by {
                let codes = entry_codes(data.entries());
                assert(codes.to_set().contains(code));
                let j = choose|j: int| 0 <= j < codes.len() && codes[j] == code;
                assert(data.entries()[j].0@ == code);
            }
        }
        Some(Currencies { data })
    }

    /// The currencies by code.
    pub fn data(&self) -> (data: &CodeMap<Currency<R>>)
        ensures
            data@ == self@,
            codes_match(data@),
    {
        proof {
            use_type_invariant(self);
        }
        &self.data
    }

    /// Whether the directory lists `code`.
    pub fn contains(&self, code: &str) -> (listed: bool)
        ensures
            listed == self@.contains_key(code@),
    {
        self.data.contains_key(code)
    }

    /// The name to print beside `code`: the currency's display name, or a
    /// blank where the directory does not list the code.
    pub fn display_name(&self, code: &str) -> (name: String)
        ensures
            self@.contains_key(code@) ==> name@ == self@[code@].name@,
            !self@.contains_key(code@) ==> name@ == " "@,
    {
        match self.data.get(code) {
            Some(currency) => currency.name.clone(),
            None => " ".to_owned(),
        }
    }

    /// The codes the directory lists, each once.
    pub fn codes(&self) -> (codes: Vec<CurrencyCode>)
        ensures
            texts(codes@).no_duplicates(),
            texts(codes@).to_set() == self@.dom(),
            codes@.len() == self@.len(),
    {
        self.data.codes()
    }
}

/// What the remote source answers where it rejects a request: a message,
/// and for each field of the request the complaints about it.
#[derive(Debug, PartialEq, Eq)]
pub struct ApiError {
    /// What the source says of the request as a whole.
    pub message: String,
    /// The fields of the request that the source complains about, each with
    /// its complaints.
    pub errors: Vec<(String, Vec<String>)>,
}

/// One line for each field: its complaints, separated by a comma and a
/// blank.
pub open spec fn error_lines(errors: Seq<(String, Vec<String>)>) -> Seq<char>
    decreases errors.len(),
{
    if errors.len() == 0 {
        Seq::empty()
    } else {
        error_lines(errors.drop_last()) + joined(texts(errors.last().1@), ", "@) + "\n"@
    }
}

/// A rejection as the user reads it: the message of the remote source on
/// a line of its own, then one line for each field it complains about.
pub open spec fn rejection_text(error: ApiError) -> Seq<char> {
    error.message@ + "\n"@ + error_lines(error.errors@)
}

impl ApiError {
    /// The rejection as text for the user: the message of the remote
    /// source, word for word, then one line for each field of the request,
    /// holding the complaints about it.
    pub fn render(&self) -> (text: String)
        ensures
            text@ == rejection_text(*self),
    {
        let mut text = self.message.clone();
        text.append("\n");
        let mut i: usize = 0;
        while i < self.errors.len()
            invariant
                i <= self.errors@.len(),
                text@ == self.message@ + "\n"@ + error_lines(self.errors@.take(i as int)),
            decreases self.errors@.len() - i,
        {
            proof {
                let upto = self.errors@.take(i + 1);
                assert(upto.drop_last() =~= self.errors@.take(i as int));
                assert(upto.last() == self.errors@[i as int]);
            }
            let ghost before = text@;
            let line = join(&self.errors[i].1, ", ");
            text.append(line.as_str());
            text.append("\n");
            proof {
                assert(text@ =~= self.message@ + "\n"@ + error_lines(
                    self.errors@.take(i + 1),
                ));
            }
            i += 1;
        }
        proof {
            assert(self.errors@.take(self.errors@.len() as int) =~= self.errors@);
        }
        text
    }
}

/// The credential the remote source asks for: a token that is not empty.
#[derive(Debug)]
pub struct Credential {
    token: String,
}

impl View for Credential {
    type V = Seq<char>;

    closed spec fn view(&self) -> Seq<char> {
        self.token@
    }
}

impl Credential {
    /// The token is not empty.
    #[verifier::type_invariant]
    pub closed spec fn valid(&self) -> bool {
        self.token@.len() > 0
    }

    /// Accepts every token but the empty one. A request can only be made
    /// with a credential, so this check comes before any request.
    pub fn new(token: String) -> (made: Result<Credential, Failure>)
        ensures
            made is Ok <==> token@.len() > 0,
            made matches Ok(credential) ==> credential@ == token@ && credential.valid(),
            made matches Err(failure) ==> failure is InvalidCredential,
    {
        if token.as_str().is_empty() {
            Err(Failure::InvalidCredential)
        } else {
            Ok(Credential { token })
        }
    }

    /// The token.
    pub fn token(&self) -> (token: &str)
        ensures
            token@ == self@,
            token@.len() > 0,
    {
        proof {
            use_type_invariant(self);
        }
        self.token.as_str()
    }
}

impl Clone for Credential {
    fn clone(&self) -> (copy: Credential)
        ensures
            copy@ == self@,
    {
        proof {
            use_type_invariant(self);
        }
        Credential { token: self.token.clone() }
    }
}

/// The address of the remote rate source.
pub const API_URL: &'static str = "https://api.freecurrencyapi.com/v1";

/// The request for the latest rates of `source` against `targets`.
pub open spec fn rates_url_text(
    source: Seq<char>,
    targets: Seq<Seq<char>>,
    token: Seq<char>,
) -> Seq<char> {
    API_URL@ + "/latest?apikey="@ + token + "&currencies="@ + joined(targets, ","@)
        + "&base_currency="@ + source
}

/// The request for the currency directory, scoped to `source` where one
/// is given.
pub open spec fn currencies_url_text(token: Seq<char>, source: Option<Seq<char>>) -> Seq<char> {
    match source {
        None => API_URL@ + "/currencies?apikey="@ + token,
        Some(code) => API_URL@ + "/currencies?apikey="@ + token + "&base_currency="@ + code,
    }
}

/// The text of a code that may be missing.
pub open spec fn code_text(code: Option<&str>) -> Option<Seq<char>> {
    match code {
        None => None,
        Some(text) => Some(text@),
    }
}

/// The request for the latest rates of `source` against `targets`, with
/// the credential as a query parameter.
pub fn rates_url(source: &str, targets: &Vec<CurrencyCode>, credential: &Credential) -> (url:
    String)
    ensures
        url@ == rates_url_text(source@, texts(targets@), credential@),
{
    let joined_codes = join(targets, ",");
    let mut url = API_URL.to_owned();
    url.append("/latest?apikey=");
    url.append(credential.token());
    url.append("&currencies=");
    url.append(joined_codes.as_str());
    url.append("&base_currency=");
    url.append(source);
    url
}

/// The request for the currency directory, with the credential as a query
/// parameter.
pub fn currencies_url(credential: &Credential, source: Option<&str>) -> (url: String)
    ensures
        url@ == currencies_url_text(credential@, code_text(source)),
{
    let mut url = API_URL.to_owned();
    url.append("/currencies?apikey=");
    url.append(credential.token());
    match source {
        None => {},
        Some(code) => {
            url.append("&base_currency=");
            url.append(code);
        },
    }
    url
}

} // verus!
