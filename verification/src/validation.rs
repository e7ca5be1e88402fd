//! The check of the requested currency codes against the currency
//! directory.

use vstd::prelude::*;
use crate::exchange::Currencies;
use crate::params::Parameters;
use crate::text::{join, joined, texts};

verus! {

/// A requested code that the currency directory does not list.
#[derive(Debug, PartialEq, Eq)]
pub enum ValidationError {
    /// The directory does not list the source currency.
    InvalidSource { code: String },
    /// The directory does not list these targets, or they cannot be
    /// exchanged for `source`.
    InvalidTargets { source: String, targets: Vec<String> },
}

/// What the user is told of `error`.
pub open spec fn validation_text(error: ValidationError) -> Seq<char> {
    match error {
        ValidationError::InvalidSource { code } => "'"@ + code@ + "' is not a valid currency code"@,
        ValidationError::InvalidTargets { source, targets } =>
            "This passed target currencies are invalid, or cannot be exchanged for '"@ + source@
                + "': '"@ + joined(texts(targets@), ", "@) + "'"@,
    }
}

impl ValidationError {
    /// What the user is told of the error.
    pub fn message(&self) -> (text: String)
        ensures
            text@ == validation_text(*self),
    {
        match self {
            ValidationError::InvalidSource { code } => {
                let mut text = "'".to_owned();
                text.append(code.as_str());
                text.append("' is not a valid currency code");
                text
            },
            ValidationError::InvalidTargets { source, targets } => {
                let listed = join(targets, ", ");
                let mut text = String::new();
                text.append(
                    "This passed target currencies are invalid, or cannot be exchanged for '",
                );
                text.append(source.as_str());
                text.append("': '");
                text.append(listed.as_str());
                text.append("'");
                text
            },
        }
    }
}

/// The codes of `targets` that `listed` lacks, in their order; a code that
/// occurs twice is named twice.
pub open spec fn unlisted(targets: Seq<Seq<char>>, listed: Set<Seq<char>>) -> Seq<Seq<char>>
    decreases targets.len(),
{
    if targets.len() == 0 {
        Seq::empty()
    } else if listed.contains(targets.last()) {
        unlisted(targets.drop_last(), listed)
    } else {
        unlisted(targets.drop_last(), listed).push(targets.last())
    }
}

/// No target is unlisted exactly when the directory lists every target.
pub proof fn lemma_unlisted(targets: Seq<Seq<char>>, listed: Set<Seq<char>>)
    ensures
        unlisted(targets, listed).len() == 0 <==> forall|i: int|
            0 <= i < targets.len() ==> listed.contains(#[trigger] targets[i]),
        forall|i: int|
            0 <= i < unlisted(targets, listed).len() ==> !listed.contains(
                #[trigger] unlisted(targets, listed)[i],
            ),
    decreases targets.len(),
{
    if targets.len() > 0 {
        let front = targets.drop_last();
        lemma_unlisted(front, listed);
        if unlisted(targets, listed).len() == 0 {
            assert forall|i: int| 0 <= i < targets.len() implies listed.contains(
                #[trigger] targets[i],
            ) by {
                if i < front.len() {
                    assert(front[i] == targets[i]);
                }
            }
        }
        if forall|i: int| 0 <= i < targets.len() ==> listed.contains(#[trigger] targets[i]) {
            assert forall|i: int| 0 <= i < front.len() implies listed.contains(
                #[trigger] front[i],
            ) by {
                assert(front[i] == targets[i]);
            }
            assert(listed.contains(targets[targets.len() - 1]));
        }
    }
}

/// The codes a directory lists, where there is a directory.
pub open spec fn listed_codes<R>(directory: Option<&Currencies<R>>) -> Option<Set<Seq<char>>> {
    match directory {
        None => None,
        Some(info) => Some(info@.dom()),
    }
}

/// Whether a request for `targets` against `source` passes the check
/// against `listed`: without a directory every request does, and with one
/// the source and every target have to be listed.
pub open spec fn passes(
    source: Seq<char>,
    targets: Seq<Seq<char>>,
    listed: Option<Set<Seq<char>>>,
) -> bool {
    listed matches Some(codes) ==> codes.contains(source) && forall|i: int|
        0 <= i < targets.len() ==> codes.contains(#[trigger] targets[i])
}

/// Whether `checked` is the verdict on a request for `targets` against
/// `source`: an unlisted source is reported before any target, and the
/// unlisted targets are reported together.
pub open spec fn is_verdict(
    source: Seq<char>,
    targets: Seq<Seq<char>>,
    listed: Option<Set<Seq<char>>>,
    checked: Result<(), ValidationError>,
) -> bool {
    match listed {
        None => checked is Ok,
        Some(codes) => {
            let invalid = unlisted(targets, codes);
            if !codes.contains(source) {
                checked matches Err(ValidationError::InvalidSource { code }) && code@ == source
            } else if invalid.len() > 0 {
                &&& checked matches Err(
                    ValidationError::InvalidTargets { source: from, targets: named },
                )
                &&& from@ == source
                &&& texts(named@) == invalid
            } else {
                checked is Ok
            }
        },
    }
}

/// Checks the requested codes against the currency directory.
///
/// Without a directory every request passes. With one, the source has to
/// be listed, and then every target.
pub fn validate<R>(params: &Parameters, directory: Option<&Currencies<R>>) -> (checked: Result<
    (),
    ValidationError,
>)
    ensures
        is_verdict(
            params.source_currency_code@,
            texts(params.target_currency_code@),
            listed_codes(directory),
            checked,
        ),
        checked is Ok <==> passes(
            params.source_currency_code@,
            texts(params.target_currency_code@),
            listed_codes(directory),
        ),
{
    let info = match directory {
        None => {
            return Ok(());
        },
        Some(info) => info,
    };
    if !info.contains(params.source_currency_code.as_str()) {
        return Err(ValidationError::InvalidSource { code: params.source_currency_code.clone() });
    }
    let ghost all = texts(params.target_currency_code@);
    let ghost listed = info@.dom();
    let mut invalid: Vec<String> = Vec::new();
    let mut i: usize = 0;
    while i < params.target_currency_code.len()
        invariant
            i <= params.target_currency_code@.len(),
            all == texts(params.target_currency_code@),
            listed == info@.dom(),
            texts(invalid@) == unlisted(all.take(i as int), listed),
        decreases params.target_currency_code@.len() - i,
    {
        let code = &params.target_currency_code[i];
        proof {
            let upto = all.take(i + 1);
            assert(upto.drop_last() =~= all.take(i as int));
            assert(upto.last() == code@);
        }
        if !info.contains(code.as_str()) {
            let ghost before = texts(invalid@);
            invalid.push(code.clone());
            assert(texts(invalid@) =~= before.push(code@));
        }
        i += 1;
    }
    proof {
        assert(all.take(params.target_currency_code@.len() as int) =~= all);
        assert(texts(invalid@).len() == invalid@.len());
        lemma_unlisted(all, listed);
    }
    if invalid.len() > 0 {
        Err(
            ValidationError::InvalidTargets {
                source: params.source_currency_code.clone(),
                targets: invalid,
            },
        )
    } else {
        Ok(())
    }
}

} // verus!
