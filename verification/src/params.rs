//! The parameters of one run, and how they are read from the arguments of
//! the command line.

use vstd::prelude::*;
use crate::text::{joined, texts};

verus! {

/// What the arguments of the command line ask for.
#[derive(Debug, PartialEq, Eq)]
pub struct Parameters {
    /// The code of the currency to convert from.
    pub source_currency_code: String,
    /// The codes of the currencies to convert into.
    pub target_currency_code: Vec<String>,
    /// The amount to convert, as it was written. Reading it as a number is
    /// left to the caller.
    pub amount: Option<String>,
    /// Whether the rates of every known currency are to be listed.
    pub list_all_rates: bool,
    /// Whether stored data is to be passed over and fetched anew.
    pub force_refetch: bool,
    /// Whether the usage is to be printed.
    pub print_help: bool,
}

/// The parameters as plain text.
pub struct ParametersView {
    pub source_currency_code: Seq<char>,
    pub target_currency_code: Seq<Seq<char>>,
    pub amount: Option<Seq<char>>,
    pub list_all_rates: bool,
    pub force_refetch: bool,
    pub print_help: bool,
}

impl View for Parameters {
    type V = ParametersView;

    open spec fn view(&self) -> ParametersView {
        ParametersView {
            source_currency_code: self.source_currency_code@,
            target_currency_code: texts(self.target_currency_code@),
            amount: match self.amount {
                None => None,
                Some(text) => Some(text@),
            },
            list_all_rates: self.list_all_rates,
            force_refetch: self.force_refetch,
            print_help: self.print_help,
        }
    }
}

/// An option of the command line that lacks its value.
#[derive(Clone, Copy, Debug, PartialEq, Eq, Structural)]
pub enum ArgumentError {
    /// `-s` is the last argument.
    MissingSource,
    /// `-t` is the last argument.
    MissingTargets,
    /// `-a` is the last argument.
    MissingAmount,
}

/// What the user is told of `error`.
pub open spec fn argument_text(error: ArgumentError) -> Seq<char> {
    match error {
        ArgumentError::MissingSource => "Expected valid currency code after -s parameter"@,
        ArgumentError::MissingTargets => "Expected valid currency code after -t paramter"@,
        ArgumentError::MissingAmount => "Expected valid amount after -a paramter"@,
    }
}

impl ArgumentError {
    /// What the user is told of the error.
    pub fn message(&self) -> (text: &'static str)
        ensures
            text@ == argument_text(*self),
    {
        match self {
            ArgumentError::MissingSource => "Expected valid currency code after -s parameter",
            ArgumentError::MissingTargets => "Expected valid currency code after -t paramter",
            ArgumentError::MissingAmount => "Expected valid amount after -a paramter",
        }
    }
}

/// The pieces of `text` between the occurrences of `separator`: one more
/// piece than there are separators.
pub open spec fn split_on(text: Seq<char>, separator: char) -> Seq<Seq<char>>
    decreases text.len(),
{
    if text.len() == 0 {
        seq![Seq::empty()]
    } else {
        let pieces = split_on(text.drop_last(), separator);
        if text.last() == separator {
            pieces.push(Seq::empty())
        } else {
            pieces.drop_last().push(pieces.last().push(text.last()))
        }
    }
}

/// Splitting yields at least one piece, none of which holds the separator,
/// and joining the pieces with the separator gives the text back.
pub proof fn lemma_split_on(text: Seq<char>, separator: char)
    ensures
        split_on(text, separator).len() >= 1,
        forall|i: int, j: int|
            0 <= i < split_on(text, separator).len() && 0 <= j < split_on(text, separator)[i].len()
                ==> #[trigger] split_on(text, separator)[i][j] != separator,
        joined(split_on(text, separator), seq![separator]) == text,
    decreases text.len(),
{
    let pieces = split_on(text, separator);
    if text.len() > 0 {
        let front = text.drop_last();
        let earlier = split_on(front, separator);
        lemma_split_on(front, separator);
        let last = earlier.last();
        if text.last() == separator {
            assert(pieces.drop_last() =~= earlier);
            assert(joined(pieces, seq![separator]) =~= front.push(separator));
            assert(front.push(separator) =~= text);
        } else {
            assert(pieces.last() == last.push(text.last()));
            if earlier.len() == 1 {
                assert(joined(pieces, seq![separator]) =~= front.push(text.last()));
            } else {
                assert(pieces.drop_last() =~= earlier.drop_last());
                assert(joined(pieces, seq![separator]) =~= joined(earlier, seq![separator]).push(
                    text.last(),
                ));
            }
            assert(front.push(text.last()) =~= text);
            assert forall|i: int, j: int|
                0 <= i < pieces.len() && 0 <= j < pieces[i].len() implies #[trigger] pieces[i][j]
                != separator by {
                if i < pieces.len() - 1 {
                    assert(pieces[i] == earlier[i]);
                } else if j < last.len() {
                    assert(pieces[i][j] == earlier[i][j]);
                }
            }
        }
    } else {
        assert(pieces[0] =~= Seq::<char>::empty());
    }
}

/// The pieces of `text` between its commas.
pub fn split_codes(text: &str) -> (pieces: Vec<String>)
    ensures
        texts(pieces@) == split_on(text@, ','),
        pieces@.len() >= 1,
{
    let n = text.unicode_len();
    let mut pieces: Vec<String> = Vec::new();
    let mut start: usize = 0;
    let mut i: usize = 0;
    proof {
        assert(text@.take(0) =~= Seq::<char>::empty());
        assert(texts(pieces@).push(text@.subrange(0, 0)) =~= seq![Seq::<char>::empty()]);
    }
    while i < n
        invariant
            n == text@.len(),
            start <= i <= n,
            texts(pieces@).push(text@.subrange(start as int, i as int)) == split_on(
                text@.take(i as int),
                ',',
            ),
        decreases n - i,
    {
        let ghost before = texts(pieces@);
        let ghost piece = text@.subrange(start as int, i as int);
        proof {
            let upto = text@.take(i + 1);
            assert(upto.drop_last() =~= text@.take(i as int));
            assert(upto.last() == text@[i as int]);
            assert(before.push(piece).drop_last() =~= before);
            assert(before.push(piece).last() == piece);
        }
        if text.get_char(i) == ',' {
            pieces.push(text.substring_char(start, i).to_owned());
            start = i + 1;
            proof {
                assert(texts(pieces@) =~= before.push(piece));
                assert(text@.subrange(start as int, i + 1) =~= Seq::<char>::empty());
            }
        } else {
            proof {
                assert(text@.subrange(start as int, i + 1) =~= piece.push(text@[i as int]));
            }
        }
        i += 1;
    }
    let ghost before = texts(pieces@);
    pieces.push(text.substring_char(start, n).to_owned());
    proof {
        assert(text@.take(n as int) =~= text@);
        assert(texts(pieces@) =~= before.push(text@.subrange(start as int, n as int)));
        lemma_split_on(text@, ',');
        assert(texts(pieces@).len() == pieces@.len());
    }
    pieces
}

/// What is read from `arguments`, one after the other, when `found` has
/// been read before them. `-s`, `-t` and `-a` take the argument that
/// follows as their value; `-f`, `-h` and `-l`, and their long forms, are
/// switches; every other argument is passed over. Of an option that occurs
/// twice, the last counts.
pub open spec fn scan(arguments: Seq<Seq<char>>, found: ParametersView) -> Result<
    ParametersView,
    ArgumentError,
>
    decreases arguments.len(),
{
    if arguments.len() == 0 {
        Ok(found)
    } else {
        let argument = arguments[0];
        let rest = arguments.skip(1);
        if argument == "-s"@ {
            if rest.len() == 0 {
                Err(ArgumentError::MissingSource)
            } else {
                scan(rest.skip(1), ParametersView { source_currency_code: rest[0], ..found })
            }
        } else if argument == "-t"@ {
            if rest.len() == 0 {
                Err(ArgumentError::MissingTargets)
            } else {
                scan(
                    rest.skip(1),
                    ParametersView { target_currency_code: split_on(rest[0], ','), ..found },
                )
            }
        } else if argument == "-a"@ {
            if rest.len() == 0 {
                Err(ArgumentError::MissingAmount)
            } else {
                scan(rest.skip(1), ParametersView { amount: Some(rest[0]), ..found })
            }
        } else if argument == "-f"@ || argument == "--force"@ {
            scan(rest, ParametersView { force_refetch: true, ..found })
        } else if argument == "-h"@ || argument == "--help"@ {
            scan(rest, ParametersView { print_help: true, ..found })
        } else if argument == "--list"@ || argument == "-l"@ {
            scan(rest, ParametersView { list_all_rates: true, ..found })
        } else {
            scan(rest, found)
        }
    }
}

/// The parameters of a run without arguments.
pub open spec fn no_parameters() -> ParametersView {
    ParametersView {
        source_currency_code: Seq::empty(),
        target_currency_code: Seq::empty(),
        amount: None,
        list_all_rates: false,
        force_refetch: false,
        print_help: false,
    }
}

impl Parameters {
    /// The parameters of a run without arguments.
    pub fn new() -> (made: Parameters)
        ensures
            made@ == no_parameters(),
    {
        let made = Parameters {
            source_currency_code: String::new(),
            target_currency_code: Vec::new(),
            amount: None,
            list_all_rates: false,
            force_refetch: false,
            print_help: false,
        };
        proof {
            assert(made@.target_currency_code =~= Seq::<Seq<char>>::empty());
        }
        made
    }

    /// Reads the parameters from the arguments of the command line.
    pub fn parse(arguments: &Vec<String>) -> (read: Result<Parameters, ArgumentError>)
        ensures
            read matches Ok(parameters) ==> scan(texts(arguments@), no_parameters()) == Ok::<
                ParametersView,
                ArgumentError,
            >(parameters@),
            read matches Err(error) ==> scan(texts(arguments@), no_parameters()) == Err::<
                ParametersView,
                ArgumentError,
            >(error),
    {
        let source_option = "-s".to_owned();
        let targets_option = "-t".to_owned();
        let amount_option = "-a".to_owned();
        let force_short = "-f".to_owned();
        let force_long = "--force".to_owned();
        let help_short = "-h".to_owned();
        let help_long = "--help".to_owned();
        let list_long = "--list".to_owned();
        let list_short = "-l".to_owned();
        let ghost all = texts(arguments@);
        let ghost goal = scan(all, no_parameters());
        let mut found = Parameters::new();
        let mut i: usize = 0;
        proof {
            assert(all.skip(0) =~= all);
        }
        while i < arguments.len()
            invariant
                i <= arguments@.len(),
                all == texts(arguments@),
                goal == scan(all, no_parameters()),
                scan(all.skip(i as int), found@) == goal,
                source_option@ == "-s"@,
                targets_option@ == "-t"@,
                amount_option@ == "-a"@,
                force_short@ == "-f"@,
                force_long@ == "--force"@,
                help_short@ == "-h"@,
                help_long@ == "--help"@,
                list_long@ == "--list"@,
                list_short@ == "-l"@,
            decreases arguments@.len() - i,
        {
            let argument = &arguments[i];
            let ghost here = all.skip(i as int);
            proof {
                assert(here[0] == argument@);
                assert(here.skip(1) =~= all.skip(i + 1));
                if i + 1 < all.len() {
                    assert(here.skip(1)[0] == all[i + 1]);
                    assert(here.skip(1).skip(1) =~= all.skip(i + 2));
                }
            }
            if *argument == source_option {
                if i + 1 >= arguments.len() {
                    return Err(ArgumentError::MissingSource);
                }
                found.source_currency_code = arguments[i + 1].clone();
                i += 2;
            } else if *argument == targets_option {
                if i + 1 >= arguments.len() {
                    return Err(ArgumentError::MissingTargets);
                }
                found.target_currency_code = split_codes(arguments[i + 1].as_str());
                i += 2;
            } else if *argument == amount_option {
                if i + 1 >= arguments.len() {
                    return Err(ArgumentError::MissingAmount);
                }
                found.amount = Some(arguments[i + 1].clone());
                i += 2;
            } else if *argument == force_short || *argument == force_long {
                found.force_refetch = true;
                i += 1;
            } else if *argument == help_short || *argument == help_long {
                found.print_help = true;
                i += 1;
            } else if *argument == list_long || *argument == list_short {
                found.list_all_rates = true;
                i += 1;
            } else {
                i += 1;
            }
        }
        proof {
            assert(all.skip(arguments@.len() as int) =~= Seq::<Seq<char>>::empty());
        }
        Ok(found)
    }
}

} // verus!
