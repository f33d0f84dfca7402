//! Errors and the text they are shown with.

use vstd::prelude::*;
use vstd::string::StringExecFns;

verus! {

pub const ERR: &'static str = "\u{1b}[31m";

pub const SUCCESS: &'static str = "\u{1b}[32m";

pub const INFO: &'static str = "\u{1b}[33m";

pub const DEBUG: &'static str = "\u{1b}[35m";

pub const MSG: &'static str = "\u{1b}[36m";

pub const RESET: &'static str = "\u{1b}[0m";

pub const UP: &'static str = "\u{1b}[1A";

pub const DOWN: &'static str = "\u{1b}[1B";

pub const LEFT: &'static str = "\u{1b}[1D";

pub const RIGHT: &'static str = "\u{1b}[1C";

pub const TOP: &'static str = "\u{1b}[H";

pub const BOTTOM: &'static str = "\u{1b}[999B";

pub const CLEAR: &'static str = "\u{1b}[2J";

/// The character that stands for the digit `d`.
pub open spec fn digit_char(d: nat) -> char
    recommends
        d < 10,
{
    (d + 48) as char
}

/// The decimal numeral of `n`, without leading zeros.
pub open spec fn decimal(n: nat) -> Seq<char>
    decreases n,
{
    if n < 10 {
        seq![digit_char(n)]
    } else {
        decimal(n / 10).push(digit_char(n % 10))
    }
}

fn digit(d: usize) -> (c: char)
    requires
        d < 10,
    ensures
        c == digit_char(d as nat),
{
    (d as u8 + 48u8) as char
}

/// Writes `n` as a decimal numeral.
pub fn decimal_string(n: usize) -> (s: String)
    ensures
        s@ == decimal(n as nat),
{
    // The digits below the leading one, least significant first.
    let mut low: Vec<char> = Vec::new();
    let mut rest: usize = n;
    while rest >= 10
        invariant
            decimal(n as nat) == decimal(rest as nat) + low@.reverse(),
        decreases rest,
    {
        let ghost before = low@;
        low.push(digit(rest % 10));
        assert(low@.reverse() =~= seq![digit_char((rest % 10) as nat)] + before.reverse());
        assert(decimal(rest as nat) + before.reverse() =~= decimal((rest / 10) as nat)
            + low@.reverse());
        rest = rest / 10;
    }
    let mut s = String::new();
    s.push(digit(rest));
    let mut i: usize = low.len();
    while i > 0
        invariant
            i <= low.len(),
            s@ == decimal(rest as nat) + low@.reverse().take(low.len() - i),
        decreases i,
    {
        i -= 1;
        s.push(low[i]);
        assert(low@.reverse().take(low.len() - i) =~= low@.reverse().take(low.len() - i - 1).push(
            low@[i as int],
        ));
    }
    assert(low@.reverse().take(low.len() as int) =~= low@.reverse());
    s
}

/// What an error holds, as mathematical values.
pub struct ErrorView {
    pub message: Seq<char>,
    pub index: Option<nat>,
    pub additional_info: Option<Seq<char>>,
    pub additional_data: Option<nat>,
}

/// An error with its message and, where known, the index it was met at.
#[derive(Debug)]
pub struct ApolloError {
    message: String,
    index: Option<usize>,
    additional_info: Option<String>,
    additional_data: Option<usize>,
}

impl View for ApolloError {
    type V = ErrorView;

    closed spec fn view(&self) -> ErrorView {
        ErrorView {
            message: self.message@,
            index: match self.index {
                Some(i) => Some(i as nat),
                None => None,
            },
            additional_info: match self.additional_info {
                Some(info) => Some(info@),
                None => None,
            },
            additional_data: match self.additional_data {
                Some(d) => Some(d as nat),
                None => None,
            },
        }
    }
}

/// The text an error is shown with: the message in colour, then the index
/// if there is one.
pub open spec fn error_text(error: ErrorView) -> Seq<char> {
    let head = ERR@ + "Error: "@ + MSG@ + error.message;
    let place = match error.index {
        Some(i) => ERR@ + " at index "@ + INFO@ + decimal(i),
        None => Seq::empty(),
    };
    head + place + RESET@
}

impl ApolloError {
    pub fn new(
        message: String,
        index: Option<usize>,
        additional_info: Option<String>,
        additional_data: Option<usize>,
    ) -> (error: ApolloError)
        ensures
            error@ == (ErrorView {
                message: message@,
                index: match index {
                    Some(i) => Some(i as nat),
                    None => None,
                },
                additional_info: match additional_info {
                    Some(info) => Some(info@),
                    None => None,
                },
                additional_data: match additional_data {
                    Some(d) => Some(d as nat),
                    None => None,
                },
            }),
    {
        ApolloError { message, index, additional_info, additional_data }
    }

    /// Renders the error as it is shown.
    pub fn to_string(&self) -> (s: String)
        ensures
            s@ == error_text(self@),
    {
        let mut s = ERR.to_owned();
        s.append("Error: ");
        s.append(MSG);
        s.append(self.message.as_str());
        let ghost head = s@;
        match self.index {
            Some(i) => {
                let numeral = decimal_string(i);
                s.append(ERR);
                s.append(" at index ");
                s.append(INFO);
                s.append(numeral.as_str());
                assert(s@ =~= head + (ERR@ + " at index "@ + INFO@ + decimal(i as nat)));
            },
            None => {
                assert(s@ =~= head + Seq::<char>::empty());
            },
        }
        s.append(RESET);
        s
    }
}

} // verus!
