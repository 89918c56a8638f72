//! What a reader asks for, as it comes from the command line: numbers in
//! decimal digits for act, scene, first and last line.

use crate::error::LearError;
use crate::layout::{decimal, decimal_text};
use std::ops::RangeInclusive;
use vstd::prelude::*;
use vstd::string::{StrSliceExecFns, StringExecFns};

verus! {

/// The value of a decimal digit, where the character is one.
pub open spec fn digit_value(c: char) -> Option<nat> {
    if c == '0' {
        Some(0)
    } else if c == '1' {
        Some(1)
    } else if c == '2' {
        Some(2)
    } else if c == '3' {
        Some(3)
    } else if c == '4' {
        Some(4)
    } else if c == '5' {
        Some(5)
    } else if c == '6' {
        Some(6)
    } else if c == '7' {
        Some(7)
    } else if c == '8' {
        Some(8)
    } else if c == '9' {
        Some(9)
    } else {
        None
    }
}

/// Every character is a decimal digit.
pub open spec fn all_digits(s: Seq<char>) -> bool {
    forall|i: int| 0 <= i < s.len() ==> digit_value(#[trigger] s[i]) is Some
}

/// The number that decimal digits stand for; 0 for no digits.
pub open spec fn digits_value(s: Seq<char>) -> nat
    decreases s.len(),
{
    if s.len() == 0 {
        0
    } else {
        digits_value(s.drop_last()) * 10 + match digit_value(s.last()) {
            Some(d) => d,
            None => 0,
        }
    }
}

/// The text without the plus sign that may stand in front of a number.
pub open spec fn unsigned_part(s: Seq<char>) -> Seq<char> {
    if s.len() > 0 && s[0] == '+' {
        s.drop_first()
    } else {
        s
    }
}

/// The number that a text stands for: one or more decimal digits, with or
/// without a plus sign in front, whose value fits the machine.
pub open spec fn number_of(s: Seq<char>) -> Option<usize> {
    let digits = unsigned_part(s);
    if digits.len() > 0 && all_digits(digits) && digits_value(digits) <= usize::MAX {
        Some(digits_value(digits) as usize)
    } else {
        None
    }
}

/// More digits do not make a smaller number.
pub proof fn lemma_digits_value_grows(s: Seq<char>, i: int, j: int)
    requires
        0 <= i <= j <= s.len(),
    ensures
        digits_value(s.take(i)) <= digits_value(s.take(j)),
    decreases j - i,
{
    if i < j {
        lemma_digits_value_grows(s, i, j - 1);
        assert(s.take(j).drop_last() =~= s.take(j - 1));
    }
}

/// The value of a decimal digit.
fn digit_of(c: char) -> (r: Option<usize>)
    ensures
        match r {
            Some(d) => digit_value(c) == Some(d as nat) && d < 10,
            None => digit_value(c) is None,
        },
{
    if c == '0' {
        Some(0)
    } else if c == '1' {
        Some(1)
    } else if c == '2' {
        Some(2)
    } else if c == '3' {
        Some(3)
    } else if c == '4' {
        Some(4)
    } else if c == '5' {
        Some(5)
    } else if c == '6' {
        Some(6)
    } else if c == '7' {
        Some(7)
    } else if c == '8' {
        Some(8)
    } else if c == '9' {
        Some(9)
    } else {
        None
    }
}

/// The number that a text stands for, if it stands for one.
pub fn parse_number(s: &str) -> (r: Option<usize>)
    ensures
        r == number_of(s@),
{
    let len = s.unicode_len();
    let from: usize = if len > 0 && s.get_char(0) == '+' {
        1
    } else {
        0
    };
    let ghost digits = unsigned_part(s@);
    assert(digits =~= s@.subrange(from as int, len as int));
    if from == len {
        return None;
    }
    let mut value: usize = 0;
    let mut i: usize = from;
    while i < len
        invariant
            from <= i <= len,
            len == s@.len(),
            digits == s@.subrange(from as int, len as int),
            digits == unsigned_part(s@),
            all_digits(digits.take(i - from)),
            value == digits_value(digits.take(i - from)),
        decreases len - i,
    {
        let ghost k = i - from;
        proof {
            assert(digits.take(k + 1).drop_last() =~= digits.take(k));
            assert(digits.take(k + 1).last() == s@[i as int]);
        }
        let d: usize = match digit_of(s.get_char(i)) {
            Some(d) => d,
            None => {
                assert(digit_value(digits[k]) is None);
                return None;
            },
        };
        if value > (usize::MAX - d) / 10 {
            proof {
                assert(digits_value(digits.take(k + 1)) > usize::MAX);
                lemma_digits_value_grows(digits, k + 1, digits.len() as int);
                assert(digits.take(digits.len() as int) =~= digits);
            }
            return None;
        }
        value = value * 10 + d;
        i += 1;
        assert forall|j: int| 0 <= j < digits.take(i - from).len() implies digit_value(
            #[trigger] digits.take(i - from)[j],
        ) is Some by {
            if j < k {
                assert(digits.take(k)[j] == digits.take(k + 1)[j]);
            }
        }
    }
    assert(digits.take(i - from) =~= digits);
    Some(value)
}

/// Why a request was not understood.
#[derive(Debug, PartialEq, Eq)]
pub enum RequestError {
    /// An argument has no value.
    Missing,
    /// An argument's value, which is not a number.
    NotANumber(String),
    /// The last line lies before the first.
    InvalidSelection,
}

/// What a [`RequestError`] holds, as a value of specifications.
pub enum RequestErrorView {
    Missing,
    NotANumber(Seq<char>),
    InvalidSelection,
}

impl View for RequestError {
    type V = RequestErrorView;

    open spec fn view(&self) -> RequestErrorView {
        match self {
            RequestError::Missing => RequestErrorView::Missing,
            RequestError::NotANumber(s) => RequestErrorView::NotANumber(s@),
            RequestError::InvalidSelection => RequestErrorView::InvalidSelection,
        }
    }
}

/// A request for an excerpt: act, scene, and the lines from the first to
/// the last.
#[derive(Debug, PartialEq, Eq)]
pub struct Quote {
    pub act: usize,
    pub scene: usize,
    pub lines: RangeInclusive<usize>,
}

/// The number that one argument gives, or why it gives none.
pub open spec fn argument(input: Option<&str>) -> Result<usize, RequestErrorView> {
    match input {
        None => Err(RequestErrorView::Missing),
        Some(s) => match number_of(s@) {
            Some(n) => Ok(n),
            None => Err(RequestErrorView::NotANumber(s@)),
        },
    }
}

/// The request that four arguments make: act, scene, first and last line as
/// `(act, scene, first, last)`. The first argument in this order that gives
/// no number decides the error; four numbers are refused where the last
/// line lies before the first.
pub open spec fn quote_of(
    act: Option<&str>,
    scene: Option<&str>,
    start: Option<&str>,
    end: Option<&str>,
) -> Result<(usize, usize, usize, usize), RequestErrorView> {
    match (argument(act), argument(scene), argument(start), argument(end)) {
        (Err(e), _, _, _) => Err(e),
        (Ok(_), Err(e), _, _) => Err(e),
        (Ok(_), Ok(_), Err(e), _) => Err(e),
        (Ok(_), Ok(_), Ok(_), Err(e)) => Err(e),
        (Ok(a), Ok(s), Ok(lo), Ok(hi)) => if hi < lo {
            Err(RequestErrorView::InvalidSelection)
        } else {
            Ok((a, s, lo, hi))
        },
    }
}

/// The number that one argument gives.
pub fn extract_to_usize(input: Option<&str>) -> (r: Result<usize, RequestError>)
    ensures
        match r {
            Ok(n) => argument(input) == Ok::<usize, RequestErrorView>(n),
            Err(e) => argument(input) == Err::<usize, RequestErrorView>(e@),
        },
{
    match input {
        None => Err(RequestError::Missing),
        Some(s) => match parse_number(s) {
            Some(n) => Ok(n),
            None => Err(RequestError::NotANumber(String::from_str(s))),
        },
    }
}

/// The request that the four arguments of a quotation make.
pub fn quote(act: Option<&str>, scene: Option<&str>, start: Option<&str>, end: Option<&str>) -> (r:
    Result<Quote, RequestError>)
    ensures
        match r {
            Ok(q) => {
                &&& quote_of(act, scene, start, end) == Ok::<
                    (usize, usize, usize, usize),
                    RequestErrorView,
                >((q.act, q.scene, q.lines@.start, q.lines@.end))
                &&& !q.lines@.exhausted
            },
            Err(e) => quote_of(act, scene, start, end) == Err::<
                (usize, usize, usize, usize),
                RequestErrorView,
            >(e@),
        },
{
    let a: usize = match extract_to_usize(act) {
        Ok(n) => n,
        Err(e) => { return Err(e); },
    };
    let s: usize = match extract_to_usize(scene) {
        Ok(n) => n,
        Err(e) => { return Err(e); },
    };
    let lo: usize = match extract_to_usize(start) {
        Ok(n) => n,
        Err(e) => { return Err(e); },
    };
    let hi: usize = match extract_to_usize(end) {
        Ok(n) => n,
        Err(e) => { return Err(e); },
    };
    if hi < lo {
        return Err(RequestError::InvalidSelection);
    }
    Ok(Quote { act: a, scene: s, lines: RangeInclusive::new(lo, hi) })
}

/// What a reader is told of a request that was not understood.
pub open spec fn request_message(e: RequestErrorView) -> Seq<char> {
    match e {
        RequestErrorView::Missing => "No value provided for positional args"@,
        RequestErrorView::NotANumber(s) => "Could not parse input \""@ + s + "\" to a number"@,
        RequestErrorView::InvalidSelection => "Line selection is invalid"@,
    }
}

impl RequestError {
    /// What a reader is told of this error.
    pub fn message(&self) -> (r: String)
        ensures
            r@ == request_message(self@),
    {
        match self {
            RequestError::Missing => String::from_str("No value provided for positional args"),
            RequestError::NotANumber(s) => {
                let mut out = String::from_str("Could not parse input \"");
                out.append(s.as_str());
                out.append("\" to a number");
                out
            },
            RequestError::InvalidSelection => String::from_str("Line selection is invalid"),
        }
    }
}

/// The range of lines that the failure names, if it names one, still has
/// its bounds: it was not walked to its end.
pub open spec fn bounds_kept(e: LearError) -> bool {
    match e {
        LearError::InvalidLines { act, scene, lines } => !lines@.exhausted,
        _ => true,
    }
}

/// What a reader is told where the play lacks what was asked for; `None`
/// for a failure that is not the reader's.
pub open spec fn failure_text(e: LearError) -> Option<Seq<char>> {
    match e {
        LearError::IoError(_) => None,
        LearError::InvalidAct(act) => Some("Act "@ + decimal(act as nat) + " is not present"@),
        LearError::InvalidScene { act, scene } => Some(
            "Act "@ + decimal(act as nat) + ", scene "@ + decimal(scene as nat)
                + " is not present"@,
        ),
        LearError::InvalidLines { act, scene, lines } => Some(
            "Lines "@ + decimal(lines@.start as nat) + "-"@ + decimal(lines@.end as nat)
                + " are not present in act "@ + decimal(act as nat) + ", scene "@ + decimal(
                scene as nat,
            ),
        ),
    }
}

/// What a reader is told where the play lacks what was asked for.
pub fn failure_message(e: &LearError) -> (r: Option<String>)
    ensures
        r is Some <==> failure_text(*e) is Some,
        r is Some && bounds_kept(*e) ==> r.unwrap()@ == failure_text(*e).unwrap(),
{
    match e {
        LearError::IoError(_) => None,
        LearError::InvalidAct(act) => {
            let mut out = String::from_str("Act ");
            out.append(decimal_text(*act).as_str());
            out.append(" is not present");
            Some(out)
        },
        LearError::InvalidScene { act, scene } => {
            let mut out = String::from_str("Act ");
            out.append(decimal_text(*act).as_str());
            out.append(", scene ");
            out.append(decimal_text(*scene).as_str());
            out.append(" is not present");
            Some(out)
        },
        LearError::InvalidLines { act, scene, lines } => {
            let mut out = String::from_str("Lines ");
            out.append(decimal_text(*lines.start()).as_str());
            out.append("-");
            out.append(decimal_text(*lines.end()).as_str());
            out.append(" are not present in act ");
            out.append(decimal_text(*act).as_str());
            out.append(", scene ");
            out.append(decimal_text(*scene).as_str());
            Some(out)
        },
    }
}

} // verus!
