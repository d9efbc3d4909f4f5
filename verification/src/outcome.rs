//! What a production hands back: the text it left and a value, or a failure.

use vstd::prelude::*;

verus! {

/// Why a production gave up.
#[derive(Debug, Clone, Copy, PartialEq, Eq)]
pub enum ParseError<'a> {
    /// The production does not start here. A caller may try another one.
    /// Holds the text at which a token was looked for and not found.
    NoMatch(&'a str),
    /// A construct was recognised and what follows it cannot follow it. No
    /// other production is tried. Holds the offending text.
    Malformed(&'a str),
}

/// The text that a production left, and the value it built.
pub type ParseResult<'a, T> = Result<(&'a str, T), ParseError<'a>>;

/// [`ParseError`] over sequences of characters.
pub enum Failure {
    NoMatch(Seq<char>),
    Malformed(Seq<char>),
}

/// [`ParseResult`] over sequences of characters.
pub type Outcome<T> = Result<(Seq<char>, T), Failure>;

impl<'a> View for ParseError<'a> {
    type V = Failure;

    open spec fn view(&self) -> Failure {
        match *self {
            ParseError::NoMatch(at) => Failure::NoMatch(at@),
            ParseError::Malformed(at) => Failure::Malformed(at@),
        }
    }
}

/// A result with every text in it taken as its sequence of characters.
pub open spec fn outcome<'a, T>(r: ParseResult<'a, T>) -> Outcome<T> {
    match r {
        Ok((rest, value)) => Ok((rest@, value)),
        Err(e) => Err(e@),
    }
}

/// `a` is `s` without some of its first characters.
pub open spec fn is_tail_of(a: Seq<char>, s: Seq<char>) -> bool {
    a.len() <= s.len() && a == s.skip(s.len() - a.len())
}

/// Every text that `r` holds is a tail of `s`.
pub open spec fn stays_within<T>(r: Outcome<T>, s: Seq<char>) -> bool {
    match r {
        Ok((rest, _)) => is_tail_of(rest, s),
        Err(Failure::NoMatch(at)) => is_tail_of(at, s),
        Err(Failure::Malformed(at)) => is_tail_of(at, s),
    }
}

/// `r` stays within `s`, and where it succeeds it has taken at least one
/// character.
pub open spec fn advances<T>(r: Outcome<T>, s: Seq<char>) -> bool {
    stays_within(r, s) && (r matches Ok((rest, _)) ==> rest.len() < s.len())
}

/// A tail of a tail is a tail.
pub proof fn lemma_tail_of_tail(a: Seq<char>, b: Seq<char>, s: Seq<char>)
    requires
        is_tail_of(a, b),
        is_tail_of(b, s),
    ensures
        is_tail_of(a, s),
{
    assert(b.skip(b.len() - a.len()) =~= s.skip(s.len() - a.len()));
}

} // verus!
