//! The tokens of the language: blank space, single characters, words and
//! numeric literals.
//!
//! The tokens are recognised by the `nom` crate. Each function of that crate
//! that is called stands behind one function here, whose contract Verus takes
//! as given; the doc comment of each says what is taken as given.

use vstd::prelude::*;
use crate::language::Scalar;
use crate::outcome::{Failure, Outcome, ParseError, ParseResult, outcome, is_tail_of};

verus! {

/// Space, tab, carriage return and line feed.
pub open spec fn is_space(c: char) -> bool {
    c == ' ' || c == '\t' || c == '\r' || c == '\n'
}

/// `s` from its first character that is not blank.
pub open spec fn spec_multispace0(s: Seq<char>) -> Seq<char>
    decreases s.len(),
{
    if s.len() > 0 && is_space(s[0]) {
        spec_multispace0(s.skip(1))
    } else {
        s
    }
}

/// `s` after the character `c`, where `s` starts with it.
pub open spec fn spec_symbol(c: char, s: Seq<char>) -> Outcome<()> {
    if s.len() > 0 && s[0] == c {
        Ok((s.skip(1), ()))
    } else {
        Err(Failure::NoMatch(s))
    }
}

/// `s` after the word `word`, where `s` starts with it.
pub open spec fn spec_keyword(word: Seq<char>, s: Seq<char>) -> Outcome<()> {
    if word.is_prefix_of(s) {
        Ok((s.skip(word.len() as int), ()))
    } else {
        Err(Failure::NoMatch(s))
    }
}

/// What the scanner of numeric literals makes of the start of a text.
pub enum Scan {
    /// A literal stands first. `rest` is what follows it, `bits` the bit
    /// pattern of the binary64 number that it denotes.
    Literal { rest: Seq<char>, bits: u64 },
    /// No literal starts here.
    Absent,
    /// A literal starts here and breaks off.
    Broken,
}

/// [`Scan`] as the scanner hands it over.
#[derive(Debug, Clone, Copy, PartialEq, Eq)]
pub enum Scanned<'a> {
    Literal { rest: &'a str, bits: u64 },
    Absent,
    Broken,
}

impl<'a> View for Scanned<'a> {
    type V = Scan;

    open spec fn view(&self) -> Scan {
        match *self {
            Scanned::Literal { rest, bits } => Scan::Literal { rest: rest@, bits },
            Scanned::Absent => Scan::Absent,
            Scanned::Broken => Scan::Broken,
        }
    }
}

/// What `nom::number::complete::double` makes of `text`: which literals it
/// takes, and which number each denotes, is the scanner's business and is not
/// spelled out here.
pub uninterp spec fn spec_double(text: Seq<char>) -> Scan;

/// The number at the start of `s`, given what the scanner made of `s`.
pub open spec fn spec_number_from(s: Seq<char>, scan: Scan) -> Outcome<Scalar> {
    match scan {
        Scan::Literal { rest, bits } => Ok((rest, Scalar { bits })),
        Scan::Absent => Err(Failure::NoMatch(s)),
        Scan::Broken => Err(Failure::Malformed(s)),
    }
}

/// The number at the start of `s`. A scan that leaves anything but a tail of
/// `s` counts as no number.
pub open spec fn spec_number(s: Seq<char>) -> Outcome<Scalar> {
    match spec_double(s) {
        Scan::Literal { rest, bits } if !is_tail_of(rest, s) => Err(Failure::NoMatch(s)),
        scan => spec_number_from(s, scan),
    }
}

/// Calls `nom::character::complete::multispace0` on a `&str`.
///
/// Taken as given: the call cannot fail, and hands back the text from its
/// first character other than space, tab, carriage return and line feed (the
/// empty end of the text where there is none).
#[verifier::external_body]
pub(crate) fn multispace0<'a>(text: &'a str) -> (rest: &'a str)
    ensures
        rest@ == spec_multispace0(text@),
{
    match nom::character::complete::multispace0::<&str, nom::error::Error<&str>>(text) {
        Ok((rest, _)) => rest,
        Err(_) => text,
    }
}

/// Calls the parser that `nom::character::complete::char` builds for `c`.
///
/// Taken as given: it succeeds exactly where the first character of the text
/// is `c`, and then hands back the text after that character.
#[verifier::external_body]
pub(crate) fn character<'a>(c: char, text: &'a str) -> (r: Option<&'a str>)
    ensures
        r matches Some(rest) ==> text@.len() > 0 && text@[0] == c && rest@ == text@.skip(1),
        r is None ==> text@.len() == 0 || text@[0] != c,
{
    match nom::character::complete::char::<&str, nom::error::Error<&str>>(c)(text) {
        Ok((rest, _)) => Some(rest),
        Err(_) => None,
    }
}

/// Calls the parser that `nom::bytes::complete::tag` builds for `word`.
///
/// Taken as given: it succeeds exactly where the text starts with `word`, and
/// then hands back the text after it.
#[verifier::external_body]
pub(crate) fn tag<'a>(word: &str, text: &'a str) -> (r: Option<&'a str>)
    ensures
        r matches Some(rest) ==> word@.is_prefix_of(text@) && rest@ == text@.skip(
            word@.len() as int,
        ),
        r is None ==> !word@.is_prefix_of(text@),
{
    match nom::bytes::complete::tag::<&str, &str, nom::error::Error<&str>>(word)(text) {
        Ok((rest, _)) => Some(rest),
        Err(_) => None,
    }
}

/// Calls `nom::number::complete::double` on a `&str`.
///
/// Taken as given: what comes back depends on the text alone; on success the
/// text handed back is a tail of the text given; a failure is either one that
/// `nom` lets a caller recover from (`Absent`) or one that it does not
/// (`Broken`).
#[verifier::external_body]
pub(crate) fn double<'a>(text: &'a str) -> (r: Scanned<'a>)
    ensures
        r@ == spec_double(text@),
        r matches Scanned::Literal { rest, .. } ==> is_tail_of(rest@, text@),
{
    match nom::number::complete::double::<&str, nom::error::Error<&str>>(text) {
        Ok((rest, value)) => Scanned::Literal { rest, bits: value.to_bits() },
        Err(nom::Err::Error(_)) => Scanned::Absent,
        Err(_) => Scanned::Broken,
    }
}

/// Blank space never makes a text longer: what is left is a tail.
pub proof fn lemma_multispace0_is_tail(s: Seq<char>)
    ensures
        is_tail_of(spec_multispace0(s), s),
    decreases s.len(),
{
    if s.len() > 0 && is_space(s[0]) {
        lemma_multispace0_is_tail(s.skip(1));
        crate::outcome::lemma_tail_of_tail(spec_multispace0(s), s.skip(1), s);
    } else {
        assert(s.skip(0) =~= s);
    }
}

/// The character `c` at the start of `text`.
pub fn symbol<'a>(c: char, text: &'a str) -> (r: ParseResult<'a, ()>)
    ensures
        outcome(r) == spec_symbol(c, text@),
{
    match character(c, text) {
        Some(rest) => Ok((rest, ())),
        None => Err(ParseError::NoMatch(text)),
    }
}

/// The word `word` at the start of `text`.
pub fn keyword<'a>(word: &str, text: &'a str) -> (r: ParseResult<'a, ()>)
    ensures
        outcome(r) == spec_keyword(word@, text@),
{
    match tag(word, text) {
        Some(rest) => Ok((rest, ())),
        None => Err(ParseError::NoMatch(text)),
    }
}

/// The number that a scan of `text` found: a literal gives its number, none
/// gives `NoMatch`, a broken one gives `Malformed`, both at `text`.
pub fn number_from<'a>(text: &'a str, scanned: Scanned<'a>) -> (r: ParseResult<'a, Scalar>)
    ensures
        outcome(r) == spec_number_from(text@, scanned@),
{
    match scanned {
        Scanned::Literal { rest, bits } => Ok((rest, Scalar { bits })),
        Scanned::Absent => Err(ParseError::NoMatch(text)),
        Scanned::Broken => Err(ParseError::Malformed(text)),
    }
}

/// The number at the start of `text`.
pub fn number<'a>(text: &'a str) -> (r: ParseResult<'a, Scalar>)
    ensures
        outcome(r) == spec_number(text@),
{
    number_from(text, double(text))
}

} // verus!
