//! The parser: one function for each production of the grammar.
//!
//! Each function takes the text to parse and hands back what the production
//! of the same name in [`crate::grammar`] gives for it.

use vstd::prelude::*;
use crate::grammar::{
    spec_atom, spec_closing, spec_comma_separator, spec_eitheror_expression, spec_eitheror_leaf,
    spec_ends_expression, spec_expression, spec_float_pair, spec_float_triple,
    spec_iterate_expression, spec_opening, spec_parenthesized_float_pair,
    spec_parenthesized_float_triple, spec_rotation_expression, spec_semicolon_separator,
    spec_separator, spec_translation_expression,
};
use crate::language::{Expression, Scalar};
use crate::outcome::{ParseError, ParseResult, outcome};
use crate::progress::{
    lemma_keyword_stays_within, lemma_opening_advances, lemma_recursive_productions_advance,
    lemma_separator_advances,
};
use crate::tokens::{
    keyword, lemma_multispace0_is_tail, multispace0, number, spec_multispace0, symbol,
};

verus! {

/// The character `c` with blank space on both sides of it.
fn separator<'a>(c: char, text: &'a str) -> (r: ParseResult<'a, ()>)
    ensures
        outcome(r) == spec_separator(c, text@),
{
    match symbol(c, multispace0(text)) {
        Err(e) => Err(e),
        Ok((rest, _)) => Ok((multispace0(rest), ())),
    }
}

/// The bracket `open` and the blank space after it.
fn opening<'a>(open: char, text: &'a str) -> (r: ParseResult<'a, ()>)
    ensures
        outcome(r) == spec_opening(open, text@),
{
    match symbol(open, text) {
        Err(e) => Err(e),
        Ok((rest, _)) => Ok((multispace0(rest), ())),
    }
}

/// After what was parsed inside a bracket, blank space and the bracket
/// `close`.
fn closing<'a, T>(close: char, inner: ParseResult<'a, T>) -> (r: ParseResult<'a, T>)
    ensures
        outcome(r) == spec_closing(close, outcome(inner)),
{
    match inner {
        Err(e) => Err(e),
        Ok((rest, value)) => match symbol(close, multispace0(rest)) {
            Err(e) => Err(e),
            Ok((rest, _)) => Ok((rest, value)),
        },
    }
}

/// A comma, with blank space allowed on both sides.
pub fn comma_separator<'a>(text: &'a str) -> (r: ParseResult<'a, ()>)
    ensures
        outcome(r) == spec_comma_separator(text@),
{
    separator(',', text)
}

/// A semicolon, with blank space allowed on both sides.
pub fn semicolon_separator<'a>(text: &'a str) -> (r: ParseResult<'a, ()>)
    ensures
        outcome(r) == spec_semicolon_separator(text@),
{
    separator(';', text)
}

/// Two numbers with a comma between them.
pub fn float_pair<'a>(text: &'a str) -> (r: ParseResult<'a, (Scalar, Scalar)>)
    ensures
        outcome(r) == spec_float_pair(text@),
{
    let (text, a) = match number(text) {
        Err(e) => { return Err(e); },
        Ok(found) => found,
    };
    let text = match comma_separator(text) {
        Err(e) => { return Err(e); },
        Ok((rest, _)) => rest,
    };
    match number(text) {
        Err(e) => Err(e),
        Ok((rest, b)) => Ok((rest, (a, b))),
    }
}

/// Three numbers with commas between them.
pub fn float_triple<'a>(text: &'a str) -> (r: ParseResult<'a, (Scalar, Scalar, Scalar)>)
    ensures
        outcome(r) == spec_float_triple(text@),
{
    let (text, a) = match number(text) {
        Err(e) => { return Err(e); },
        Ok(found) => found,
    };
    let text = match comma_separator(text) {
        Err(e) => { return Err(e); },
        Ok((rest, _)) => rest,
    };
    match float_pair(text) {
        Err(e) => Err(e),
        Ok((rest, (b, c))) => Ok((rest, (a, b, c))),
    }
}

/// A pair of numbers in round brackets.
pub fn parenthesized_float_pair<'a>(text: &'a str) -> (r: ParseResult<'a, (Scalar, Scalar)>)
    ensures
        outcome(r) == spec_parenthesized_float_pair(text@),
{
    match opening('(', text) {
        Err(e) => Err(e),
        Ok((inner, _)) => closing(')', float_pair(inner)),
    }
}

/// A triple of numbers in round brackets.
pub fn parenthesized_float_triple<'a>(text: &'a str) -> (r: ParseResult<
    'a,
    (Scalar, Scalar, Scalar),
>)
    ensures
        outcome(r) == spec_parenthesized_float_triple(text@),
{
    match opening('(', text) {
        Err(e) => Err(e),
        Ok((inner, _)) => closing(')', float_triple(inner)),
    }
}

/// `translation`, then a pair of numbers in round brackets.
pub fn translation_expression<'a>(text: &'a str) -> (r: ParseResult<'a, Expression>)
    ensures
        outcome(r) == spec_translation_expression(text@),
{
    let text = match keyword("translation", text) {
        Err(e) => { return Err(e); },
        Ok((rest, _)) => rest,
    };
    match parenthesized_float_pair(multispace0(text)) {
        Err(e) => Err(e),
        Ok((rest, (u, v))) => Ok((rest, Expression::Translation { u, v })),
    }
}

/// `rotation`, then a triple of numbers in round brackets.
pub fn rotation_expression<'a>(text: &'a str) -> (r: ParseResult<'a, Expression>)
    ensures
        outcome(r) == spec_rotation_expression(text@),
{
    let text = match keyword("rotation", text) {
        Err(e) => { return Err(e); },
        Ok((rest, _)) => rest,
    };
    match parenthesized_float_triple(multispace0(text)) {
        Err(e) => Err(e),
        Ok((rest, (u, v, theta))) => Ok((rest, Expression::Rotation { u, v, theta })),
    }
}

/// `iter`, then an expression in round brackets.
pub fn iterate_expression<'a>(text: &'a str) -> (r: ParseResult<'a, Expression>)
    ensures
        outcome(r) == spec_iterate_expression(text@),
    decreases text@.len(), 0int,
{
    let after_word = match keyword("iter", text) {
        Err(e) => { return Err(e); },
        Ok((rest, _)) => rest,
    };
    let inner = match opening('(', multispace0(after_word)) {
        Err(e) => { return Err(e); },
        Ok((rest, _)) => rest,
    };
    proof {
        lemma_keyword_stays_within("iter"@, text@);
        lemma_multispace0_is_tail(after_word@);
        lemma_opening_advances('(', spec_multispace0(after_word@));
    }
    match closing(')', expression(inner)) {
        Err(e) => Err(e),
        Ok((rest, body)) => Ok((rest, Expression::Iterate(Box::new(body)))),
    }
}

/// An expression in curly brackets: one branch of an alternative.
pub fn eitheror_leaf<'a>(text: &'a str) -> (r: ParseResult<'a, Expression>)
    ensures
        outcome(r) == spec_eitheror_leaf(text@),
    decreases text@.len(), 0int,
{
    match opening('{', text) {
        Err(e) => Err(e),
        Ok((inner, _)) => {
            proof {
                lemma_opening_advances('{', text@);
            }
            closing('}', expression(inner))
        },
    }
}

/// Two leaves with `or` between them.
pub fn eitheror_expression<'a>(text: &'a str) -> (r: ParseResult<'a, Expression>)
    ensures
        outcome(r) == spec_eitheror_expression(text@),
    decreases text@.len(), 1int,
{
    let (after_left, left) = match eitheror_leaf(text) {
        Err(e) => { return Err(e); },
        Ok(found) => found,
    };
    let after_word = match keyword("or", multispace0(after_left)) {
        Err(e) => { return Err(e); },
        Ok((rest, _)) => rest,
    };
    let second = multispace0(after_word);
    proof {
        lemma_recursive_productions_advance(text@);
        lemma_multispace0_is_tail(after_left@);
        lemma_keyword_stays_within("or"@, spec_multispace0(after_left@));
        lemma_multispace0_is_tail(after_word@);
    }
    match eitheror_leaf(second) {
        Err(e) => Err(e),
        Ok((rest, right)) => Ok(
            (rest, Expression::EitherOr { left: Box::new(left), right: Box::new(right) }),
        ),
    }
}

/// One of the four atoms: the productions are tried in the order
/// translation, rotation, iteration, alternative, and only `NoMatch` lets the
/// next one be tried.
pub fn atom<'a>(text: &'a str) -> (r: ParseResult<'a, Expression>)
    ensures
        outcome(r) == spec_atom(text@),
    decreases text@.len(), 2int,
{
    match translation_expression(text) {
        Err(ParseError::NoMatch(_)) => match rotation_expression(text) {
            Err(ParseError::NoMatch(_)) => match iterate_expression(text) {
                Err(ParseError::NoMatch(_)) => eitheror_expression(text),
                r => r,
            },
            r => r,
        },
        r => r,
    }
}

/// Whether an expression may end before `text`: at the end of the text, or
/// at a closing bracket.
pub fn ends_expression(text: &str) -> (b: bool)
    ensures
        b == spec_ends_expression(text@),
{
    text.is_empty() || symbol(')', text).is_ok() || symbol('}', text).is_ok()
}

/// An expression: an atom, or atoms chained by semicolons.
///
/// Hands back the expression and the text after it. The text after it starts
/// with the blank space that follows the last atom, if there is any.
pub fn expression<'a>(text: &'a str) -> (r: ParseResult<'a, Expression>)
    ensures
        outcome(r) == spec_expression(text@),
    decreases text@.len(), 3int,
{
    let (after_first, first) = match atom(text) {
        Err(e) => { return Err(e); },
        Ok(found) => found,
    };
    match semicolon_separator(after_first) {
        Ok((after_semicolon, _)) => {
            proof {
                lemma_recursive_productions_advance(text@);
                lemma_separator_advances(';', after_first@);
            }
            match expression(after_semicolon) {
                Err(e) => Err(e),
                Ok((rest, second)) => Ok(
                    (rest, Expression::Chained(Box::new(first), Box::new(second))),
                ),
            }
        },
        Err(ParseError::NoMatch(at)) => {
            if ends_expression(at) {
                Ok((after_first, first))
            } else {
                Err(ParseError::Malformed(at))
            }
        },
        Err(e) => Err(e),
    }
}

} // verus!
