//! The grammar, as functions from a text to what parsing it gives.
//!
//! ```text
//! expression  := atom (';' expression)?
//! atom        := translation | rotation | iterate | eitherOr
//! translation := 'translation' '(' float ',' float ')'
//! rotation    := 'rotation' '(' float ',' float ',' float ')'
//! iterate     := 'iter' '(' expression ')'
//! eitherOr    := leaf 'or' leaf
//! leaf        := '{' expression '}'
//! ```
//!
//! Blank space may stand between any two tokens, and after the last one.

use vstd::prelude::*;
use crate::language::{Expression, Scalar};
use crate::outcome::{Failure, Outcome};
use crate::tokens::{
    lemma_multispace0_is_tail, spec_keyword, spec_multispace0, spec_number, spec_symbol,
};

verus! {

/// The character `c` with blank space on both sides of it.
pub open spec fn spec_separator(c: char, s: Seq<char>) -> Outcome<()> {
    match spec_symbol(c, spec_multispace0(s)) {
        Err(e) => Err(e),
        Ok((rest, _)) => Ok((spec_multispace0(rest), ())),
    }
}

pub open spec fn spec_comma_separator(s: Seq<char>) -> Outcome<()> {
    spec_separator(',', s)
}

pub open spec fn spec_semicolon_separator(s: Seq<char>) -> Outcome<()> {
    spec_separator(';', s)
}

/// Two numbers with a comma between them.
pub open spec fn spec_float_pair(s: Seq<char>) -> Outcome<(Scalar, Scalar)> {
    match spec_number(s) {
        Err(e) => Err(e),
        Ok((s1, a)) => match spec_comma_separator(s1) {
            Err(e) => Err(e),
            Ok((s2, _)) => match spec_number(s2) {
                Err(e) => Err(e),
                Ok((rest, b)) => Ok((rest, (a, b))),
            },
        },
    }
}

/// Three numbers with commas between them.
pub open spec fn spec_float_triple(s: Seq<char>) -> Outcome<(Scalar, Scalar, Scalar)> {
    match spec_number(s) {
        Err(e) => Err(e),
        Ok((s1, a)) => match spec_comma_separator(s1) {
            Err(e) => Err(e),
            Ok((s2, _)) => match spec_float_pair(s2) {
                Err(e) => Err(e),
                Ok((rest, (b, c))) => Ok((rest, (a, b, c))),
            },
        },
    }
}

/// The bracket `open` and the blank space after it.
pub open spec fn spec_opening(open: char, s: Seq<char>) -> Outcome<()> {
    match spec_symbol(open, s) {
        Err(e) => Err(e),
        Ok((rest, _)) => Ok((spec_multispace0(rest), ())),
    }
}

/// What was parsed inside a bracket, then blank space and the bracket `close`.
pub open spec fn spec_closing<T>(close: char, inner: Outcome<T>) -> Outcome<T> {
    match inner {
        Err(e) => Err(e),
        Ok((s1, value)) => match spec_symbol(close, spec_multispace0(s1)) {
            Err(e) => Err(e),
            Ok((rest, _)) => Ok((rest, value)),
        },
    }
}

pub open spec fn spec_parenthesized_float_pair(s: Seq<char>) -> Outcome<(Scalar, Scalar)> {
    match spec_opening('(', s) {
        Err(e) => Err(e),
        Ok((s1, _)) => spec_closing(')', spec_float_pair(s1)),
    }
}

pub open spec fn spec_parenthesized_float_triple(s: Seq<char>) -> Outcome<
    (Scalar, Scalar, Scalar),
> {
    match spec_opening('(', s) {
        Err(e) => Err(e),
        Ok((s1, _)) => spec_closing(')', spec_float_triple(s1)),
    }
}

pub open spec fn spec_translation_expression(s: Seq<char>) -> Outcome<Expression> {
    match spec_keyword("translation"@, s) {
        Err(e) => Err(e),
        Ok((s1, _)) => match spec_parenthesized_float_pair(spec_multispace0(s1)) {
            Err(e) => Err(e),
            Ok((rest, (u, v))) => Ok((rest, Expression::Translation { u, v })),
        },
    }
}

pub open spec fn spec_rotation_expression(s: Seq<char>) -> Outcome<Expression> {
    match spec_keyword("rotation"@, s) {
        Err(e) => Err(e),
        Ok((s1, _)) => match spec_parenthesized_float_triple(spec_multispace0(s1)) {
            Err(e) => Err(e),
            Ok((rest, (u, v, theta))) => Ok((rest, Expression::Rotation { u, v, theta })),
        },
    }
}

/// Whether an expression may end before `s`: at the end of the text, or at a
/// closing bracket.
pub open spec fn spec_ends_expression(s: Seq<char>) -> bool {
    s.len() == 0 || s[0] == ')' || s[0] == '}'
}

pub open spec fn spec_iterate_expression(s: Seq<char>) -> Outcome<Expression>
    decreases s.len(), 0int,
{
    match spec_keyword("iter"@, s) {
        Err(e) => Err(e),
        Ok((s1, _)) => match spec_opening('(', spec_multispace0(s1)) {
            Err(e) => Err(e),
            Ok((s2, _)) => {
                proof {
                    lemma_multispace0_is_tail(s1);
                    lemma_multispace0_is_tail(spec_multispace0(s1).skip(1));
                }
                match spec_closing(')', spec_expression(s2)) {
                    Err(e) => Err(e),
                    Ok((rest, body)) => Ok((rest, Expression::Iterate(Box::new(body)))),
                }
            },
        },
    }
}

pub open spec fn spec_eitheror_leaf(s: Seq<char>) -> Outcome<Expression>
    decreases s.len(), 0int,
{
    match spec_opening('{', s) {
        Err(e) => Err(e),
        Ok((s1, _)) => {
            proof {
                lemma_multispace0_is_tail(s.skip(1));
            }
            spec_closing('}', spec_expression(s1))
        },
    }
}

/// Two leaves with `or` between them.
///
/// The second leaf is looked for in what the first one left, which is
/// shorter than `s`: the test on the lengths is there for the recursion to be
/// well founded, and never fails
/// ([`crate::laws::lemma_or_joins_two_leaves`]).
pub open spec fn spec_eitheror_expression(s: Seq<char>) -> Outcome<Expression>
    decreases s.len(), 1int,
{
    match spec_eitheror_leaf(s) {
        Err(e) => Err(e),
        Ok((s1, left)) => match spec_keyword("or"@, spec_multispace0(s1)) {
            Err(e) => Err(e),
            Ok((s2, _)) => {
                let s3 = spec_multispace0(s2);
                if s3.len() < s.len() {
                    match spec_eitheror_leaf(s3) {
                        Err(e) => Err(e),
                        Ok((rest, right)) => Ok(
                            (
                                rest,
                                Expression::EitherOr {
                                    left: Box::new(left),
                                    right: Box::new(right),
                                },
                            ),
                        ),
                    }
                } else {
                    Err(Failure::NoMatch(s3))
                }
            },
        },
    }
}

/// The first of translation, rotation, iteration and alternative, in this
/// order, that does not fail with `NoMatch`. Where all four do, the failure
/// of the last.
pub open spec fn spec_atom(s: Seq<char>) -> Outcome<Expression>
    decreases s.len(), 2int,
{
    match spec_translation_expression(s) {
        Err(Failure::NoMatch(_)) => match spec_rotation_expression(s) {
            Err(Failure::NoMatch(_)) => match spec_iterate_expression(s) {
                Err(Failure::NoMatch(_)) => spec_eitheror_expression(s),
                r => r,
            },
            r => r,
        },
        r => r,
    }
}

/// An atom, and then one of three things. A semicolon: an expression must
/// follow, and the two are chained. The end of the text or a closing
/// bracket: the atom is the expression, and the text after the atom is left
/// as it is. Anything else: the text is malformed from there.
///
/// The expression after a semicolon is looked for in a text shorter than
/// `s`: the test on the lengths is there for the recursion to be well
/// founded, and never fails ([`crate::laws::lemma_semicolon_chains`]).
pub open spec fn spec_expression(s: Seq<char>) -> Outcome<Expression>
    decreases s.len(), 3int,
{
    match spec_atom(s) {
        Err(e) => Err(e),
        Ok((s1, first)) => match spec_semicolon_separator(s1) {
            Ok((s2, _)) => if s2.len() < s.len() {
                match spec_expression(s2) {
                    Err(e) => Err(e),
                    Ok((rest, second)) => Ok(
                        (rest, Expression::Chained(Box::new(first), Box::new(second))),
                    ),
                }
            } else {
                Err(Failure::NoMatch(s2))
            },
            Err(Failure::NoMatch(at)) => if spec_ends_expression(at) {
                Ok((s1, first))
            } else {
                Err(Failure::Malformed(at))
            },
            Err(e) => Err(e),
        },
    }
}

} // verus!
