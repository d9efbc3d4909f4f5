//! What holds of the grammar on every text.

use vstd::prelude::*;
use crate::grammar::{
    spec_atom, spec_eitheror_expression, spec_eitheror_leaf, spec_ends_expression,
    spec_expression, spec_iterate_expression, spec_opening, spec_rotation_expression,
    spec_semicolon_separator, spec_translation_expression,
};
use crate::language::Expression;
use crate::outcome::{Failure, Outcome};
use crate::progress::{lemma_recursive_productions_advance, lemma_separator_advances};
use crate::tokens::{
    is_space, lemma_multispace0_is_tail, spec_double, spec_keyword, spec_multispace0,
};

verus! {

/// `first`, chained in front of what parsing the rest gave.
pub open spec fn chained_with(first: Expression, rest: Outcome<Expression>) -> Outcome<
    Expression,
> {
    match rest {
        Err(e) => Err(e),
        Ok((left, second)) => Ok((left, Expression::Chained(Box::new(first), Box::new(second)))),
    }
}

/// The chaining rule: where a semicolon follows an atom, an expression must
/// follow the semicolon. The result is the atom chained with that
/// expression, or else the failure of that expression.
pub proof fn lemma_semicolon_chains(s: Seq<char>, s1: Seq<char>, first: Expression, s2: Seq<char>)
    requires
        spec_atom(s) == Ok::<(Seq<char>, Expression), Failure>((s1, first)),
        spec_semicolon_separator(s1) == Ok::<(Seq<char>, ()), Failure>((s2, ())),
    ensures
        spec_expression(s) == chained_with(first, spec_expression(s2)),
{
    lemma_recursive_productions_advance(s);
    lemma_separator_advances(';', s1);
}

/// `left`, as the first branch of an alternative whose second branch is what
/// parsing the rest gave.
pub open spec fn either_with(left: Expression, rest: Outcome<Expression>) -> Outcome<Expression> {
    match rest {
        Err(e) => Err(e),
        Ok((after, right)) => Ok(
            (after, Expression::EitherOr { left: Box::new(left), right: Box::new(right) }),
        ),
    }
}

/// Where `or` follows a leaf, a second leaf must follow it. The result is the
/// alternative of the two, or else the failure of the second leaf.
pub proof fn lemma_or_joins_two_leaves(
    s: Seq<char>,
    s1: Seq<char>,
    left: Expression,
    s2: Seq<char>,
)
    requires
        spec_eitheror_leaf(s) == Ok::<(Seq<char>, Expression), Failure>((s1, left)),
        spec_keyword("or"@, spec_multispace0(s1)) == Ok::<(Seq<char>, ()), Failure>((s2, ())),
    ensures
        spec_eitheror_expression(s) == either_with(
            left,
            spec_eitheror_leaf(spec_multispace0(s2)),
        ),
{
    lemma_recursive_productions_advance(s);
    lemma_multispace0_is_tail(s1);
    lemma_multispace0_is_tail(s2);
}

/// An atom is a whole expression where, after blank space, the text ends or
/// a closing bracket stands. The text after the atom is left as it is, blank
/// space included.
pub proof fn lemma_terminator_is_accepted(s: Seq<char>, s1: Seq<char>, first: Expression)
    requires
        spec_atom(s) == Ok::<(Seq<char>, Expression), Failure>((s1, first)),
        spec_ends_expression(spec_multispace0(s1)),
    ensures
        spec_expression(s) == Ok::<(Seq<char>, Expression), Failure>((s1, first)),
{
}

/// Where something else than a semicolon, a closing bracket or the end of the
/// text follows an atom, the expression is malformed, and the failure holds
/// the text from that point on.
pub proof fn lemma_trailing_text_is_malformed(s: Seq<char>, s1: Seq<char>, first: Expression)
    requires
        spec_atom(s) == Ok::<(Seq<char>, Expression), Failure>((s1, first)),
        spec_multispace0(s1).len() > 0,
        spec_multispace0(s1)[0] != ';',
        spec_multispace0(s1)[0] != ')',
        spec_multispace0(s1)[0] != '}',
    ensures
        spec_expression(s) == Err::<(Seq<char>, Expression), Failure>(
            Failure::Malformed(spec_multispace0(s1)),
        ),
{
}

/// An expression that was parsed is followed, after blank space, by the end
/// of the text or by a closing bracket: no other text is ever left behind a
/// success.
pub proof fn lemma_success_ends_at_terminator(s: Seq<char>)
    ensures
        spec_expression(s) matches Ok((rest, _)) ==> spec_ends_expression(spec_multispace0(rest)),
    decreases s.len(),
{
    if let Ok((s1, _)) = spec_atom(s) {
        if let Ok((s2, _)) = spec_semicolon_separator(s1) {
            lemma_recursive_productions_advance(s);
            lemma_separator_advances(';', s1);
            lemma_success_ends_at_terminator(s2);
        }
    }
}

/// A text at which parsing can stop for good: a numeric literal that breaks
/// off, or a character that is neither blank, nor a semicolon, nor a closing
/// bracket.
pub open spec fn is_offending(at: Seq<char>) -> bool {
    spec_double(at) is Broken || (at.len() > 0 && !is_space(at[0]) && at[0] != ';' && at[0] != ')'
        && at[0] != '}')
}

/// `r` is no `Malformed`, or one that holds an offending text.
pub open spec fn reports_offending<T>(r: Outcome<T>) -> bool {
    r matches Err(Failure::Malformed(at)) ==> is_offending(at)
}

/// What blank space was skipped from does not start with blank space.
pub proof fn lemma_multispace0_stops_at_text(s: Seq<char>)
    ensures
        spec_multispace0(s).len() > 0 ==> !is_space(spec_multispace0(s)[0]),
    decreases s.len(),
{
    if s.len() > 0 && is_space(s[0]) {
        lemma_multispace0_stops_at_text(s.skip(1));
    }
}

/// A `Malformed` failure holds the offending text: the text from the literal
/// that broke off, or from the character that cannot follow an atom.
pub proof fn lemma_malformed_holds_offending_text(s: Seq<char>)
    ensures
        reports_offending(spec_translation_expression(s)),
        reports_offending(spec_rotation_expression(s)),
        reports_offending(spec_eitheror_leaf(s)),
        reports_offending(spec_iterate_expression(s)),
        reports_offending(spec_eitheror_expression(s)),
        reports_offending(spec_atom(s)),
        reports_offending(spec_expression(s)),
    decreases s.len(),
{
    lemma_recursive_productions_advance(s);
    assert(reports_offending(spec_eitheror_leaf(s))) by {
        if let Ok((s1, _)) = spec_opening('{', s) {
            lemma_multispace0_is_tail(s.skip(1));
            lemma_malformed_holds_offending_text(s1);
        }
    }
    assert(reports_offending(spec_iterate_expression(s))) by {
        if let Ok((s1, _)) = spec_keyword("iter"@, s) {
            let s2 = spec_multispace0(s1);
            lemma_multispace0_is_tail(s1);
            if let Ok((s3, _)) = spec_opening('(', s2) {
                lemma_multispace0_is_tail(s2.skip(1));
                lemma_malformed_holds_offending_text(s3);
            }
        }
    }
    assert(reports_offending(spec_eitheror_expression(s))) by {
        if let Ok((s1, _)) = spec_eitheror_leaf(s) {
            if let Ok((s2, _)) = spec_keyword("or"@, spec_multispace0(s1)) {
                let s3 = spec_multispace0(s2);
                if s3.len() < s.len() {
                    lemma_malformed_holds_offending_text(s3);
                }
            }
        }
    }
    assert(reports_offending(spec_expression(s))) by {
        if let Ok((s1, _)) = spec_atom(s) {
            lemma_multispace0_stops_at_text(s1);
            if let Ok((s2, _)) = spec_semicolon_separator(s1) {
                lemma_separator_advances(';', s1);
                lemma_malformed_holds_offending_text(s2);
            }
        }
    }
}

/// Whether `r` is a `NoMatch` failure, the one kind that lets another
/// production be tried.
pub open spec fn is_no_match<T>(r: Outcome<T>) -> bool {
    r matches Err(Failure::NoMatch(_))
}

/// No two of the four atoms start alike, so the order in which they are
/// tried decides nothing: where one of them succeeds, or fails with
/// `Malformed`, that is what the atom gives. A `Malformed` failure is never
/// lost to a production that is tried later.
pub proof fn lemma_alternatives_exclude_one_another(s: Seq<char>)
    ensures
        !is_no_match(spec_translation_expression(s)) ==> spec_atom(s)
            == spec_translation_expression(s),
        !is_no_match(spec_rotation_expression(s)) ==> spec_atom(s) == spec_rotation_expression(s),
        !is_no_match(spec_iterate_expression(s)) ==> spec_atom(s) == spec_iterate_expression(s),
        !is_no_match(spec_eitheror_expression(s)) ==> spec_atom(s) == spec_eitheror_expression(s),
        is_no_match(spec_atom(s)) <==> is_no_match(spec_translation_expression(s)) && is_no_match(
            spec_rotation_expression(s),
        ) && is_no_match(spec_iterate_expression(s)) && is_no_match(spec_eitheror_expression(s)),
{
    reveal_strlit("translation");
    reveal_strlit("rotation");
    reveal_strlit("iter");
    let translation = "translation"@;
    let rotation = "rotation"@;
    let iter = "iter"@;
    if translation.is_prefix_of(s) {
        assert(s[0] == s.subrange(0, translation.len() as int)[0]);
        assert(s[0] == 't');
    }
    if rotation.is_prefix_of(s) {
        assert(s[0] == s.subrange(0, rotation.len() as int)[0]);
        assert(s[0] == 'r');
    }
    if iter.is_prefix_of(s) {
        assert(s[0] == s.subrange(0, iter.len() as int)[0]);
        assert(s[0] == 'i');
    }
}

/// Chains lean to the right everywhere in `e`: the first part of a chain is
/// never itself a chain.
pub open spec fn is_right_nested(e: Expression) -> bool
    decreases e,
{
    match e {
        Expression::Translation { .. } => true,
        Expression::Rotation { .. } => true,
        Expression::Chained(first, second) => !(*first is Chained) && is_right_nested(*first)
            && is_right_nested(*second),
        Expression::EitherOr { left, right } => is_right_nested(*left) && is_right_nested(*right),
        Expression::Iterate(body) => is_right_nested(*body),
    }
}

/// `r` is a failure, or holds a tree whose chains lean to the right.
pub open spec fn gives_right_nested(r: Outcome<Expression>) -> bool {
    r matches Ok((_, e)) ==> is_right_nested(e)
}

/// Chaining associates to the right: an atom is never a chain, and in every
/// tree that is parsed the first part of each chain is an atom.
pub proof fn lemma_chains_lean_right(s: Seq<char>)
    ensures
        gives_right_nested(spec_eitheror_leaf(s)),
        gives_right_nested(spec_iterate_expression(s)),
        gives_right_nested(spec_eitheror_expression(s)),
        gives_right_nested(spec_atom(s)),
        spec_atom(s) matches Ok((_, e)) ==> !(e is Chained),
        gives_right_nested(spec_expression(s)),
    decreases s.len(),
{
    lemma_recursive_productions_advance(s);
    assert(gives_right_nested(spec_eitheror_leaf(s))) by {
        if let Ok((s1, _)) = spec_opening('{', s) {
            lemma_multispace0_is_tail(s.skip(1));
            lemma_chains_lean_right(s1);
        }
    }
    assert(gives_right_nested(spec_iterate_expression(s))) by {
        if let Ok((s1, _)) = spec_keyword("iter"@, s) {
            let s2 = spec_multispace0(s1);
            lemma_multispace0_is_tail(s1);
            if let Ok((s3, _)) = spec_opening('(', s2) {
                lemma_multispace0_is_tail(s2.skip(1));
                lemma_chains_lean_right(s3);
            }
        }
    }
    assert(gives_right_nested(spec_eitheror_expression(s))) by {
        if let Ok((s1, _)) = spec_eitheror_leaf(s) {
            if let Ok((s2, _)) = spec_keyword("or"@, spec_multispace0(s1)) {
                let s3 = spec_multispace0(s2);
                if s3.len() < s.len() {
                    lemma_chains_lean_right(s3);
                }
            }
        }
    }
    assert(gives_right_nested(spec_atom(s)));
    assert(spec_atom(s) matches Ok((_, e)) ==> !(e is Chained));
    assert(gives_right_nested(spec_expression(s))) by {
        if let Ok((s1, first)) = spec_atom(s) {
            if let Ok((s2, _)) = spec_semicolon_separator(s1) {
                lemma_separator_advances(';', s1);
                lemma_chains_lean_right(s2);
                if let Ok((_, second)) = spec_expression(s2) {
                    assert(is_right_nested(
                        Expression::Chained(Box::new(first), Box::new(second)),
                    ));
                }
            }
        }
    }
}

} // verus!
