//! Every production works on the text from left to right: what it leaves, and
//! what it reports in a failure, is a tail of what it was given.

use vstd::prelude::*;
use crate::grammar::{
    spec_atom, spec_closing, spec_eitheror_expression, spec_eitheror_leaf, spec_expression,
    spec_float_pair, spec_float_triple, spec_iterate_expression, spec_opening,
    spec_parenthesized_float_pair, spec_parenthesized_float_triple, spec_rotation_expression,
    spec_semicolon_separator, spec_separator, spec_translation_expression,
};
use crate::outcome::{Failure, Outcome, advances, is_tail_of, lemma_tail_of_tail, stays_within};
use crate::tokens::{
    lemma_multispace0_is_tail, spec_keyword, spec_multispace0, spec_number, spec_symbol,
};

verus! {

/// What stays within a tail of `s` stays within `s`.
pub proof fn lemma_within_tail<T>(r: Outcome<T>, mid: Seq<char>, s: Seq<char>)
    requires
        stays_within(r, mid),
        is_tail_of(mid, s),
    ensures
        stays_within(r, s),
        r matches Ok((rest, _)) ==> rest.len() <= mid.len(),
        advances(r, mid) ==> advances(r, s),
{
    match r {
        Ok((rest, _)) => lemma_tail_of_tail(rest, mid, s),
        Err(Failure::NoMatch(at)) => lemma_tail_of_tail(at, mid, s),
        Err(Failure::Malformed(at)) => lemma_tail_of_tail(at, mid, s),
    }
}

pub proof fn lemma_symbol_advances(c: char, s: Seq<char>)
    ensures
        advances(spec_symbol(c, s), s),
{
    assert(s.skip(0) =~= s);
}

pub proof fn lemma_keyword_stays_within(word: Seq<char>, s: Seq<char>)
    ensures
        stays_within(spec_keyword(word, s), s),
{
    assert(s.skip(0) =~= s);
}

pub proof fn lemma_number_stays_within(s: Seq<char>)
    ensures
        stays_within(spec_number(s), s),
{
    assert(s.skip(0) =~= s);
}

pub proof fn lemma_separator_advances(c: char, s: Seq<char>)
    ensures
        advances(spec_separator(c, s), s),
{
    let s1 = spec_multispace0(s);
    lemma_multispace0_is_tail(s);
    lemma_symbol_advances(c, s1);
    lemma_within_tail(spec_symbol(c, s1), s1, s);
    if let Ok((s2, _)) = spec_symbol(c, s1) {
        lemma_multispace0_is_tail(s2);
        lemma_tail_of_tail(spec_multispace0(s2), s2, s);
    }
}

pub proof fn lemma_opening_advances(open: char, s: Seq<char>)
    ensures
        advances(spec_opening(open, s), s),
{
    lemma_symbol_advances(open, s);
    if let Ok((s1, _)) = spec_symbol(open, s) {
        lemma_multispace0_is_tail(s1);
        lemma_tail_of_tail(spec_multispace0(s1), s1, s);
    }
}

pub proof fn lemma_closing_advances<T>(close: char, inner: Outcome<T>, s: Seq<char>)
    requires
        stays_within(inner, s),
    ensures
        advances(spec_closing(close, inner), s),
{
    if let Ok((s1, _)) = inner {
        let s2 = spec_multispace0(s1);
        lemma_multispace0_is_tail(s1);
        lemma_tail_of_tail(s2, s1, s);
        lemma_symbol_advances(close, s2);
        lemma_within_tail(spec_symbol(close, s2), s2, s);
    }
}

pub proof fn lemma_float_pair_advances(s: Seq<char>)
    ensures
        advances(spec_float_pair(s), s),
{
    lemma_number_stays_within(s);
    if let Ok((s1, _)) = spec_number(s) {
        lemma_separator_advances(',', s1);
        lemma_within_tail(spec_separator(',', s1), s1, s);
        if let Ok((s2, _)) = spec_separator(',', s1) {
            lemma_number_stays_within(s2);
            lemma_within_tail(spec_number(s2), s2, s);
        }
    }
}

pub proof fn lemma_float_triple_advances(s: Seq<char>)
    ensures
        advances(spec_float_triple(s), s),
{
    lemma_number_stays_within(s);
    if let Ok((s1, _)) = spec_number(s) {
        lemma_separator_advances(',', s1);
        lemma_within_tail(spec_separator(',', s1), s1, s);
        if let Ok((s2, _)) = spec_separator(',', s1) {
            lemma_float_pair_advances(s2);
            lemma_within_tail(spec_float_pair(s2), s2, s);
        }
    }
}

pub proof fn lemma_parenthesized_float_pair_advances(s: Seq<char>)
    ensures
        advances(spec_parenthesized_float_pair(s), s),
{
    lemma_opening_advances('(', s);
    if let Ok((s1, _)) = spec_opening('(', s) {
        lemma_float_pair_advances(s1);
        lemma_within_tail(spec_float_pair(s1), s1, s);
        lemma_closing_advances(')', spec_float_pair(s1), s);
    }
}

pub proof fn lemma_parenthesized_float_triple_advances(s: Seq<char>)
    ensures
        advances(spec_parenthesized_float_triple(s), s),
{
    lemma_opening_advances('(', s);
    if let Ok((s1, _)) = spec_opening('(', s) {
        lemma_float_triple_advances(s1);
        lemma_within_tail(spec_float_triple(s1), s1, s);
        lemma_closing_advances(')', spec_float_triple(s1), s);
    }
}

pub proof fn lemma_translation_advances(s: Seq<char>)
    ensures
        advances(spec_translation_expression(s), s),
{
    lemma_keyword_stays_within("translation"@, s);
    if let Ok((s1, _)) = spec_keyword("translation"@, s) {
        let s2 = spec_multispace0(s1);
        lemma_multispace0_is_tail(s1);
        lemma_tail_of_tail(s2, s1, s);
        lemma_parenthesized_float_pair_advances(s2);
        lemma_within_tail(spec_parenthesized_float_pair(s2), s2, s);
    }
}

pub proof fn lemma_rotation_advances(s: Seq<char>)
    ensures
        advances(spec_rotation_expression(s), s),
{
    lemma_keyword_stays_within("rotation"@, s);
    if let Ok((s1, _)) = spec_keyword("rotation"@, s) {
        let s2 = spec_multispace0(s1);
        lemma_multispace0_is_tail(s1);
        lemma_tail_of_tail(s2, s1, s);
        lemma_parenthesized_float_triple_advances(s2);
        lemma_within_tail(spec_parenthesized_float_triple(s2), s2, s);
    }
}

/// The productions that call one another: each takes at least one character
/// where it succeeds, and reports only tails of `s`.
pub proof fn lemma_recursive_productions_advance(s: Seq<char>)
    ensures
        advances(spec_eitheror_leaf(s), s),
        advances(spec_iterate_expression(s), s),
        advances(spec_eitheror_expression(s), s),
        advances(spec_atom(s), s),
        advances(spec_expression(s), s),
    decreases s.len(),
{
    assert(advances(spec_eitheror_leaf(s), s)) by {
        lemma_opening_advances('{', s);
        if let Ok((s1, _)) = spec_opening('{', s) {
            lemma_recursive_productions_advance(s1);
            lemma_within_tail(spec_expression(s1), s1, s);
            lemma_closing_advances('}', spec_expression(s1), s);
        }
    }
    assert(advances(spec_iterate_expression(s), s)) by {
        lemma_keyword_stays_within("iter"@, s);
        if let Ok((s1, _)) = spec_keyword("iter"@, s) {
            let s2 = spec_multispace0(s1);
            lemma_multispace0_is_tail(s1);
            lemma_tail_of_tail(s2, s1, s);
            lemma_opening_advances('(', s2);
            lemma_within_tail(spec_opening('(', s2), s2, s);
            if let Ok((s3, _)) = spec_opening('(', s2) {
                lemma_recursive_productions_advance(s3);
                lemma_within_tail(spec_expression(s3), s3, s);
                lemma_closing_advances(')', spec_expression(s3), s);
            }
        }
    }
    assert(advances(spec_eitheror_expression(s), s)) by {
        if let Ok((s1, _)) = spec_eitheror_leaf(s) {
            let s2 = spec_multispace0(s1);
            lemma_multispace0_is_tail(s1);
            lemma_tail_of_tail(s2, s1, s);
            lemma_keyword_stays_within("or"@, s2);
            lemma_within_tail(spec_keyword("or"@, s2), s2, s);
            if let Ok((s3, _)) = spec_keyword("or"@, s2) {
                let s4 = spec_multispace0(s3);
                lemma_multispace0_is_tail(s3);
                lemma_tail_of_tail(s4, s3, s);
                lemma_recursive_productions_advance(s4);
                lemma_within_tail(spec_eitheror_leaf(s4), s4, s);
            }
        }
    }
    assert(advances(spec_atom(s), s)) by {
        lemma_translation_advances(s);
        lemma_rotation_advances(s);
    }
    assert(advances(spec_expression(s), s)) by {
        if let Ok((s1, _)) = spec_atom(s) {
            lemma_separator_advances(';', s1);
            lemma_within_tail(spec_semicolon_separator(s1), s1, s);
            if let Ok((s2, _)) = spec_semicolon_separator(s1) {
                lemma_recursive_productions_advance(s2);
                lemma_within_tail(spec_expression(s2), s2, s);
            }
        }
    }
}

} // verus!
