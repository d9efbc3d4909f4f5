//! Where blank space may stand: between any two tokens, in any amount.
//!
//! The laws here are about the tokens that the grammar itself reads. What a
//! blank after a numeric literal does to the scan of that literal is the
//! scanner's business.

use vstd::prelude::*;
use crate::grammar::{
    spec_closing, spec_eitheror_leaf, spec_iterate_expression, spec_opening,
    spec_rotation_expression, spec_separator, spec_translation_expression,
};
use crate::outcome::Failure;
use crate::tokens::{is_space, spec_keyword, spec_multispace0};

verus! {

/// Every character of `w` is blank.
pub open spec fn is_blank(w: Seq<char>) -> bool {
    forall|i: int| 0 <= i < w.len() ==> is_space(#[trigger] w[i])
}

/// Blank space in front of a text is skipped, however much there is.
pub proof fn lemma_blank_space_is_skipped(w: Seq<char>, s: Seq<char>)
    requires
        is_blank(w),
    ensures
        spec_multispace0(w + s) == spec_multispace0(s),
    decreases w.len(),
{
    if w.len() > 0 {
        assert((w + s).skip(1) =~= w.skip(1) + s);
        lemma_blank_space_is_skipped(w.skip(1), s);
    } else {
        assert(w + s =~= s);
    }
}

/// Blank space on either side of a separator changes nothing: whatever
/// stands around the character `c`, the separator is taken, and the text
/// goes on at the first character after it that is not blank.
pub proof fn lemma_blank_space_around_separator(
    c: char,
    before: Seq<char>,
    after: Seq<char>,
    s: Seq<char>,
)
    requires
        is_blank(before),
        is_blank(after),
        !is_space(c),
    ensures
        spec_separator(c, before + seq![c] + after + s) == Ok::<(Seq<char>, ()), Failure>(
            (spec_multispace0(s), ()),
        ),
{
    let tail = seq![c] + after + s;
    assert(before + seq![c] + after + s =~= before + tail);
    lemma_blank_space_is_skipped(before, tail);
    assert(tail[0] == c);
    assert(tail.skip(1) =~= after + s);
    lemma_blank_space_is_skipped(after, s);
}

/// Blank space after an opening bracket and before a closing one changes
/// nothing.
pub proof fn lemma_blank_space_inside_brackets<T>(
    open: char,
    close: char,
    blank: Seq<char>,
    s: Seq<char>,
    value: T,
)
    requires
        is_blank(blank),
        !is_space(close),
    ensures
        spec_opening(open, seq![open] + blank + s) == Ok::<(Seq<char>, ()), Failure>(
            (spec_multispace0(s), ()),
        ),
        spec_closing(close, Ok::<(Seq<char>, T), Failure>((blank + seq![close] + s, value)))
            == Ok::<(Seq<char>, T), Failure>((s, value)),
{
    let opened = seq![open] + blank + s;
    assert(opened[0] == open);
    assert(opened.skip(1) =~= blank + s);
    lemma_blank_space_is_skipped(blank, s);
    let closed = seq![close] + s;
    assert(blank + seq![close] + s =~= blank + closed);
    lemma_blank_space_is_skipped(blank, closed);
    assert(closed[0] == close);
    assert(closed.skip(1) =~= s);
}

/// `word`, blank space, the bracket `open`, blank space, and then `s`.
pub open spec fn spaced_out(
    word: Seq<char>,
    after_word: Seq<char>,
    open: char,
    after_open: Seq<char>,
    s: Seq<char>,
) -> Seq<char> {
    word + after_word + seq![open] + after_open + s
}

/// After a word and an opening bracket the text goes on at the first
/// character that is not blank, whatever blank space stands after the word
/// and after the bracket.
pub proof fn lemma_blank_space_after_word_and_bracket(
    word: Seq<char>,
    after_word: Seq<char>,
    open: char,
    after_open: Seq<char>,
    s: Seq<char>,
)
    requires
        is_blank(after_word),
        is_blank(after_open),
        !is_space(open),
    ensures
        spec_keyword(word, spaced_out(word, after_word, open, after_open, s)) matches Ok((s1, _))
            && spec_opening(open, spec_multispace0(s1)) == Ok::<(Seq<char>, ()), Failure>(
            (spec_multispace0(s), ()),
        ),
{
    let text = spaced_out(word, after_word, open, after_open, s);
    let s1 = after_word + seq![open] + after_open + s;
    assert(text.subrange(0, word.len() as int) =~= word);
    assert(text.skip(word.len() as int) =~= s1);
    let opened = seq![open] + after_open + s;
    assert(s1 =~= after_word + opened);
    lemma_blank_space_is_skipped(after_word, opened);
    assert(opened[0] == open);
    assert(opened.skip(1) =~= after_open + s);
    lemma_blank_space_is_skipped(after_open, s);
}

/// Blank space after the word of a translation, a rotation or an iteration,
/// and after the bracket that opens it or a leaf, changes nothing: the text
/// parses as it does without that blank space.
pub proof fn lemma_blank_space_at_the_start_of_an_atom(
    after_word: Seq<char>,
    after_open: Seq<char>,
    s: Seq<char>,
)
    requires
        is_blank(after_word),
        is_blank(after_open),
    ensures
        spec_translation_expression(spaced_out("translation"@, after_word, '(', after_open, s))
            == spec_translation_expression(spaced_out("translation"@, seq![], '(', seq![], s)),
        spec_rotation_expression(spaced_out("rotation"@, after_word, '(', after_open, s))
            == spec_rotation_expression(spaced_out("rotation"@, seq![], '(', seq![], s)),
        spec_iterate_expression(spaced_out("iter"@, after_word, '(', after_open, s))
            == spec_iterate_expression(spaced_out("iter"@, seq![], '(', seq![], s)),
        spec_eitheror_leaf(seq!['{'] + after_open + s) == spec_eitheror_leaf(seq!['{'] + s),
{
    let none = Seq::<char>::empty();
    lemma_blank_space_after_word_and_bracket("translation"@, after_word, '(', after_open, s);
    lemma_blank_space_after_word_and_bracket("translation"@, none, '(', none, s);
    lemma_blank_space_after_word_and_bracket("rotation"@, after_word, '(', after_open, s);
    lemma_blank_space_after_word_and_bracket("rotation"@, none, '(', none, s);
    lemma_blank_space_after_word_and_bracket("iter"@, after_word, '(', after_open, s);
    lemma_blank_space_after_word_and_bracket("iter"@, none, '(', none, s);
    lemma_blank_space_inside_brackets('{', '}', after_open, s, ());
    lemma_blank_space_inside_brackets('{', '}', none, s, ());
    assert(seq!['{'] + none + s =~= seq!['{'] + s);
}

} // verus!
