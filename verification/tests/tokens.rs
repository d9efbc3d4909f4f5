use transform_dsl::language::Scalar;
use transform_dsl::outcome::ParseError;
use transform_dsl::parser::{
    comma_separator, float_pair, float_triple, parenthesized_float_pair,
    parenthesized_float_triple, semicolon_separator,
};
use transform_dsl::tokens::{keyword, number, number_from, symbol, Scanned};

fn scalar(value: f64) -> Scalar {
    Scalar { bits: value.to_bits() }
}

#[test]
fn symbol_takes_one_character() {
    assert_eq!(symbol(';', ";x"), Ok(("x", ())));
    assert_eq!(symbol('(', "(("), Ok(("(", ())));
    assert_eq!(symbol(';', " ;x"), Err(ParseError::NoMatch(" ;x")));
    assert_eq!(symbol(';', ""), Err(ParseError::NoMatch("")));
    assert_eq!(symbol('é', "été"), Ok(("té", ())));
}

#[test]
fn keyword_takes_a_word() {
    assert_eq!(keyword("iter", "iter("), Ok(("(", ())));
    assert_eq!(keyword("iter", "iteration"), Ok(("ation", ())));
    assert_eq!(keyword("iter", "ite"), Err(ParseError::NoMatch("ite")));
    assert_eq!(keyword("iter", "Iter("), Err(ParseError::NoMatch("Iter(")));
    assert_eq!(keyword("", "abc"), Ok(("abc", ())));
}

#[test]
fn separators_skip_blank_space() {
    assert_eq!(semicolon_separator("  ; x"), Ok(("x", ())));
    assert_eq!(semicolon_separator(";"), Ok(("", ())));
    assert_eq!(semicolon_separator(" \t\r\n;\n\r\t y "), Ok(("y ", ())));
    assert_eq!(comma_separator(" ,  1"), Ok(("1", ())));
    assert_eq!(comma_separator("  ;"), Err(ParseError::NoMatch(";")));
    assert_eq!(semicolon_separator("  "), Err(ParseError::NoMatch("")));
    assert_eq!(semicolon_separator(" \u{a0};"), Err(ParseError::NoMatch("\u{a0};")));
}

#[test]
fn number_takes_a_literal() {
    assert_eq!(number("1.5)"), Ok((")", scalar(1.5))));
    assert_eq!(number("18.65 )"), Ok((" )", scalar(18.65))));
    assert_eq!(number("123K-01"), Ok(("K-01", scalar(123.0))));
    assert_eq!(number("-2"), Ok(("", scalar(-2.0))));
    assert_eq!(number("abc"), Err(ParseError::NoMatch("abc")));
    assert_eq!(number(" 1"), Err(ParseError::NoMatch(" 1")));
    assert_eq!(number(""), Err(ParseError::NoMatch("")));
    assert_eq!(number("1e"), Err(ParseError::Malformed("1e")));
}

#[test]
fn number_from_each_scan() {
    assert_eq!(
        number_from("2.5,", Scanned::Literal { rest: ",", bits: 2.5f64.to_bits() }),
        Ok((",", scalar(2.5)))
    );
    assert_eq!(number_from("x", Scanned::Absent), Err(ParseError::NoMatch("x")));
    assert_eq!(number_from("1e", Scanned::Broken), Err(ParseError::Malformed("1e")));
}

#[test]
fn pairs_and_triples() {
    assert_eq!(float_pair("0.7, 18.65 )"), Ok((" )", (scalar(0.7), scalar(18.65)))));
    assert_eq!(float_pair("1 ,2"), Ok(("", (scalar(1.0), scalar(2.0)))));
    assert_eq!(float_pair("1 2"), Err(ParseError::NoMatch("2")));
    assert_eq!(float_pair("1,"), Err(ParseError::NoMatch("")));
    assert_eq!(
        float_triple("1.15, 0.8, 0.553)"),
        Ok((")", (scalar(1.15), scalar(0.8), scalar(0.553))))
    );
    assert_eq!(float_triple("1,2"), Err(ParseError::NoMatch("")));
    assert_eq!(float_triple("1,2,x"), Err(ParseError::NoMatch("x")));
}

#[test]
fn numbers_in_brackets() {
    assert_eq!(
        parenthesized_float_pair("( 0.7, 18.65 ) tail"),
        Ok((" tail", (scalar(0.7), scalar(18.65))))
    );
    assert_eq!(parenthesized_float_pair("(1,2"), Err(ParseError::NoMatch("")));
    assert_eq!(parenthesized_float_pair("(1,2,3)"), Err(ParseError::NoMatch(",3)")));
    assert_eq!(parenthesized_float_pair(" (1,2)"), Err(ParseError::NoMatch(" (1,2)")));
    assert_eq!(
        parenthesized_float_triple("(1 , 2 , 3)"),
        Ok(("", (scalar(1.0), scalar(2.0), scalar(3.0))))
    );
    assert_eq!(parenthesized_float_triple("(1,2)"), Err(ParseError::NoMatch(")")));
    assert_eq!(parenthesized_float_triple("(1,2e,3)"), Err(ParseError::Malformed("2e,3)")));
}
