use transform_dsl::language::{Expression, Scalar};
use transform_dsl::outcome::ParseError;
use transform_dsl::parser::{
    atom, eitheror_expression, eitheror_leaf, ends_expression, expression, iterate_expression,
    rotation_expression, translation_expression,
};

fn scalar(value: f64) -> Scalar {
    Scalar { bits: value.to_bits() }
}

fn translation(u: f64, v: f64) -> Expression {
    Expression::Translation { u: scalar(u), v: scalar(v) }
}

fn rotation(u: f64, v: f64, theta: f64) -> Expression {
    Expression::Rotation { u: scalar(u), v: scalar(v), theta: scalar(theta) }
}

fn chained(first: Expression, second: Expression) -> Expression {
    Expression::Chained(Box::new(first), Box::new(second))
}

fn either(left: Expression, right: Expression) -> Expression {
    Expression::EitherOr { left: Box::new(left), right: Box::new(right) }
}

fn iterate(body: Expression) -> Expression {
    Expression::Iterate(Box::new(body))
}

#[test]
fn test_basic_expressions() {
    let raw_translation_expression = "translation ( 0.7, 18.65 )";
    let expected_expression = Expression::Translation { u: scalar(0.7), v: scalar(18.65) };
    let (_, parsed_expression) = translation_expression(raw_translation_expression).unwrap();
    assert_eq!(expected_expression, parsed_expression);

    let raw_rotation_expression = "rotation( 1.15, 0.8, 0.553)";
    let expected_expression =
        Expression::Rotation { u: scalar(1.15), v: scalar(0.8), theta: scalar(0.553) };
    let (_, parsed_expression) = rotation_expression(raw_rotation_expression).unwrap();
    assert_eq!(expected_expression, parsed_expression);
}

#[test]
fn test_iterate_expressions() {
    let raw_expression = "iter( rotation(0.1, 0.2, 0.3) )";
    let expected_expression = Expression::Iterate(Box::new(Expression::Rotation {
        u: scalar(0.1),
        v: scalar(0.2),
        theta: scalar(0.3),
    }));
    let (_, parsed_expression) = expression(raw_expression).unwrap();
    assert_eq!(expected_expression, parsed_expression);

    let raw_expression = "iter( iter( translation(0.1, 0.2) ) )";
    let expected_expression = Expression::Iterate(Box::new(Expression::Iterate(Box::new(
        Expression::Translation { u: scalar(0.1), v: scalar(0.2) },
    ))));
    let (_, parsed_expression) = expression(raw_expression).unwrap();
    assert_eq!(expected_expression, parsed_expression);
}

#[test]
fn test_complex_expression() {
    let raw_expression =
        "iter(translation(12.0, 0.4); rotation(0.2, 0.3, 0.5)); translation( 8, 15 )";
    let expected_expression = Expression::Chained(
        Box::new(Expression::Iterate(Box::new(Expression::Chained(
            Box::new(Expression::Translation { u: scalar(12.0), v: scalar(0.4) }),
            Box::new(Expression::Rotation { u: scalar(0.2), v: scalar(0.3), theta: scalar(0.5) }),
        )))),
        Box::new(Expression::Translation { u: scalar(8.0), v: scalar(15.0) }),
    );
    let (_, parsed_expression) = expression(raw_expression).unwrap();
    assert_eq!(expected_expression, parsed_expression);
}

#[test]
fn test_multiline_expression() {
    let raw_expression = r"iter(
    translation(12.0, 0.4);
    rotation(0.2, 0.3, 0.5)
);
translation( 8.0, 15.0 )
";
    let expected_expression = Expression::Chained(
        Box::new(Expression::Iterate(Box::new(Expression::Chained(
            Box::new(Expression::Translation { u: scalar(12.0), v: scalar(0.4) }),
            Box::new(Expression::Rotation { u: scalar(0.2), v: scalar(0.3), theta: scalar(0.5) }),
        )))),
        Box::new(Expression::Translation { u: scalar(8.0), v: scalar(15.0) }),
    );
    let (_, parsed_expression) = expression(raw_expression).unwrap();
    assert_eq!(expected_expression, parsed_expression);
}

#[test]
fn translation_leaves_nothing() {
    assert_eq!(expression("translation(0.7, 18.65)"), Ok(("", translation(0.7, 18.65))));
}

#[test]
fn rotation_has_three_numbers() {
    assert_eq!(expression("rotation(1.15, 0.8, 0.553)"), Ok(("", rotation(1.15, 0.8, 0.553))));
}

#[test]
fn iteration_of_a_rotation() {
    assert_eq!(
        expression("iter(rotation(0.1,0.2,0.3))"),
        Ok(("", iterate(rotation(0.1, 0.2, 0.3))))
    );
}

#[test]
fn iteration_in_iteration() {
    assert_eq!(
        expression("iter(iter(translation(0.1,0.2)))"),
        Ok(("", iterate(iterate(translation(0.1, 0.2)))))
    );
}

#[test]
fn chain_after_a_bracketed_chain() {
    assert_eq!(
        expression("iter(translation(12.0,0.4); rotation(0.2,0.3,0.5)); translation(8,15)"),
        Ok((
            "",
            chained(
                iterate(chained(translation(12.0, 0.4), rotation(0.2, 0.3, 0.5))),
                translation(8.0, 15.0)
            )
        ))
    );
}

#[test]
fn chains_lean_to_the_right() {
    assert_eq!(
        expression("translation(1,2);translation(3,4);translation(5,6)"),
        Ok((
            "",
            chained(translation(1.0, 2.0), chained(translation(3.0, 4.0), translation(5.0, 6.0)))
        ))
    );
}

#[test]
fn blank_space_between_tokens_changes_nothing() {
    let dense = "iter(translation(12.0,0.4);rotation(0.2,0.3,0.5));{translation(8,15)}or{rotation(1,2,3)}";
    let loose = "iter \t(\n translation \r\n ( 12.0 , 0.4 ) ; rotation ( 0.2\n,\n0.3 ,0.5 ) \n)  ;\n{ translation(  8,15  ) }\tor\t{ rotation ( 1 , 2 , 3 ) }";
    let (dense_rest, dense_tree) = expression(dense).unwrap();
    let (loose_rest, loose_tree) = expression(loose).unwrap();
    assert_eq!(dense_rest, "");
    assert_eq!(loose_rest, "");
    assert_eq!(dense_tree, loose_tree);
    assert_eq!(
        dense_tree,
        chained(
            iterate(chained(translation(12.0, 0.4), rotation(0.2, 0.3, 0.5))),
            either(translation(8.0, 15.0), rotation(1.0, 2.0, 3.0))
        )
    );
}

#[test]
fn blank_space_after_the_last_atom_is_left() {
    assert_eq!(expression("translation(1,2) \n"), Ok((" \n", translation(1.0, 2.0))));
    assert_eq!(
        expression("translation(1,2) ; translation(3,4)\t"),
        Ok(("\t", chained(translation(1.0, 2.0), translation(3.0, 4.0))))
    );
}

#[test]
fn blank_space_in_front_is_no_expression() {
    assert_eq!(expression(" translation(1,2)"), Err(ParseError::NoMatch(" translation(1,2)")));
}

#[test]
fn parsing_twice_gives_equal_trees() {
    let text = "iter({translation(1,2); rotation(3,4,5)} or {iter(translation(6,7))})";
    let first = expression(text);
    let second = expression(text);
    assert!(first.is_ok());
    assert_eq!(first, second);
}

#[test]
fn trailing_text_is_malformed() {
    assert_eq!(expression("translation(1,2) garbage"), Err(ParseError::Malformed("garbage")));
    assert_eq!(expression("translation(1,2)garbage"), Err(ParseError::Malformed("garbage")));
    assert_eq!(
        expression("rotation(1,2,3); translation(1,2) x y"),
        Err(ParseError::Malformed("x y"))
    );
}

#[test]
fn malformed_is_not_lost_inside_brackets() {
    assert_eq!(expression("iter(translation(1,2) garbage)"), Err(ParseError::Malformed("garbage)")));
    assert_eq!(
        expression("{translation(1,2) x} or {translation(3,4)}"),
        Err(ParseError::Malformed("x} or {translation(3,4)}"))
    );
    assert_eq!(
        expression("{translation(1,2)} or {translation(3,4) , }"),
        Err(ParseError::Malformed(", }"))
    );
    assert_eq!(atom("iter(translation(1,2) garbage)"), Err(ParseError::Malformed("garbage)")));
    assert_eq!(
        iterate_expression("iter(translation(1,2) garbage)"),
        Err(ParseError::Malformed("garbage)"))
    );
}

#[test]
fn a_keyword_after_an_atom_is_malformed() {
    assert_eq!(
        expression("translation(1,2) translation(3,4)"),
        Err(ParseError::Malformed("translation(3,4)"))
    );
    assert_eq!(expression("translation(1,2) or"), Err(ParseError::Malformed("or")));
}

#[test]
fn closing_brackets_end_an_expression() {
    assert_eq!(eitheror_leaf("{translation(1,2)}"), Ok(("", translation(1.0, 2.0))));
    assert_eq!(eitheror_leaf("{ translation(1,2) }rest"), Ok(("rest", translation(1.0, 2.0))));
    assert_eq!(expression("iter(translation(1,2))"), Ok(("", iterate(translation(1.0, 2.0)))));
    assert_eq!(expression("translation(1,2))"), Ok((")", translation(1.0, 2.0))));
    assert_eq!(expression("translation(1,2) }"), Ok((" }", translation(1.0, 2.0))));
}

#[test]
fn a_leaf_alone_is_no_expression() {
    assert_eq!(expression("{translation(1,2)}"), Err(ParseError::NoMatch("")));
    assert_eq!(eitheror_expression("{translation(1,2)} and"), Err(ParseError::NoMatch("and")));
}

#[test]
fn alternative_of_two_leaves() {
    assert_eq!(
        expression("{translation(1,2)} or {rotation(3,4,5)}"),
        Ok(("", either(translation(1.0, 2.0), rotation(3.0, 4.0, 5.0))))
    );
    assert_eq!(
        eitheror_expression("{translation(1,2)}or{rotation(3,4,5)};"),
        Ok((";", either(translation(1.0, 2.0), rotation(3.0, 4.0, 5.0))))
    );
}

#[test]
fn all_five_variants_nest() {
    let text = "iter({translation(1,2); rotation(3,4,5)} or {iter(translation(6,7)); translation(8,9)})";
    assert_eq!(
        expression(text),
        Ok((
            "",
            iterate(either(
                chained(translation(1.0, 2.0), rotation(3.0, 4.0, 5.0)),
                chained(iterate(translation(6.0, 7.0)), translation(8.0, 9.0))
            ))
        ))
    );
}

#[test]
fn a_semicolon_wants_an_expression() {
    assert_eq!(expression("translation(1,2);"), Err(ParseError::NoMatch("")));
    assert_eq!(expression("translation(1,2); foo"), Err(ParseError::NoMatch("foo")));
    assert_eq!(expression("translation(1,2);)"), Err(ParseError::NoMatch(")")));
}

#[test]
fn no_alternative_matches() {
    assert_eq!(expression(""), Err(ParseError::NoMatch("")));
    assert_eq!(expression("foo"), Err(ParseError::NoMatch("foo")));
    assert_eq!(atom("scale(1,2)"), Err(ParseError::NoMatch("scale(1,2)")));
    assert_eq!(expression("Translation(1,2)"), Err(ParseError::NoMatch("Translation(1,2)")));
}

#[test]
fn the_last_alternative_reports() {
    assert_eq!(translation_expression("translation(1;2)"), Err(ParseError::NoMatch(";2)")));
    assert_eq!(atom("translation(1;2)"), Err(ParseError::NoMatch("translation(1;2)")));
    assert_eq!(rotation_expression("rotation(1,2)"), Err(ParseError::NoMatch(")")));
    assert_eq!(expression("rotation(1,2)"), Err(ParseError::NoMatch("rotation(1,2)")));
    assert_eq!(iterate_expression("iter translation(1,2)"), Err(ParseError::NoMatch("translation(1,2)")));
    assert_eq!(iterate_expression("iter(translation(1,2)"), Err(ParseError::NoMatch("")));
    assert_eq!(eitheror_leaf("{translation(1,2)"), Err(ParseError::NoMatch("")));
    assert_eq!(eitheror_leaf("translation(1,2)}"), Err(ParseError::NoMatch("translation(1,2)}")));
}

#[test]
fn a_broken_literal_is_malformed() {
    assert_eq!(expression("translation(1e,2)"), Err(ParseError::Malformed("1e,2)")));
    assert_eq!(expression("rotation(1, 2E+ , 3)"), Err(ParseError::Malformed("2E+ , 3)")));
    assert_eq!(
        expression("iter({translation(1,2)} or {translation(3,4e)})"),
        Err(ParseError::Malformed("4e)})"))
    );
}

#[test]
fn number_spellings() {
    assert_eq!(expression("translation(8,8.0)"), Ok(("", translation(8.0, 8.0))));
    assert_eq!(expression("translation(-1.5,+2)"), Ok(("", translation(-1.5, 2.0))));
    assert_eq!(expression("translation(1e3,.5)"), Ok(("", translation(1000.0, 0.5))));
    assert_eq!(expression("translation(11e-1,123E-02)"), Ok(("", translation(1.1, 1.23))));
    assert_eq!(expression("translation(7.,0)"), Ok(("", translation(7.0, 0.0))));
}

#[test]
fn zero_keeps_its_sign() {
    let (_, tree) = expression("translation(0,-0)").unwrap();
    assert_eq!(tree, translation(0.0, -0.0));
    assert_ne!(tree, translation(0.0, 0.0));
}

#[test]
fn numbers_come_back_as_they_were_written() {
    match expression("rotation(1.15, 0.8, 0.553)") {
        Ok((_, Expression::Rotation { u, v, theta })) => {
            assert_eq!(f64::from_bits(u.bits), 1.15);
            assert_eq!(f64::from_bits(v.bits), 0.8);
            assert_eq!(f64::from_bits(theta.bits), 0.553);
        }
        other => panic!("no rotation: {:?}", other),
    }
}

#[test]
fn deep_nesting() {
    let depth = 200;
    let mut text = String::new();
    let mut expected = translation(1.0, 2.0);
    for _ in 0..depth {
        text.push_str("iter( ");
        expected = iterate(expected);
    }
    text.push_str("translation(1,2)");
    for _ in 0..depth {
        text.push_str(" )");
    }
    assert_eq!(expression(&text), Ok(("", expected)));
}

#[test]
fn where_an_expression_may_end() {
    assert!(ends_expression(""));
    assert!(ends_expression(")"));
    assert!(ends_expression("} or {"));
    assert!(!ends_expression("garbage"));
    assert!(!ends_expression(";"));
    assert!(!ends_expression(" )"));
    assert!(!ends_expression("("));
}
