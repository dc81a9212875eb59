use operator_precedence::parser::{BinaryOp, Expr, ParseError, Parser};
use operator_precedence::parser::Token::{
    Add, BitwiseOr, CloseParen, Multiply, Number, OpenParen,
};
use operator_precedence::precedence::Operator;

fn bin(op: Operator, left: Expr, right: Expr) -> Expr {
    Expr::BinaryOp(BinaryOp {
        op,
        left: Box::new(left),
        right: Box::new(right),
    })
}

#[test]
fn test_multiply_precedence_over_add() {
    assert_eq!(
        Parser::parse(&vec![Number, Add, Number, Multiply, Number]),
        Parser::parse(&vec![
            Number, Add, OpenParen, Number, Multiply, Number, CloseParen
        ])
    );
}

#[test]
fn test_parens_override_precedence() {
    assert_eq!(
        Parser::parse(&vec![
            OpenParen, Number, Add, Number, CloseParen, Multiply, Number
        ]),
        Ok(Expr::BinaryOp(BinaryOp {
            op: Operator::Multiply,
            left: Box::new(Expr::BinaryOp(BinaryOp {
                op: Operator::Add,
                left: Box::new(Expr::Number),
                right: Box::new(Expr::Number),
            })),
            right: Box::new(Expr::Number),
        }))
    );
}

#[test]
fn test_ambiguous_precedence_against_bitwise_or() {
    assert_eq!(
        Parser::parse(&vec![Number, Add, Number, BitwiseOr, Number])
            .map_err(|e| e.message().to_string()),
        Err("Ambiguous operator precedence".to_string())
    );
    assert_eq!(
        Parser::parse(&vec![Number, Multiply, Number, BitwiseOr, Number])
            .map_err(|e| e.message().to_string()),
        Err("Ambiguous operator precedence".to_string())
    );
}

#[test]
fn test_left_associative() {
    assert_eq!(
        Parser::parse(&vec![Number, Add, Number, Add, Number]),
        Parser::parse(&vec![
            OpenParen, Number, Add, Number, CloseParen, Add, Number
        ])
    );
}

#[test]
fn test_right_associative() {
    assert_eq!(
        Parser::parse(&vec![Number, BitwiseOr, Number, BitwiseOr, Number]),
        Parser::parse(&vec![
            Number, BitwiseOr, OpenParen, Number, BitwiseOr, Number, CloseParen
        ])
    );
}

#[test]
fn multiply_groups_inside_add() {
    let expected = bin(
        Operator::Add,
        Expr::Number,
        bin(Operator::Multiply, Expr::Number, Expr::Number),
    );
    assert_eq!(
        Parser::parse(&[Number, Add, Number, Multiply, Number]),
        Ok(expected)
    );
    let expected = bin(
        Operator::Add,
        bin(Operator::Multiply, Expr::Number, Expr::Number),
        Expr::Number,
    );
    assert_eq!(
        Parser::parse(&[Number, Multiply, Number, Add, Number]),
        Ok(expected)
    );
}

#[test]
fn add_groups_left_first() {
    let expected = bin(
        Operator::Add,
        bin(Operator::Add, Expr::Number, Expr::Number),
        Expr::Number,
    );
    assert_eq!(Parser::parse(&[Number, Add, Number, Add, Number]), Ok(expected));
}

#[test]
fn bitwise_or_groups_right_first() {
    let expected = bin(
        Operator::BitwiseOr,
        Expr::Number,
        bin(Operator::BitwiseOr, Expr::Number, Expr::Number),
    );
    assert_eq!(
        Parser::parse(&[Number, BitwiseOr, Number, BitwiseOr, Number]),
        Ok(expected)
    );
}

#[test]
fn ambiguity_rejected_on_either_side() {
    assert_eq!(
        Parser::parse(&[Number, Add, Number, BitwiseOr, Number]),
        Err(ParseError::AmbiguousPrecedence)
    );
    assert_eq!(
        Parser::parse(&[Number, Multiply, Number, BitwiseOr, Number]),
        Err(ParseError::AmbiguousPrecedence)
    );
    assert_eq!(
        Parser::parse(&[Number, BitwiseOr, Number, Add, Number]),
        Err(ParseError::AmbiguousPrecedence)
    );
}

#[test]
fn grouping_resolves_ambiguity() {
    let expected = bin(
        Operator::Add,
        Expr::Number,
        bin(Operator::BitwiseOr, Expr::Number, Expr::Number),
    );
    assert_eq!(
        Parser::parse(&[Number, Add, OpenParen, Number, BitwiseOr, Number, CloseParen]),
        Ok(expected)
    );
}

#[test]
fn trailing_input_rejected() {
    assert_eq!(
        Parser::parse(&[Number, CloseParen]),
        Err(ParseError::TrailingInput)
    );
    assert_eq!(
        Parser::parse(&[Number, Add, Number, Number]),
        Err(ParseError::TrailingInput)
    );
    assert_eq!(
        Parser::parse(&[OpenParen, Number, CloseParen, OpenParen]),
        Err(ParseError::TrailingInput)
    );
}

#[test]
fn unclosed_group_rejected() {
    assert_eq!(
        Parser::parse(&[OpenParen, Number]),
        Err(ParseError::UnclosedGroup)
    );
    assert_eq!(
        Parser::parse(&[OpenParen, Number, Number]),
        Err(ParseError::UnclosedGroup)
    );
}

#[test]
fn unexpected_token_rejected() {
    assert_eq!(Parser::parse(&[]), Err(ParseError::UnexpectedToken));
    assert_eq!(Parser::parse(&[Add, Number]), Err(ParseError::UnexpectedToken));
    assert_eq!(Parser::parse(&[Number, Add]), Err(ParseError::UnexpectedToken));
    assert_eq!(Parser::parse(&[CloseParen]), Err(ParseError::UnexpectedToken));
    assert_eq!(
        Parser::parse(&[OpenParen, CloseParen]),
        Err(ParseError::UnexpectedToken)
    );
}

#[test]
fn single_number_and_nested_groups() {
    assert_eq!(Parser::parse(&[Number]), Ok(Expr::Number));
    assert_eq!(
        Parser::parse(&[OpenParen, OpenParen, Number, CloseParen, CloseParen]),
        Ok(Expr::Number)
    );
}

#[test]
fn error_messages() {
    assert_eq!(
        ParseError::UnexpectedToken.message(),
        "Expected number or open paren"
    );
    assert_eq!(ParseError::UnclosedGroup.message(), "Expected close paren");
    assert_eq!(
        ParseError::AmbiguousPrecedence.message(),
        "Ambiguous operator precedence"
    );
    assert_eq!(ParseError::TrailingInput.message(), "Expected end of expression");
}

#[test]
fn cursor_steps_over_tokens() {
    let mut p = Parser::new(&[Number, Add]);
    assert_eq!(p.position, 0);
    assert_eq!(p.next_token(), Some(Number));
    assert_eq!(p.next_token(), Some(Add));
    assert_eq!(p.next_token(), None);
    assert_eq!(p.position, 2);
}

#[test]
fn inner_expression_stops_before_close_paren() {
    let mut p = Parser::new(&[Number, Multiply, Number, CloseParen, Add]);
    let e = p.parse_expr_outer(None);
    assert_eq!(e, Ok(bin(Operator::Multiply, Expr::Number, Expr::Number)));
    assert_eq!(p.position, 3);
}

#[test]
fn operand_of_multiply_stops_before_add() {
    let mut p = Parser::new(&[Number, Add, Number]);
    let e = p.parse_expr_outer(Some(Operator::Multiply));
    assert_eq!(e, Ok(Expr::Number));
    assert_eq!(p.position, 1);
}

#[test]
fn operand_reads_group() {
    let mut p = Parser::new(&[OpenParen, Number, Add, Number, CloseParen, Multiply]);
    let e = p.parse_expr_inner();
    assert_eq!(e, Ok(bin(Operator::Add, Expr::Number, Expr::Number)));
    assert_eq!(p.position, 5);
}

#[test]
fn trees_compare_by_shape() {
    let a = bin(Operator::Add, Expr::Number, Expr::Number);
    let b = bin(Operator::Multiply, Expr::Number, Expr::Number);
    assert_ne!(a, b);
    assert_ne!(a, Expr::Number);
    assert_eq!(a, bin(Operator::Add, Expr::Number, Expr::Number));
}

#[test]
fn cloned_tree_is_equal() {
    let a = bin(
        Operator::BitwiseOr,
        bin(Operator::Add, Expr::Number, Expr::Number),
        Expr::Number,
    );
    assert_eq!(a.clone(), a);
}
