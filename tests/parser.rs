use lisp_interpreter::lisp_error::LispError;
use lisp_interpreter::lisp_expression::LispExpression;
use lisp_interpreter::parser::parse;
use lisp_interpreter::tokenizer::{tokenize, LispToken};

#[test]
fn nothing_to_parse() {
    let tokens = tokenize("");
    assert_eq!(Err(LispError::ParseError), parse(&tokens));
}

#[test]
fn single_number() {
    let tokens = tokenize("1");
    let parsed_integer = parse(&tokens);
    assert_eq!(Ok(LispExpression::Integer(1)), parsed_integer);
}

#[test]
fn single_symbol() {
    let tokens = tokenize("x");
    let parsed_integer = parse(&tokens);
    assert_eq!(Ok(LispExpression::Symbol("x".to_string())), parsed_integer);
}

#[test]
fn single_open_parenthesis() {
    let tokens = tokenize("(");
    assert_eq!(Err(LispError::ParseError), parse(&tokens));
}

#[test]
fn single_closed_parenthesis() {
    let tokens = tokenize(")");
    assert_eq!(Err(LispError::ParseError), parse(&tokens));
}

#[test]
fn single_list_expression() {
    let tokens = tokenize("(define x 2)");
    let define_expr = parse(&tokens);

    let expected = LispExpression::List(vec![
        LispExpression::Symbol("define".to_string()),
        LispExpression::Symbol("x".to_string()),
        LispExpression::Integer(2),
    ]);

    assert_eq!(Ok(expected), define_expr);
}

#[test]
fn single_list_expression_with_comments() {
    let define_expr = parse(&tokenize("(define x 2)"));
    let define_expr_with_comments = parse(&tokenize("(define x 2); this is a comment"));

    let expected = LispExpression::List(vec![
        LispExpression::Symbol("define".to_string()),
        LispExpression::Symbol("x".to_string()),
        LispExpression::Integer(2),
    ]);

    assert_eq!(Ok(&expected), define_expr.as_ref());
    assert_eq!(Ok(&expected), define_expr_with_comments.as_ref());
}

#[test]
fn unfinished_expression() {
    let tokens = tokenize("(+ 2 3");
    assert_eq!(Err(LispError::ParseError), parse(&tokens));
}

#[test]
fn list_expression_without_parenthesis() {
    let tokens = tokenize("+ 2 3");
    assert_eq!(Err(LispError::ParseError), parse(&tokens));
}

#[test]
fn nested_lists_and_empty_list() {
    let expected = LispExpression::List(vec![
        LispExpression::List(vec![]),
        LispExpression::List(vec![LispExpression::Symbol("a".to_string())]),
        LispExpression::Integer(-3),
    ]);
    assert_eq!(Ok(expected), parse(&tokenize("(() (a) -3)")));
}

#[test]
fn stray_right_parenthesis_after_expression() {
    assert_eq!(Err(LispError::ParseError), parse(&tokenize("(a))")));
    let tokens = vec![LispToken::Integer(1), LispToken::Integer(2)];
    assert_eq!(Err(LispError::ParseError), parse(&tokens));
}
