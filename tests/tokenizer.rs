use lisp_interpreter::tokenizer::{tokenize, LispToken};

#[test]
fn nothing_to_tokenize() {
    let empty_list: Vec<LispToken> = Vec::new();
    assert_eq!(empty_list, tokenize(""));
}

#[test]
fn single_characters() {
    assert_eq!(vec![LispToken::LeftParen], tokenize("("));
    assert_eq!(vec![LispToken::RightParen], tokenize(")"));
    assert_eq!(vec![LispToken::Integer(0)], tokenize("0"));
    assert_eq!(vec![LispToken::Symbol("x".to_string())], tokenize("x"));
}

#[test]
fn multicharacter_symbols() {
    assert_eq!(vec![LispToken::Symbol("hello".to_string())], tokenize("hello"));
    assert_eq!(vec![LispToken::Symbol("world".to_string())], tokenize("world"));
}

#[test]
fn multidigit_integers() {
    assert_eq!(vec![LispToken::Integer(101)], tokenize("101"));
    assert_eq!(vec![LispToken::Integer(12345)], tokenize("12345"));
    assert_eq!(vec![LispToken::Integer(-404)], tokenize("-404"));
}

#[test]
fn simple_definition() {
    let x_definition = "(define x 2)";
    let expected_tokens = vec![
        LispToken::LeftParen,
        LispToken::Symbol("define".to_string()),
        LispToken::Symbol("x".to_string()),
        LispToken::Integer(2),
        LispToken::RightParen,
    ];

    assert_eq!(expected_tokens, tokenize(x_definition));
}

#[test]
fn multiline_function() {
    let add_one_function = "\
        (
            define 
                add_one
                (lambda 
                    (x)
                    (+ x 1)
                )
        )";

    let add_one_function_with_comments = "\
    ( ; gonna define a function that adds 1 to an integer
        define ; starts here!
            add_one
            (lambda
                (x)
                (+ x 1)
            )
    )";

    let expected_tokens = vec![
        LispToken::LeftParen,
        LispToken::Symbol("define".to_string()),
        LispToken::Symbol("add_one".to_string()),
        LispToken::LeftParen,
        LispToken::Symbol("lambda".to_string()),
        LispToken::LeftParen,
        LispToken::Symbol("x".to_string()),
        LispToken::RightParen,
        LispToken::LeftParen,
        LispToken::Symbol("+".to_string()),
        LispToken::Symbol("x".to_string()),
        LispToken::Integer(1),
        LispToken::RightParen,
        LispToken::RightParen,
        LispToken::RightParen,
    ];

    assert_eq!(expected_tokens, tokenize(add_one_function));
    assert_eq!(expected_tokens, tokenize(add_one_function_with_comments));
}

#[test]
fn integer_edges() {
    assert_eq!(vec![LispToken::Integer(i64::MAX)], tokenize("9223372036854775807"));
    assert_eq!(vec![LispToken::Integer(i64::MIN)], tokenize("-9223372036854775808"));
    assert_eq!(
        vec![LispToken::Symbol("9223372036854775808".to_string())],
        tokenize("9223372036854775808")
    );
    assert_eq!(vec![LispToken::Integer(7)], tokenize("+7"));
    assert_eq!(vec![LispToken::Symbol("-".to_string())], tokenize("-"));
    assert_eq!(vec![LispToken::Symbol("1a".to_string())], tokenize("1a"));
}

#[test]
fn newline_separates_words() {
    assert_eq!(
        vec![LispToken::Symbol("x".to_string()), LispToken::Integer(2)],
        tokenize("x ; note\n2")
    );
    assert_eq!(
        vec![
            LispToken::LeftParen,
            LispToken::Symbol("a".to_string()),
            LispToken::RightParen,
            LispToken::Symbol("b".to_string()),
        ],
        tokenize("(a)b")
    );
}
