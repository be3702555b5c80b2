use lisp_interpreter::environment::Environment;
use lisp_interpreter::evaluate::evaluate;
use lisp_interpreter::lisp_error::LispError;
use lisp_interpreter::lisp_expression::LispExpression;
use lisp_interpreter::value::{LispList, LispOutput};

fn create_empty_environment() -> Environment {
    Environment::new()
}

fn create_global_environment() -> Environment {
    Environment::global_env()
}

fn sym(s: &str) -> LispExpression {
    LispExpression::Symbol(s.to_string())
}

fn num(n: i64) -> LispExpression {
    LispExpression::Integer(n)
}

fn list(items: Vec<LispExpression>) -> LispExpression {
    LispExpression::List(items)
}

fn out_list(values: Vec<i64>) -> LispOutput {
    let mut l = LispList::Nil;
    for v in values.into_iter().rev() {
        l = LispList::Cons(LispOutput::Integer(v), Box::new(l));
    }
    LispOutput::List(Box::new(l))
}

fn add_one_definition() -> LispExpression {
    list(vec![
        sym("define"),
        sym("add_one"),
        list(vec![sym("lambda"), list(vec![sym("x")]), list(vec![sym("+"), sym("x"), num(1)])]),
    ])
}

fn defined_in_current_frame(env: &Environment, name: &str) -> bool {
    env.frames[env.current].bindings.iter().any(|(n, _)| n == name)
}

#[test]
fn single_integer() {
    let lisp_integer = LispExpression::Integer(1);
    let mut env = create_empty_environment();

    let expected = LispOutput::Integer(1);
    let result = evaluate(&lisp_integer, &mut env);

    assert_eq!(Ok(expected), result);
}

#[test]
fn simple_defintion() {
    let mut env = create_empty_environment();
    let lisp_definition = list(vec![sym("define"), sym("x"), num(2)]);

    let defintion_result = evaluate(&lisp_definition, &mut env);
    assert_eq!(Ok(LispOutput::Integer(2)), defintion_result);

    let x_result = evaluate(&sym("x"), &mut env);
    assert_eq!(Ok(LispOutput::Integer(2)), x_result);
}

#[test]
fn variable_not_found() {
    let mut env = create_empty_environment();
    let nonexistent_variable = sym("x");
    assert_eq!(Err(LispError::UnboundSymbol), evaluate(&nonexistent_variable, &mut env));
}

#[test]
fn simple_lambda() {
    let mut env = create_global_environment();
    evaluate(&add_one_definition(), &mut env).unwrap();

    let two_plus_one = list(vec![sym("add_one"), num(2)]);
    let result = evaluate(&two_plus_one, &mut env);
    assert_eq!(Ok(LispOutput::Integer(3)), result);
}

#[test]
fn simple_if_statement() {
    let mut env = create_global_environment();
    let always_true_expression = list(vec![sym("if"), sym("#t"), num(1), num(0)]);
    let always_false_expression = list(vec![sym("if"), sym("#f"), num(1), num(0)]);

    let true_result = evaluate(&always_true_expression, &mut env);
    let false_result = evaluate(&always_false_expression, &mut env);

    assert_eq!(Ok(LispOutput::Integer(1)), true_result);
    assert_eq!(Ok(LispOutput::Integer(0)), false_result);
}

#[test]
fn simple_and_statement() {
    let mut env = create_global_environment();
    let single_true_expression = list(vec![sym("and"), sym("#t")]);
    let single_false_expression = list(vec![sym("and"), sym("#f")]);
    let nested_and_expression = list(vec![
        sym("and"),
        sym("#t"),
        list(vec![
            sym("equal?"),
            num(10),
            list(vec![sym("+"), num(1), num(2), num(3), num(4)]),
        ]),
    ]);

    assert_eq!(Ok(LispOutput::Bool(true)), evaluate(&single_true_expression, &mut env));
    assert_eq!(Ok(LispOutput::Bool(false)), evaluate(&single_false_expression, &mut env));
    assert_eq!(Ok(LispOutput::Bool(true)), evaluate(&nested_and_expression, &mut env));
}

#[test]
fn short_circuiting_and() {
    let mut env = create_global_environment();
    let nested_and_expression = list(vec![sym("and"), sym("#f"), add_one_definition()]);

    let nested_result = evaluate(&nested_and_expression, &mut env);

    // add_one must not be defined: `and` stopped at its first false clause
    assert!(!defined_in_current_frame(&env, "add_one"), "function should not be defined!");
    assert_eq!(Ok(LispOutput::Bool(false)), nested_result);
}

#[test]
fn non_short_circuiting_and() {
    let mut env = create_global_environment();
    let nested_and_expression = list(vec![
        sym("and"),
        sym("#t"),
        add_one_definition(),
        list(vec![
            sym("equal?"),
            num(10),
            list(vec![sym("+"), num(1), num(2), num(3), num(4)]),
        ]),
    ]);

    let nested_result = evaluate(&nested_and_expression, &mut env);

    // every clause ran, so add_one is defined
    assert!(defined_in_current_frame(&env, "add_one"), "function should not be defined!");
    assert_eq!(Ok(LispOutput::Bool(true)), nested_result);
}

#[test]
fn short_circuiting_or() {
    let mut env = create_global_environment();
    let nested_or_expression = list(vec![sym("or"), sym("#t"), add_one_definition()]);

    let nested_result = evaluate(&nested_or_expression, &mut env);

    // add_one must not be defined: `or` stopped at its first true clause
    assert!(!defined_in_current_frame(&env, "add_one"), "function should not be defined!");
    assert_eq!(Ok(LispOutput::Bool(true)), nested_result);
}

#[test]
fn empty_list() {
    let mut env = create_global_environment();
    let emtpy_list_expression = list(vec![sym("list")]);

    let expected = LispOutput::List(Box::new(LispList::Nil));
    assert_eq!(Ok(expected), evaluate(&emtpy_list_expression, &mut env));
}

#[test]
fn single_element_list() {
    let mut env = create_global_environment();
    let list_expression = list(vec![sym("list"), num(3)]);

    let expected =
        LispOutput::List(Box::new(LispList::Cons(LispOutput::Integer(3), Box::new(LispList::Nil))));
    assert_eq!(Ok(expected), evaluate(&list_expression, &mut env));
}

#[test]
fn multiple_element_list() {
    let mut env = create_global_environment();
    let list_expression = list(vec![sym("list"), num(1), num(2), num(3)]);
    assert_eq!(Ok(out_list(vec![1, 2, 3])), evaluate(&list_expression, &mut env));

    let get_car_expression =
        list(vec![sym("car"), list(vec![sym("list"), num(1), num(2), num(3)])]);
    assert_eq!(Ok(LispOutput::Integer(1)), evaluate(&get_car_expression, &mut env));

    let get_cdr_expression =
        list(vec![sym("cdr"), list(vec![sym("list"), num(1), num(2), num(3)])]);
    assert_eq!(Ok(out_list(vec![2, 3])), evaluate(&get_cdr_expression, &mut env));
}

#[test]
fn is_list() {
    let mut env = create_global_environment();
    let list_expression =
        list(vec![sym("list?"), list(vec![sym("list"), num(1), num(2), num(3)])]);
    let function_expression = list(vec![sym("list?"), add_one_definition()]);
    let integer_expression = list(vec![sym("list?"), num(3)]);
    let bool_expression = list(vec![sym("list?"), sym("#t")]);

    assert_eq!(Ok(LispOutput::Bool(true)), evaluate(&list_expression, &mut env));
    assert_eq!(Ok(LispOutput::Bool(false)), evaluate(&function_expression, &mut env));
    assert_eq!(Ok(LispOutput::Bool(false)), evaluate(&integer_expression, &mut env));
    assert_eq!(Ok(LispOutput::Bool(false)), evaluate(&bool_expression, &mut env));
}

#[test]
fn empty_list_length() {
    let mut env = create_global_environment();
    let empty_list_length_expression = list(vec![sym("length"), sym("nil")]);
    assert_eq!(Ok(LispOutput::Integer(0)), evaluate(&empty_list_length_expression, &mut env));
}

#[test]
fn single_element_list_length() {
    let mut env = create_global_environment();
    let list_length_expression = list(vec![sym("length"), list(vec![sym("list"), num(3)])]);
    assert_eq!(Ok(LispOutput::Integer(1)), evaluate(&list_length_expression, &mut env));
}

#[test]
fn multi_element_list_length() {
    let mut env = create_global_environment();
    let list_length_expression = list(vec![
        sym("length"),
        list(vec![sym("list"), num(1), sym("#t"), sym("nil"), num(4), num(5)]),
    ]);
    assert_eq!(Ok(LispOutput::Integer(5)), evaluate(&list_length_expression, &mut env));
}

#[test]
fn indexing_into_single_element_list() {
    let mut env = create_global_environment();
    let list_ref_expression =
        list(vec![sym("list-ref"), list(vec![sym("list"), num(1)]), num(0)]);
    assert_eq!(Ok(LispOutput::Integer(1)), evaluate(&list_ref_expression, &mut env));
}

#[test]
fn indexing_into_multi_element_list() {
    let mut env = create_global_environment();
    let list_ref_expression = list(vec![
        sym("list-ref"),
        list(vec![sym("list"), num(1), num(2), num(3), num(4), num(5)]),
        num(3),
    ]);
    assert_eq!(Ok(LispOutput::Integer(4)), evaluate(&list_ref_expression, &mut env));
}

#[test]
fn indexing_into_empty_list() {
    let mut env = create_global_environment();
    let list_ref_expression = list(vec![sym("list-ref"), sym("nil"), num(0)]);
    assert_eq!(Err(LispError::IndexOutOfBounds), evaluate(&list_ref_expression, &mut env));
}

#[test]
fn indexing_out_of_bounds_non_empty_list() {
    let mut env = create_global_environment();
    let list_ref_expression = list(vec![
        sym("list-ref"),
        list(vec![sym("list"), num(1), num(2), num(3)]),
        num(5),
    ]);
    assert_eq!(Err(LispError::IndexOutOfBounds), evaluate(&list_ref_expression, &mut env));
}

#[test]
fn appending_no_list() {
    let mut env = create_global_environment();
    let append_empty_expression = list(vec![sym("append")]);
    let expected = LispOutput::List(Box::new(LispList::Nil));
    assert_eq!(Ok(expected), evaluate(&append_empty_expression, &mut env));
}

#[test]
fn appending_single_empty_list() {
    let mut env = create_global_environment();
    let append_empty_expression = list(vec![sym("append"), sym("nil")]);
    let expected = LispOutput::List(Box::new(LispList::Nil));
    assert_eq!(Ok(expected), evaluate(&append_empty_expression, &mut env));
}

#[test]
fn appending_single_non_empty_list() {
    let mut env = create_global_environment();
    let append_empty_expression =
        list(vec![sym("append"), list(vec![sym("list"), num(1), num(2), num(3)])]);
    assert_eq!(Ok(out_list(vec![1, 2, 3])), evaluate(&append_empty_expression, &mut env));
}

#[test]
fn appending_non_empty_list_with_empty_lists() {
    let mut env = create_global_environment();
    let append_empty_expression = list(vec![
        sym("append"),
        list(vec![sym("list"), num(1), num(2), num(3)]),
        sym("nil"),
        sym("nil"),
        sym("nil"),
    ]);
    assert_eq!(Ok(out_list(vec![1, 2, 3])), evaluate(&append_empty_expression, &mut env));
}

#[test]
fn appending_two_non_empty_lists() {
    let mut env = create_global_environment();
    let append_empty_expression = list(vec![
        sym("append"),
        list(vec![sym("list"), num(1), num(2), num(3)]),
        list(vec![sym("list"), num(4), num(5)]),
    ]);
    assert_eq!(Ok(out_list(vec![1, 2, 3, 4, 5])), evaluate(&append_empty_expression, &mut env));
}

#[test]
fn appending_multiple_non_empty_lists_and_empty_lists() {
    let mut env = create_global_environment();
    let append_empty_expression = list(vec![
        sym("append"),
        sym("nil"),
        sym("nil"),
        list(vec![sym("list"), num(1), num(2)]),
        sym("nil"),
        list(vec![sym("list"), num(3)]),
        sym("nil"),
        sym("nil"),
        list(vec![sym("list"), num(4), num(5)]),
        sym("nil"),
        sym("nil"),
        sym("nil"),
    ]);
    assert_eq!(Ok(out_list(vec![1, 2, 3, 4, 5])), evaluate(&append_empty_expression, &mut env));
}

#[test]
fn map_on_non_list() {
    let mut env = create_global_environment();
    let map_expression = list(vec![sym("map"), num(1), sym("+")]);
    assert_eq!(Err(LispError::TypeMismatch), evaluate(&map_expression, &mut env));
}

#[test]
fn map_on_empty_list() {
    let mut env = create_global_environment();
    let map_expression = list(vec![sym("map"), sym("nil"), sym("+")]);
    let expected = LispOutput::List(Box::new(LispList::Nil));
    assert_eq!(Ok(expected), evaluate(&map_expression, &mut env));
}

#[test]
fn map_on_single_element_list() {
    let mut env = create_global_environment();
    let map_expression = list(vec![sym("map"), list(vec![sym("list"), num(3)]), sym("-")]);
    assert_eq!(Ok(out_list(vec![-3])), evaluate(&map_expression, &mut env));
}

#[test]
fn filter_on_non_list() {
    let mut env = create_global_environment();
    let filter_expression = list(vec![sym("filter"), num(1), sym("+")]);
    assert_eq!(Err(LispError::TypeMismatch), evaluate(&filter_expression, &mut env));
}

#[test]
fn filter_on_empty_list() {
    let mut env = create_global_environment();
    let filter_expression = list(vec![sym("filter"), sym("nil"), sym("+")]);
    let expected = LispOutput::List(Box::new(LispList::Nil));
    assert_eq!(Ok(expected), evaluate(&filter_expression, &mut env));
}

#[test]
fn filter_on_single_element_list() {
    let mut env = create_global_environment();
    let greater_than_one_func = list(vec![
        sym("define"),
        sym("greater_than_one"),
        list(vec![sym("lambda"), list(vec![sym("x")]), list(vec![sym(">"), sym("x"), num(1)])]),
    ]);
    evaluate(&greater_than_one_func, &mut env).unwrap();

    let filter_expression_false =
        list(vec![sym("filter"), list(vec![sym("list"), num(0)]), sym("greater_than_one")]);
    let filter_expression_true =
        list(vec![sym("filter"), list(vec![sym("list"), num(3)]), sym("greater_than_one")]);

    let expected_filter_false = LispOutput::List(Box::new(LispList::Nil));
    assert_eq!(Ok(expected_filter_false), evaluate(&filter_expression_false, &mut env));
    assert_eq!(Ok(out_list(vec![3])), evaluate(&filter_expression_true, &mut env));
}

#[test]
fn reduce_on_non_list() {
    let mut env = create_global_environment();
    let reduce_expression = list(vec![sym("reduce"), num(1), sym("+"), num(1)]);
    assert_eq!(Err(LispError::TypeMismatch), evaluate(&reduce_expression, &mut env));
}

#[test]
fn reduce_on_empty_list() {
    let mut env = create_global_environment();
    let reduce_expression = list(vec![sym("reduce"), sym("nil"), sym("+"), num(0)]);
    assert_eq!(Ok(LispOutput::Integer(0)), evaluate(&reduce_expression, &mut env));
}

#[test]
fn reduce_on_single_element_list() {
    let mut env = create_global_environment();
    let reduce_expression =
        list(vec![sym("reduce"), list(vec![sym("list"), num(1)]), sym("+"), num(0)]);
    assert_eq!(Ok(LispOutput::Integer(1)), evaluate(&reduce_expression, &mut env));
}

#[test]
fn reduce_on_multi_element_list() {
    let mut env = create_global_environment();
    let reduce_expression = list(vec![
        sym("reduce"),
        list(vec![sym("list"), num(1), num(2), num(3), num(4), num(5)]),
        sym("+"),
        num(0),
    ]);
    assert_eq!(Ok(LispOutput::Integer(15)), evaluate(&reduce_expression, &mut env));
}

#[test]
fn begin_empty_arguments() {
    let mut env = create_global_environment();
    let begin_expression = list(vec![sym("begin")]);
    assert_eq!(Err(LispError::BadSpecialForm), evaluate(&begin_expression, &mut env));
}

#[test]
fn begin_single_argument() {
    let mut env = create_global_environment();
    let begin_expression =
        list(vec![sym("begin"), list(vec![sym("define"), sym("x"), num(2)]), sym("x")]);
    assert_eq!(Ok(LispOutput::Integer(2)), evaluate(&begin_expression, &mut env));
}

#[test]
fn begin_multiple_arguments() {
    let mut env = create_global_environment();
    let add_one_func =
        list(vec![sym("lambda"), list(vec![sym("x")]), list(vec![sym("+"), sym("x"), num(1)])]);

    // x = 2, y = x + 3 = 5, add_one(y) = 6
    let begin_expression = list(vec![
        sym("begin"),
        list(vec![sym("define"), sym("x"), num(2)]),
        list(vec![sym("define"), sym("y"), list(vec![sym("+"), sym("x"), num(3)])]),
        list(vec![add_one_func, sym("y")]),
    ]);
    assert_eq!(Ok(LispOutput::Integer(6)), evaluate(&begin_expression, &mut env));
}

#[test]
fn del_non_existent_object() {
    let mut env = create_global_environment();
    let del_expression = list(vec![sym("del"), sym("add_one")]);
    assert_eq!(Err(LispError::UnboundSymbol), evaluate(&del_expression, &mut env));
}

#[test]
fn del_variable_definition() {
    let mut env = create_global_environment();
    evaluate(&list(vec![sym("define"), sym("x"), num(2)]), &mut env).unwrap();

    let del_expression = list(vec![sym("del"), sym("x")]);
    assert_eq!(Ok(LispOutput::Integer(2)), evaluate(&del_expression, &mut env));
}

#[test]
fn del_variable_definition_twice() {
    let mut env = create_global_environment();
    evaluate(&list(vec![sym("define"), sym("x"), num(2)]), &mut env).unwrap();

    let del_expression = list(vec![sym("del"), sym("x")]);
    assert_eq!(Ok(LispOutput::Integer(2)), evaluate(&del_expression, &mut env));
    assert_eq!(Err(LispError::UnboundSymbol), evaluate(&del_expression, &mut env));
}

#[test]
fn let_simple_variable_definition() {
    let mut env = create_global_environment();
    let let_expression =
        list(vec![sym("let"), list(vec![list(vec![sym("x"), num(2)])]), sym("x")]);
    assert_eq!(Ok(LispOutput::Integer(2)), evaluate(&let_expression, &mut env));
}

#[test]
fn let_binary_operations() {
    let mut env = create_global_environment();
    let let_expression = list(vec![
        sym("let"),
        list(vec![
            list(vec![sym("x"), num(2)]),
            list(vec![sym("y"), num(3)]),
            list(vec![sym("z"), num(6)]),
        ]),
        list(vec![sym("equal?"), list(vec![sym("*"), sym("x"), sym("y")]), sym("z")]),
    ]);
    assert_eq!(Ok(LispOutput::Bool(true)), evaluate(&let_expression, &mut env));
}

#[test]
fn set_bang_non_existent_variable() {
    let mut env = create_global_environment();
    let set_bang_expression = list(vec![sym("set!"), sym("x"), num(2)]);
    assert_eq!(Err(LispError::UnboundSymbol), evaluate(&set_bang_expression, &mut env));
}

#[test]
fn set_bang_single_variable() {
    let mut env = create_global_environment();
    evaluate(&list(vec![sym("define"), sym("x"), num(2)]), &mut env).unwrap();

    let get_x = sym("x");
    assert_eq!(Ok(LispOutput::Integer(2)), evaluate(&get_x, &mut env));

    let set_bang_expression = list(vec![sym("set!"), sym("x"), num(5)]);
    assert_eq!(Ok(LispOutput::Integer(5)), evaluate(&set_bang_expression, &mut env));
    assert_eq!(Ok(LispOutput::Integer(5)), evaluate(&get_x, &mut env));
}
