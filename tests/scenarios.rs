use lisp_interpreter::environment::Environment;
use lisp_interpreter::evaluate::evaluate;
use lisp_interpreter::functions::{BuiltInFunction, Function, LispFunction, LispFunctionCall};
use lisp_interpreter::lisp_error::LispError;
use lisp_interpreter::lisp_expression::LispExpression;
use lisp_interpreter::parser::parse;
use lisp_interpreter::tokenizer::tokenize;
use lisp_interpreter::value::{BuiltIn, LispList, LispOutput};

fn run(env: &mut Environment, source: &str) -> Result<LispOutput, LispError> {
    let expression = parse(&tokenize(source))?;
    evaluate(&expression, env)
}

fn run_fresh(source: &str) -> Result<LispOutput, LispError> {
    let mut env = Environment::global_env();
    run(&mut env, source)
}

fn ints(values: &[i64]) -> LispList {
    let mut l = LispList::Nil;
    for v in values.iter().rev() {
        l = LispList::Cons(LispOutput::Integer(*v), Box::new(l));
    }
    l
}

fn int_list(values: &[i64]) -> LispOutput {
    LispOutput::List(Box::new(ints(values)))
}

fn defined_here(env: &Environment, name: &str) -> bool {
    env.frames[env.current].bindings.iter().any(|(n, _)| n == name)
}

#[test]
fn sum_of_four() {
    assert_eq!(Ok(LispOutput::Integer(10)), run_fresh("(+ 1 2 3 4)"));
}

#[test]
fn define_then_call_twice() {
    assert_eq!(
        Ok(LispOutput::Integer(4)),
        run_fresh("(begin (define add1 (lambda (x) (+ x 1))) (add1 (add1 2)))")
    );
}

#[test]
fn immediate_lambda_call() {
    assert_eq!(Ok(LispOutput::Integer(6)), run_fresh("((lambda (y) (+ y 1)) 5)"));
}

#[test]
fn if_on_chained_comparison() {
    assert_eq!(Ok(LispOutput::Integer(1)), run_fresh("(if (< 1 2 3) 1 0)"));
    assert_eq!(Ok(LispOutput::Integer(0)), run_fresh("(if (< 1 3 2) 1 0)"));
}

#[test]
fn car_of_cdr() {
    assert_eq!(Ok(LispOutput::Integer(2)), run_fresh("(car (cdr (list 1 2 3 4)))"));
}

#[test]
fn parallel_let() {
    assert_eq!(
        Ok(LispOutput::Bool(true)),
        run_fresh("(let ((x 2) (y 3) (z 6)) (equal? (* x y) z))")
    );
    // the bindings do not see one another
    let mut env = Environment::global_env();
    run(&mut env, "(define x 10)").unwrap();
    assert_eq!(Ok(LispOutput::Integer(11)), run(&mut env, "(let ((x 1) (y (+ x 1))) y)"));
}

#[test]
fn append_with_nils() {
    assert_eq!(
        Ok(int_list(&[1, 2, 3, 4, 5])),
        run_fresh("(append nil (list 1 2) nil (list 3) (list 4 5))")
    );
}

#[test]
fn map_squares() {
    assert_eq!(Ok(int_list(&[1, 4, 9])), run_fresh("(map (list 1 2 3) (lambda (x) (* x x)))"));
}

#[test]
fn filter_greater_than_one() {
    assert_eq!(
        Ok(int_list(&[2, 3])),
        run_fresh("(filter (list 0 1 2 3) (lambda (x) (> x 1)))")
    );
}

#[test]
fn set_bang_then_read() {
    let mut env = Environment::global_env();
    run(&mut env, "(define x 2)").unwrap();
    assert_eq!(Ok(LispOutput::Integer(5)), run(&mut env, "(set! x 5)"));
    assert_eq!(Ok(LispOutput::Integer(5)), run(&mut env, "x"));
}

#[test]
fn list_ref_past_end() {
    assert_eq!(Err(LispError::IndexOutOfBounds), run_fresh("(list-ref (list 10 20 30) 5)"));
    assert_eq!(Err(LispError::IndexOutOfBounds), run_fresh("(list-ref (list 10 20 30) -1)"));
    assert_eq!(Ok(LispOutput::Integer(30)), run_fresh("(list-ref (list 10 20 30) 2)"));
}

#[test]
fn set_bang_unbound() {
    assert_eq!(Err(LispError::UnboundSymbol), run_fresh("(set! undef 1)"));
}

#[test]
fn closure_sees_later_rebinding() {
    let mut env = Environment::global_env();
    run(&mut env, "(define x 1)").unwrap();
    run(&mut env, "(define f (lambda () x))").unwrap();
    run(&mut env, "(define x 2)").unwrap();
    assert_eq!(Ok(LispOutput::Integer(2)), run(&mut env, "(f)"));
}

#[test]
fn closure_scope_is_lexical() {
    let mut env = Environment::global_env();
    run(&mut env, "(define x 1)").unwrap();
    run(&mut env, "(define f (lambda () x))").unwrap();
    // the caller's binding of x is not seen by f
    assert_eq!(Ok(LispOutput::Integer(1)), run(&mut env, "((lambda (x) (f)) 100)"));
}

#[test]
fn recursive_definition() {
    let mut env = Environment::global_env();
    run(&mut env, "(define fact (lambda (n) (if (< n 1) 1 (* n (fact (- n 1))))))").unwrap();
    assert_eq!(Ok(LispOutput::Integer(120)), run(&mut env, "(fact 5)"));
}

#[test]
fn repeated_evaluation_agrees() {
    let mut env = Environment::global_env();
    run(&mut env, "(define xs (list 1 2 3))").unwrap();
    let first = run(&mut env, "(append xs (list 4))");
    let second = run(&mut env, "(append xs (list 4))");
    assert_eq!(first, second);
    assert_eq!(Ok(int_list(&[1, 2, 3, 4])), first);
}

#[test]
fn list_laws_on_values() {
    let xs = ints(&[1, 2, 3]);
    let ys = ints(&[4, 5]);
    let both = LispList::append(vec![ints(&[1, 2, 3]), ints(&[4, 5])]);
    assert_eq!(ints(&[1, 2, 3, 4, 5]), both);
    assert_eq!(LispOutput::Integer(5), both.length());
    assert_eq!(xs, LispList::append(vec![LispList::Nil, ints(&[1, 2, 3])]));
    assert_eq!(ys, LispList::append(vec![ints(&[4, 5]), LispList::Nil]));
    assert_eq!(LispList::Nil, LispList::append(vec![]));

    let cons = LispList::Cons(LispOutput::Integer(9), Box::new(ints(&[1, 2])));
    assert_eq!(Ok(LispOutput::Integer(9)), cons.get_car());
    assert_eq!(Ok(int_list(&[1, 2])), cons.get_cdr());
    assert_eq!(LispOutput::Integer(3), cons.length());
    assert_eq!(LispOutput::Integer(0), LispList::Nil.length());
    assert_eq!(Err(LispError::IndexOutOfBounds), LispList::Nil.get_car());
    assert_eq!(Err(LispError::IndexOutOfBounds), LispList::Nil.get_cdr());
    assert_eq!(Ok(LispOutput::Integer(2)), cons.get(2));
    assert_eq!(Err(LispError::IndexOutOfBounds), cons.get(3));
    assert_eq!(
        ints(&[7, 8]),
        LispList::build(vec![LispOutput::Integer(7), LispOutput::Integer(8)])
    );
}

#[test]
fn map_identity_and_constant_filters() {
    assert_eq!(Ok(int_list(&[4, 5, 6])), run_fresh("(map (list 4 5 6) (lambda (x) x))"));
    assert_eq!(Ok(int_list(&[4, 5, 6])), run_fresh("(filter (list 4 5 6) (lambda (x) #t))"));
    assert_eq!(
        Ok(LispOutput::List(Box::new(LispList::Nil))),
        run_fresh("(filter (list 4 5 6) (lambda (x) #f))")
    );
}

#[test]
fn parse_of_printed_expression() {
    let expected = LispExpression::List(vec![
        LispExpression::Symbol("foo".to_string()),
        LispExpression::List(vec![
            LispExpression::Integer(-12),
            LispExpression::Symbol("bar?".to_string()),
        ]),
        LispExpression::List(vec![]),
    ]);
    assert_eq!(Ok(expected), parse(&tokenize("(foo (-12 bar?) ())")));
}

#[test]
fn or_short_circuit_keeps_frame() {
    let mut env = Environment::global_env();
    assert_eq!(Ok(LispOutput::Bool(true)), run(&mut env, "(or #t (define y 1))"));
    assert!(!defined_here(&env, "y"));
    assert_eq!(Ok(LispOutput::Bool(false)), run(&mut env, "(or #f (define y 1) #f)"));
    assert!(defined_here(&env, "y"));
    assert_eq!(Ok(LispOutput::Bool(true)), run(&mut env, "(and)"));
    assert_eq!(Ok(LispOutput::Bool(false)), run(&mut env, "(or)"));
}

#[test]
fn arithmetic_edges() {
    assert_eq!(Ok(LispOutput::Integer(0)), run_fresh("(+)"));
    assert_eq!(Ok(LispOutput::Integer(1)), run_fresh("(*)"));
    assert_eq!(Ok(LispOutput::Integer(-5)), run_fresh("(- 5)"));
    assert_eq!(Ok(LispOutput::Integer(4)), run_fresh("(- 10 1 2 3)"));
    assert_eq!(Ok(LispOutput::Integer(-3)), run_fresh("(/ -7 2)"));
    assert_eq!(Ok(LispOutput::Integer(2)), run_fresh("(/ 20 5 2)"));
    assert_eq!(
        Ok(LispOutput::Integer(i64::MIN)),
        run_fresh("(+ 9223372036854775807 1)")
    );
    assert_eq!(
        Ok(LispOutput::Integer(i64::MIN)),
        run_fresh("(/ -9223372036854775808 -1)")
    );
    assert_eq!(Ok(LispOutput::Bool(true)), run_fresh("(>= 3 3 2)"));
    assert_eq!(Ok(LispOutput::Bool(false)), run_fresh("(> 3 3)"));
    assert_eq!(Ok(LispOutput::Bool(true)), run_fresh("(<= 1 1 2)"));
    assert_eq!(Ok(LispOutput::Bool(false)), run_fresh("(equal? 5 5 6)"));
}

#[test]
fn error_kinds() {
    assert_eq!(Err(LispError::ParseError), run_fresh("(+ 1"));
    assert_eq!(Err(LispError::UnboundSymbol), run_fresh("nope"));
    assert_eq!(Err(LispError::EmptyApplication), run_fresh("()"));
    assert_eq!(Err(LispError::BadSpecialForm), run_fresh("(define 1 2)"));
    assert_eq!(Err(LispError::BadSpecialForm), run_fresh("(lambda (x x) x)"));
    assert_eq!(Err(LispError::BadSpecialForm), run_fresh("(let (x 1) x)"));
    assert_eq!(Err(LispError::BadSpecialForm), run_fresh("(if #t 1)"));
    assert_eq!(Err(LispError::TypeMismatch), run_fresh("(+ 1 #t)"));
    assert_eq!(Err(LispError::TypeMismatch), run_fresh("(1 2)"));
    assert_eq!(Err(LispError::TypeMismatch), run_fresh("(car 1)"));
    assert_eq!(Err(LispError::TypeMismatch), run_fresh("(filter (list 1) (lambda (x) x))"));
    assert_eq!(Err(LispError::ArityMismatch), run_fresh("((lambda (x) x) 1 2)"));
    assert_eq!(Err(LispError::ArityMismatch), run_fresh("(car (list 1) (list 2))"));
    assert_eq!(Err(LispError::ArityMismatch), run_fresh("(< 1)"));
    assert_eq!(Err(LispError::DivisionByZero), run_fresh("(/ 1 0)"));
    assert_eq!(Err(LispError::IndexOutOfBounds), run_fresh("(car nil)"));
    assert_eq!(
        Err(LispError::RecursionLimit),
        run_fresh("(begin (define loop (lambda () (loop))) (loop))")
    );
}

#[test]
fn closure_from_another_environment() {
    let mut small = Environment::new();
    let params = LispExpression::List(vec![]);
    let func = Function::build(&params, LispExpression::Integer(1), 5).unwrap();
    assert_eq!(Err(LispError::InvalidFrame), func.call(vec![], &mut small));
}

#[test]
fn function_values_are_callable() {
    let mut env = Environment::global_env();
    let plus = LispFunction::BuiltInFunction(BuiltInFunction::new(BuiltIn::Add));
    assert_eq!(
        Ok(LispOutput::Integer(7)),
        plus.call(vec![LispOutput::Integer(3), LispOutput::Integer(4)], &mut env)
    );
    let params = LispExpression::List(vec![LispExpression::Symbol("n".to_string())]);
    let body = LispExpression::List(vec![
        LispExpression::Symbol("*".to_string()),
        LispExpression::Symbol("n".to_string()),
        LispExpression::Integer(2),
    ]);
    let double = Function::build(&params, body, env.current).unwrap();
    assert_eq!(Ok(LispOutput::Integer(42)), double.call(vec![LispOutput::Integer(21)], &mut env));
    let bad = LispExpression::List(vec![LispExpression::Integer(1)]);
    assert_eq!(
        Err(LispError::BadSpecialForm),
        Function::build(&bad, LispExpression::Integer(0), 0)
    );
}

#[test]
fn environment_operations() {
    let mut env = Environment::build(
        vec![
            ("a".to_string(), LispOutput::Integer(1)),
            ("a".to_string(), LispOutput::Integer(2)),
        ],
        Some(Environment::global_env()),
    );
    assert_eq!(Ok(LispOutput::Integer(2)), env.get(&"a".to_string()));
    assert_eq!(1, env.frames[env.current].bindings.len());
    env.set(&"b".to_string(), &LispOutput::Bool(true));
    assert_eq!(Ok(LispOutput::Bool(true)), env.get(&"b".to_string()));
    assert_eq!(Ok(LispOutput::Integer(9)), env.set_bang(&"a".to_string(), LispOutput::Integer(9)));
    assert_eq!(Ok(LispOutput::Integer(9)), env.del(&"a".to_string()));
    assert_eq!(Err(LispError::UnboundSymbol), env.del(&"a".to_string()));
    // the built-ins frame is reached through the chain, but `del` only looks at this frame
    assert!(env.get(&"car".to_string()).is_ok());
    assert_eq!(Err(LispError::UnboundSymbol), env.del(&"car".to_string()));
    assert_eq!(Err(LispError::UnboundSymbol), env.set_bang(&"zz".to_string(), LispOutput::Void));
}

#[test]
fn definitions_stay_out_of_the_built_ins_frame() {
    let mut env = Environment::global_env();
    run(&mut env, "(define car 5)").unwrap();
    assert_eq!(Ok(LispOutput::Integer(5)), run(&mut env, "car"));
    let builtins = &env.frames[0];
    assert!(builtins.bindings.iter().any(|(n, v)| n == "car" && matches!(v, LispOutput::Lambda(_))));
}

#[test]
fn error_messages_are_distinct() {
    assert_ne!(LispError::ParseError.message(), LispError::TypeMismatch.message());
}
