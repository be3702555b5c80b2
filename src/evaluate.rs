use vstd::prelude::*;

use crate::built_in_functions::{call_simple_builtin, filter_func, map_func, reduce_func};
use crate::environment::{bindings_view, collect_bindings, Environment};
use crate::functions::{function_view, Function, LispFunction};
use crate::lisp_error::LispError;
use crate::lisp_expression::{copy_expression, items_view, lemma_list_view, LispExpression};
use crate::semantics::{
    apply, eval, eval_all, eval_and, eval_application, eval_let, eval_or, eval_special_form,
    is_special_form, lemma_eval_all_len, let_exprs, let_names, valid_let_bindings,
};
use crate::value::{
    copy_output, lemma_outputs_view_push, outputs_view, result_view, BuiltIn, LispOutput, Val,
};

verus! {

broadcast use vstd::string::group_string_axioms;

/// How deep evaluation may nest before it fails with `RecursionLimit`.
pub const MAX_DEPTH: u64 = 400;

/// What every evaluation step keeps: the environment stays well formed, keeps its current
/// frame, and only gains frames.
pub open spec fn evolves(before: Environment, after: Environment) -> bool {
    &&& after.wf()
    &&& after.current == before.current
    &&& after.frames.len() >= before.frames.len()
}

/// Evaluates `tree` in the current frame of `env`.
pub fn evaluate(tree: &LispExpression, env: &mut Environment) -> (r: Result<LispOutput, LispError>)
    requires
        old(env).wf(),
    ensures
        evolves(*old(env), *final(env)),
        (final(env)@.frames, result_view(r)) == eval(
            tree@,
            old(env)@.frames,
            old(env)@.current,
            MAX_DEPTH as nat,
        ),
{
    let f = env.current;
    eval_in(tree, env, f, MAX_DEPTH)
}

fn text_is(s: &String, t: &str) -> (r: bool)
    ensures
        r == (s@ == t@),
{
    *s == t.to_string()
}

fn special_form_name(s: &String) -> (r: bool)
    ensures
        r == is_special_form(s@),
{
    text_is(s, "define") || text_is(s, "lambda") || text_is(s, "if") || text_is(s, "and")
        || text_is(s, "or") || text_is(s, "del") || text_is(s, "let") || text_is(s, "set!")
        || text_is(s, "begin")
}

/// Evaluates `e` in frame `f`, nesting at most `fuel` deep.
pub fn eval_in(e: &LispExpression, env: &mut Environment, f: usize, fuel: u64) -> (r: Result<
    LispOutput,
    LispError,
>)
    requires
        old(env).wf(),
        f < old(env).frames.len(),
    ensures
        evolves(*old(env), *final(env)),
        (final(env)@.frames, result_view(r)) == eval(e@, old(env)@.frames, f as nat, fuel as nat),
    decreases fuel, 3int,
{
    if fuel == 0 {
        return Err(LispError::RecursionLimit);
    }
    let sub = fuel - 1;
    match e {
        LispExpression::Integer(n) => Ok(LispOutput::Integer(*n)),
        LispExpression::Symbol(s) => match env.lookup_in(f, s) {
            Some(v) => Ok(v),
            None => Err(LispError::UnboundSymbol),
        },
        LispExpression::List(items) => {
            proof {
                lemma_list_view(*e);
            }
            if items.len() == 0 {
                return Err(LispError::EmptyApplication);
            }
            assert(items_view(*items)[0] == items@[0]@);
            if let LispExpression::Symbol(s) = &items[0] {
                if special_form_name(s) {
                    return eval_form(items, env, f, sub);
                }
            }
            eval_call(items, env, f, sub)
        },
    }
}

/// Evaluates `items[start..]` one after the other; stops at the first failure.
#[verifier::loop_isolation(false)]
fn eval_arguments(
    items: &Vec<LispExpression>,
    start: usize,
    env: &mut Environment,
    f: usize,
    fuel: u64,
) -> (r: Result<Vec<LispOutput>, LispError>)
    requires
        old(env).wf(),
        f < old(env).frames.len(),
        start <= items.len(),
    ensures
        evolves(*old(env), *final(env)),
        ({
            let (st, res) = eval_all(
                items_view(*items).skip(start as int),
                old(env)@.frames,
                f as nat,
                fuel as nat,
                seq![],
            );
            &&& final(env)@.frames == st
            &&& match r {
                Ok(vs) => res == Ok::<Seq<Val>, LispError>(outputs_view(vs@)),
                Err(err) => res == Err::<Seq<Val>, LispError>(err),
            }
        }),
    decreases fuel, 4int,
{
    let ghost es = items_view(*items);
    let ghost goal = eval_all(es.skip(start as int), env@.frames, f as nat, fuel as nat, seq![]);
    let mut vals: Vec<LispOutput> = Vec::new();
    let mut i: usize = start;
    assert(outputs_view(vals@) =~= seq![]);
    while i < items.len()
        invariant
            start <= i <= items.len(),
            es == items_view(*items),
            evolves(*old(env), *env),
            f < env.frames.len(),
            eval_all(es.skip(i as int), env@.frames, f as nat, fuel as nat, outputs_view(vals@))
                == goal,
        decreases items.len() - i,
    {
        assert(es.skip(i as int)[0] == items@[i as int]@);
        assert(es.skip(i as int).skip(1) =~= es.skip(i + 1));
        let r = eval_in(&items[i], env, f, fuel);
        match r {
            Ok(v) => {
                proof {
                    lemma_outputs_view_push(vals@, v);
                }
                vals.push(v);
            },
            Err(err) => {
                return Err(err);
            },
        }
        i = i + 1;
    }
    assert(es.skip(i as int) =~= seq![]);
    Ok(vals)
}

/// Fails unless a special form has exactly `number_of_args` parts, its name included.
fn check_arguments(args: &Vec<LispExpression>, number_of_args: usize) -> (r: Result<(), LispError>)
    ensures
        r is Ok <==> args.len() == number_of_args,
        r is Err ==> r == Err::<(), LispError>(LispError::BadSpecialForm),
{
    if args.len() != number_of_args {
        Err(LispError::BadSpecialForm)
    } else {
        Ok(())
    }
}

/// `and` (or `or`) over the clauses `items[1..]`: stops at the first clause that is false
/// (true), else gives true (false).
#[verifier::loop_isolation(false)]
fn eval_clauses(items: &Vec<LispExpression>, env: &mut Environment, f: usize, sub: u64, is_and: bool) -> (r:
    Result<LispOutput, LispError>)
    requires
        old(env).wf(),
        f < old(env).frames.len(),
        items.len() > 0,
    ensures
        evolves(*old(env), *final(env)),
        is_and ==> (final(env)@.frames, result_view(r)) == eval_and(
            items_view(*items).skip(1),
            old(env)@.frames,
            f as nat,
            sub as nat,
        ),
        !is_and ==> (final(env)@.frames, result_view(r)) == eval_or(
            items_view(*items).skip(1),
            old(env)@.frames,
            f as nat,
            sub as nat,
        ),
    decreases sub, 5int,
{
    let ghost iv = items_view(*items);
    let ghost st = env@.frames;
    let stop = !is_and;
    let mut i: usize = 1;
    assert(iv.skip(1) == iv.skip(i as int));
    while i < items.len()
        invariant
            1 <= i <= items.len(),
            iv == items_view(*items),
            evolves(*old(env), *env),
            f < env.frames.len(),
            stop == !is_and,
            is_and ==> eval_and(iv.skip(i as int), env@.frames, f as nat, sub as nat)
                == eval_and(iv.skip(1), st, f as nat, sub as nat),
            !is_and ==> eval_or(iv.skip(i as int), env@.frames, f as nat, sub as nat)
                == eval_or(iv.skip(1), st, f as nat, sub as nat),
        decreases items.len() - i,
    {
        assert(iv.skip(i as int)[0] == items@[i as int]@);
        assert(iv.skip(i as int).skip(1) =~= iv.skip(i + 1));
        match eval_in(&items[i], env, f, sub) {
            Ok(LispOutput::Bool(b)) => {
                if b == stop {
                    return Ok(LispOutput::Bool(b));
                }
            },
            Ok(_) => {},
            Err(err) => {
                return Err(err);
            },
        }
        i = i + 1;
    }
    assert(iv.skip(i as int) =~= seq![]);
    Ok(LispOutput::Bool(is_and))
}

/// A special form, named by the symbol at the head of `items`.
#[verifier::loop_isolation(false)]
fn eval_form(items: &Vec<LispExpression>, env: &mut Environment, f: usize, sub: u64) -> (r: Result<
    LispOutput,
    LispError,
>)
    requires
        old(env).wf(),
        f < old(env).frames.len(),
        items.len() > 0,
        items_view(*items)[0] is Sym,
        is_special_form(items_view(*items)[0]->Sym_0),
    ensures
        evolves(*old(env), *final(env)),
        (final(env)@.frames, result_view(r)) == eval_special_form(
            items_view(*items),
            old(env)@.frames,
            f as nat,
            sub as nat,
        ),
    decreases sub, 6int,
{
    let ghost iv = items_view(*items);
    let ghost st = env@.frames;
    assert(forall|k: int| 0 <= k < items.len() ==> #[trigger] iv[k] == items@[k]@);
    let name = match &items[0] {
        LispExpression::Symbol(s) => s,
        _ => {
            return Err(LispError::BadSpecialForm);
        },
    };
    if text_is(name, "define") || text_is(name, "set!") {
        if let Err(err) = check_arguments(items, 3) {
            return Err(err);
        }
        let var = match &items[1] {
            LispExpression::Symbol(var) => var,
            _ => {
                return Err(LispError::BadSpecialForm);
            },
        };
        let v = match eval_in(&items[2], env, f, sub) {
            Ok(v) => v,
            Err(err) => {
                return Err(err);
            },
        };
        let stored = copy_output(&v);
        if text_is(name, "define") {
            env.define_in(f, var, stored);
            Ok(v)
        } else {
            match env.assign_in(f, var, stored) {
                Ok(()) => Ok(v),
                Err(err) => Err(err),
            }
        }
    } else if text_is(name, "lambda") {
        if let Err(err) = check_arguments(items, 3) {
            return Err(err);
        }
        match Function::build(&items[1], copy_expression(&items[2]), f) {
            Ok(func) => Ok(LispOutput::Lambda(LispFunction::Function(func))),
            Err(err) => Err(err),
        }
    } else if text_is(name, "if") {
        if let Err(err) = check_arguments(items, 4) {
            return Err(err);
        }
        let c = eval_in(&items[1], env, f, sub);
        // only the boolean true selects the first branch; every other value, integers and
        // lists included, selects the second
        match c {
            Ok(LispOutput::Bool(true)) => eval_in(&items[2], env, f, sub),
            Ok(_) => eval_in(&items[3], env, f, sub),
            Err(err) => Err(err),
        }
    } else if text_is(name, "and") || text_is(name, "or") {
        let is_and = text_is(name, "and");
        eval_clauses(items, env, f, sub, is_and)
    } else if text_is(name, "del") {
        if let Err(err) = check_arguments(items, 2) {
            return Err(err);
        }
        match &items[1] {
            LispExpression::Symbol(var) => env.remove_in(f, var),
            _ => Err(LispError::BadSpecialForm),
        }
    } else if text_is(name, "let") {
        if let Err(err) = check_arguments(items, 3) {
            return Err(err);
        }
        eval_let_form(items, env, f, sub)
    } else {
        if items.len() < 2 {
            return Err(LispError::BadSpecialForm);
        }
        proof {
            lemma_eval_all_len(iv.skip(1), st, f as nat, sub as nat, seq![]);
        }
        match eval_arguments(items, 1, env, f, sub) {
            Ok(vals) => {
                let mut vals = vals;
                assert(outputs_view(vals@).len() == vals.len());
                assert(vals.len() > 0);
                assert(outputs_view(vals@).last() == vals@.last()@);
                match vals.pop() {
                    Some(last) => Ok(last),
                    None => Err(LispError::BadSpecialForm),
                }
            },
            Err(err) => Err(err),
        }
    }
}

/// `let`: the binding expressions in frame `f`, then the body in a fresh child frame.
#[verifier::loop_isolation(false)]
fn eval_let_form(items: &Vec<LispExpression>, env: &mut Environment, f: usize, sub: u64) -> (r: Result<
    LispOutput,
    LispError,
>)
    requires
        old(env).wf(),
        f < old(env).frames.len(),
        items.len() == 3,
    ensures
        evolves(*old(env), *final(env)),
        (final(env)@.frames, result_view(r)) == eval_let(
            items_view(*items),
            old(env)@.frames,
            f as nat,
            sub as nat,
        ),
    decreases sub, 4int,
{
    let ghost iv = items_view(*items);
    let ghost st = env@.frames;
    assert(forall|k: int| 0 <= k < items.len() ==> #[trigger] iv[k] == items@[k]@);
    let defs = match &items[1] {
        LispExpression::List(defs) => defs,
        _ => {
            return Err(LispError::BadSpecialForm);
        },
    };
    proof {
        lemma_list_view(items@[1]);
    }
    let ghost bsv = items_view(*defs);
    assert(iv[1]->List_0 == bsv);
    assert(forall|k: int| 0 <= k < defs.len() ==> #[trigger] bsv[k] == defs@[k]@);
    let mut k: usize = 0;
    while k < defs.len()
        invariant
            k <= defs.len(),
            forall|j: int|
                0 <= j < k ==> {
                    let b = #[trigger] bsv[j];
                    b is List && b->List_0.len() == 2 && b->List_0[0] is Sym
                },
        decreases defs.len() - k,
    {
        match &defs[k] {
            LispExpression::List(b) => {
                proof {
                    lemma_list_view(defs@[k as int]);
                }
                assert(iv[1]->List_0[k as int] == bsv[k as int]);
                if b.len() != 2 {
                    assert(!valid_let_bindings(iv[1]));
                    return Err(LispError::BadSpecialForm);
                }
                assert(items_view(*b)[0] == b@[0]@);
                match &b[0] {
                    LispExpression::Symbol(_) => {},
                    _ => {
                        assert(!valid_let_bindings(iv[1]));
                        return Err(LispError::BadSpecialForm);
                    },
                }
            },
            _ => {
                assert(iv[1]->List_0[k as int] == bsv[k as int]);
                assert(!valid_let_bindings(iv[1]));
                return Err(LispError::BadSpecialForm);
            },
        }
        k = k + 1;
    }
    assert(valid_let_bindings(iv[1]));
    let ghost exprs = let_exprs(bsv);
    let ghost names = let_names(bsv);
    let ghost goal = eval_all(exprs, st, f as nat, sub as nat, seq![]);
    let mut pairs: Vec<(String, LispOutput)> = Vec::new();
    let mut i: usize = 0;
    assert(exprs.skip(0) =~= exprs);
    assert(bindings_view(pairs@).map_values(|p: (Seq<char>, Val)| p.1) =~= seq![]);
    while i < defs.len()
        invariant
            i <= defs.len(),
            evolves(*old(env), *env),
            f < env.frames.len(),
            pairs.len() == i,
            forall|j: int| 0 <= j < i ==> (#[trigger] pairs@[j]).0@ == names[j],
            eval_all(
                exprs.skip(i as int),
                env@.frames,
                f as nat,
                sub as nat,
                bindings_view(pairs@).map_values(|p: (Seq<char>, Val)| p.1),
            ) == goal,
        decreases defs.len() - i,
    {
        match &defs[i] {
            LispExpression::List(b) => {
                proof {
                    lemma_list_view(defs@[i as int]);
                }
                assert(items_view(*b)[0] == b@[0]@);
                assert(items_view(*b)[1] == b@[1]@);
                assert(exprs.skip(i as int)[0] == b@[1]@);
                assert(exprs.skip(i as int).skip(1) =~= exprs.skip(i + 1));
                match &b[0] {
                    LispExpression::Symbol(nm) => {
                        match eval_in(&b[1], env, f, sub) {
                            Ok(v) => {
                                let ghost before = bindings_view(pairs@).map_values(
                                    |p: (Seq<char>, Val)| p.1,
                                );
                                let ghost vv = v@;
                                pairs.push((nm.clone(), v));
                                assert(bindings_view(pairs@).map_values(|p: (Seq<char>, Val)| p.1)
                                    =~= before.push(vv));
                            },
                            Err(err) => {
                                return Err(err);
                            },
                        }
                    },
                    _ => {
                        return Err(LispError::BadSpecialForm);
                    },
                }
            },
            _ => {
                return Err(LispError::BadSpecialForm);
            },
        }
        i = i + 1;
    }
    assert(exprs.skip(i as int) =~= seq![]);
    assert(bindings_view(pairs@).map_values(|p: (Seq<char>, Val)| p.0) =~= names);
    let bs = collect_bindings(pairs);
    let idx = env.push_frame(bs, f);
    eval_in(&items[2], env, idx, sub)
}

/// An application: the head, then the arguments, then the call.
fn eval_call(items: &Vec<LispExpression>, env: &mut Environment, f: usize, sub: u64) -> (r: Result<
    LispOutput,
    LispError,
>)
    requires
        old(env).wf(),
        f < old(env).frames.len(),
        items.len() > 0,
    ensures
        evolves(*old(env), *final(env)),
        (final(env)@.frames, result_view(r)) == eval_application(
            items_view(*items),
            old(env)@.frames,
            f as nat,
            sub as nat,
        ),
    decreases sub, 5int,
{
    assert(items_view(*items)[0] == items@[0]@);
    match eval_in(&items[0], env, f, sub) {
        Ok(LispOutput::Lambda(func)) => match eval_arguments(items, 1, env, f, sub) {
            Ok(args) => apply_function(&func, args, env, sub),
            Err(err) => Err(err),
        },
        Ok(_) => Err(LispError::TypeMismatch),
        Err(err) => Err(err),
    }
}

/// Calls a function value on already evaluated arguments.
pub fn apply_function(
    func: &LispFunction,
    args: Vec<LispOutput>,
    env: &mut Environment,
    fuel: u64,
) -> (r: Result<LispOutput, LispError>)
    requires
        old(env).wf(),
    ensures
        evolves(*old(env), *final(env)),
        (final(env)@.frames, result_view(r)) == apply(
            function_view(*func),
            outputs_view(args@),
            old(env)@.frames,
            fuel as nat,
        ),
    decreases fuel, 2int,
{
    match func {
        LispFunction::BuiltInFunction(b) => apply_builtin(b.function, args, env, fuel),
        LispFunction::Function(c) => apply_closure(c, args, env, fuel),
    }
}

/// Calls a closure: its body runs in a fresh frame, child of the frame it captured, that
/// binds the parameters to the arguments.
pub fn apply_closure(c: &Function, args: Vec<LispOutput>, env: &mut Environment, fuel: u64) -> (r:
    Result<LispOutput, LispError>)
    requires
        old(env).wf(),
    ensures
        evolves(*old(env), *final(env)),
        (final(env)@.frames, result_view(r)) == apply(
            function_view(LispFunction::Function(*c)),
            outputs_view(args@),
            old(env)@.frames,
            fuel as nat,
        ),
    decreases fuel, 1int,
{
    if fuel == 0 {
        return Err(LispError::RecursionLimit);
    }
    if args.len() != c.parameters.len() {
        return Err(LispError::ArityMismatch);
    }
    if c.enclosing_frame >= env.frames.len() {
        return Err(LispError::InvalidFrame);
    }
    let ghost params = c.parameters@.map_values(|s: String| s@);
    let ghost vals = outputs_view(args@);
    let mut args = args;
    let mut pairs: Vec<(String, LispOutput)> = Vec::new();
    let mut i: usize = 0;
    while i < args.len()
        invariant
            i <= args.len() == c.parameters.len(),
            vals.len() == args.len(),
            params == c.parameters@.map_values(|s: String| s@),
            forall|j: int| i <= j < args.len() ==> (#[trigger] args@[j])@ == vals[j],
            pairs.len() == i,
            forall|j: int| 0 <= j < i ==> (#[trigger] pairs@[j]).0@ == params[j],
            forall|j: int| 0 <= j < i ==> (#[trigger] pairs@[j]).1@ == vals[j],
        decreases args.len() - i,
    {
        let mut a = LispOutput::Void;
        std::mem::swap(&mut args[i], &mut a);
        pairs.push((c.parameters[i].clone(), a));
        i = i + 1;
    }
    assert(bindings_view(pairs@).map_values(|p: (Seq<char>, Val)| p.0) =~= params);
    assert(bindings_view(pairs@).map_values(|p: (Seq<char>, Val)| p.1) =~= vals);
    let bs = collect_bindings(pairs);
    let idx = env.push_frame(bs, c.enclosing_frame);
    eval_in(&c.body, env, idx, fuel - 1)
}

/// Calls a built-in function.
pub fn apply_builtin(b: BuiltIn, args: Vec<LispOutput>, env: &mut Environment, fuel: u64) -> (r:
    Result<LispOutput, LispError>)
    requires
        old(env).wf(),
    ensures
        evolves(*old(env), *final(env)),
        (final(env)@.frames, result_view(r)) == apply(
            Val::Builtin(b),
            outputs_view(args@),
            old(env)@.frames,
            fuel as nat,
        ),
    decreases fuel, 1int,
{
    if fuel == 0 {
        return Err(LispError::RecursionLimit);
    }
    let sub = fuel - 1;
    let ghost vs = outputs_view(args@);
    let mut args = args;
    match b {
        BuiltIn::MapList | BuiltIn::FilterList => {
            if args.len() != 2 {
                return Err(LispError::ArityMismatch);
            }
            assert(vs[0] == args@[0]@ && vs[1] == args@[1]@);
            let second = args.pop();
            let first = args.pop();
            match (first, second) {
                (Some(LispOutput::List(list)), Some(LispOutput::Lambda(g))) => {
                    if matches!(b, BuiltIn::MapList) {
                        map_func(*list, &g, env, sub)
                    } else {
                        filter_func(*list, &g, env, sub)
                    }
                },
                _ => Err(LispError::TypeMismatch),
            }
        },
        BuiltIn::ReduceList => {
            if args.len() != 3 {
                return Err(LispError::ArityMismatch);
            }
            assert(vs[0] == args@[0]@ && vs[1] == args@[1]@ && vs[2] == args@[2]@);
            let third = args.pop();
            let second = args.pop();
            let first = args.pop();
            match (first, second, third) {
                (Some(LispOutput::List(list)), Some(LispOutput::Lambda(g)), Some(init)) => {
                    reduce_func(*list, &g, init, env, sub)
                },
                _ => Err(LispError::TypeMismatch),
            }
        },
        _ => call_simple_builtin(b, args),
    }
}

} // verus!
