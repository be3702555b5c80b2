use vstd::prelude::*;

use crate::environment::{bindings_view, Environment};
use crate::evaluate::{apply_function, evolves};
use crate::functions::{function_view, BuiltInFunction, LispFunction};
use crate::lisp_error::LispError;
use crate::semantics::{
    all_ints, all_lists, builtin_result, chain_holds, filter_each, is_comparison,
    is_higher_order, map_each, pair_holds, product_of, reduce_each, relation_holds, sum_of,
};
use crate::value::{
    copy_output, drain_into, lemma_outputs_view_push, lists_view, outputs_view, result_view,
    BuiltIn, LispList, LispOutput, Val,
};

verus! {

broadcast use vstd::string::group_string_axioms;

/// The integers that `args` hold, when every one is an integer.
fn unwrap_lisp_outputs(args: &Vec<LispOutput>) -> (r: Option<Vec<i64>>)
    ensures
        match r {
            Some(ns) => all_ints(outputs_view(args@)) && ns.len() == args.len() && forall|i: int|
                0 <= i < ns.len() ==> ns@[i] == (#[trigger] outputs_view(args@)[i])->Int_0,
            None => !all_ints(outputs_view(args@)),
        },
{
    let ghost vs = outputs_view(args@);
    let mut ns: Vec<i64> = Vec::new();
    let mut i: usize = 0;
    while i < args.len()
        invariant
            i <= args.len(),
            vs == outputs_view(args@),
            ns.len() == i,
            forall|j: int| 0 <= j < i ==> (#[trigger] vs[j]) is Int,
            forall|j: int| 0 <= j < i ==> ns@[j] == (#[trigger] vs[j])->Int_0,
        decreases args.len() - i,
    {
        assert(vs[i as int] == args@[i as int]@);
        match &args[i] {
            LispOutput::Integer(n) => {
                ns.push(*n);
            },
            _ => {
                return None;
            },
        }
        i = i + 1;
    }
    Some(ns)
}

/// Fails unless there are exactly `number_of_args` arguments.
fn check_output_arguments(args: &Vec<LispOutput>, number_of_args: usize) -> (r: Result<
    (),
    LispError,
>)
    ensures
        r is Ok <==> args.len() == number_of_args,
        r is Err ==> r == Err::<(), LispError>(LispError::ArityMismatch),
{
    if args.len() != number_of_args {
        Err(LispError::ArityMismatch)
    } else {
        Ok(())
    }
}

/// Wrapping sum of the integers `ns[start..]`, which stand for `vs[start..]`.
fn sum_from(ns: &Vec<i64>, start: usize, vs: Ghost<Seq<Val>>) -> (r: i64)
    requires
        start <= ns.len() == vs@.len(),
        forall|i: int| 0 <= i < ns.len() ==> ns@[i] == (#[trigger] vs@[i])->Int_0,
    ensures
        r == sum_of(vs@.skip(start as int)),
{
    let mut acc: i64 = 0;
    let mut i: usize = start;
    assert(vs@.subrange(start as int, start as int) =~= seq![]);
    while i < ns.len()
        invariant
            start <= i <= ns.len() == vs@.len(),
            forall|j: int| 0 <= j < ns.len() ==> ns@[j] == (#[trigger] vs@[j])->Int_0,
            acc == sum_of(vs@.subrange(start as int, i as int)),
        decreases ns.len() - i,
    {
        assert(vs@.subrange(start as int, i + 1).drop_last() =~= vs@.subrange(
            start as int,
            i as int,
        ));
        acc = acc.wrapping_add(ns[i]);
        i = i + 1;
    }
    assert(vs@.subrange(start as int, i as int) =~= vs@.skip(start as int));
    acc
}

/// Wrapping product of the integers `ns[start..]`, which stand for `vs[start..]`.
fn product_from(ns: &Vec<i64>, start: usize, vs: Ghost<Seq<Val>>) -> (r: i64)
    requires
        start <= ns.len() == vs@.len(),
        forall|i: int| 0 <= i < ns.len() ==> ns@[i] == (#[trigger] vs@[i])->Int_0,
    ensures
        r == product_of(vs@.skip(start as int)),
{
    let mut acc: i64 = 1;
    let mut i: usize = start;
    assert(vs@.subrange(start as int, start as int) =~= seq![]);
    while i < ns.len()
        invariant
            start <= i <= ns.len() == vs@.len(),
            forall|j: int| 0 <= j < ns.len() ==> ns@[j] == (#[trigger] vs@[j])->Int_0,
            acc == product_of(vs@.subrange(start as int, i as int)),
        decreases ns.len() - i,
    {
        assert(vs@.subrange(start as int, i + 1).drop_last() =~= vs@.subrange(
            start as int,
            i as int,
        ));
        acc = acc.wrapping_mul(ns[i]);
        i = i + 1;
    }
    assert(vs@.subrange(start as int, i as int) =~= vs@.skip(start as int));
    acc
}

// ============== ARITHMETIC BUILT-INS ===============

/// `+`: the sum of the arguments.
pub fn add(args: Vec<LispOutput>) -> (r: Result<LispOutput, LispError>)
    ensures
        result_view(r) == builtin_result(BuiltIn::Add, outputs_view(args@)),
{
    let ghost vs = outputs_view(args@);
    match unwrap_lisp_outputs(&args) {
        Some(ns) => {
            let s = sum_from(&ns, 0, Ghost(vs));
            assert(vs.skip(0) =~= vs);
            Ok(LispOutput::Integer(s))
        },
        None => Err(LispError::TypeMismatch),
    }
}

/// `-`: the negation of a single argument, else the first minus the sum of the rest.
pub fn sub(args: Vec<LispOutput>) -> (r: Result<LispOutput, LispError>)
    ensures
        result_view(r) == builtin_result(BuiltIn::Sub, outputs_view(args@)),
{
    let ghost vs = outputs_view(args@);
    if args.len() == 0 {
        return Err(LispError::ArityMismatch);
    }
    match unwrap_lisp_outputs(&args) {
        Some(ns) => {
            if ns.len() == 1 {
                Ok(LispOutput::Integer(0i64.wrapping_sub(ns[0])))
            } else {
                let rest = sum_from(&ns, 1, Ghost(vs));
                Ok(LispOutput::Integer(ns[0].wrapping_sub(rest)))
            }
        },
        None => Err(LispError::TypeMismatch),
    }
}

/// `*`: the product of the arguments.
pub fn mul(args: Vec<LispOutput>) -> (r: Result<LispOutput, LispError>)
    ensures
        result_view(r) == builtin_result(BuiltIn::Mul, outputs_view(args@)),
{
    let ghost vs = outputs_view(args@);
    match unwrap_lisp_outputs(&args) {
        Some(ns) => {
            let p = product_from(&ns, 0, Ghost(vs));
            assert(vs.skip(0) =~= vs);
            Ok(LispOutput::Integer(p))
        },
        None => Err(LispError::TypeMismatch),
    }
}

/// `/`: the first argument divided by the product of the rest, truncated toward zero.
pub fn div(args: Vec<LispOutput>) -> (r: Result<LispOutput, LispError>)
    ensures
        result_view(r) == builtin_result(BuiltIn::Div, outputs_view(args@)),
{
    let ghost vs = outputs_view(args@);
    if args.len() < 2 {
        return Err(LispError::ArityMismatch);
    }
    match unwrap_lisp_outputs(&args) {
        Some(ns) => {
            let d = product_from(&ns, 1, Ghost(vs));
            if d == 0 {
                return Err(LispError::DivisionByZero);
            }
            let q = match ns[0].checked_div(d) {
                Some(q) => q,
                // only `i64::MIN / -1` overflows; it wraps around to `i64::MIN`
                None => ns[0],
            };
            Ok(LispOutput::Integer(q))
        },
        None => Err(LispError::TypeMismatch),
    }
}

// ============== LOGIC BUILT-INS ===============

fn compare(b: BuiltIn, x: i64, y: i64) -> (r: bool)
    requires
        is_comparison(b),
    ensures
        r == relation_holds(b, x, y),
{
    match b {
        BuiltIn::Equal => x == y,
        BuiltIn::Less => x < y,
        BuiltIn::LessEqual => x <= y,
        BuiltIn::Greater => x > y,
        _ => x >= y,
    }
}

/// Whether comparison `b` holds between every pair of neighbouring arguments.
#[verifier::loop_isolation(false)]
fn comparator(b: BuiltIn, args: Vec<LispOutput>) -> (r: Result<LispOutput, LispError>)
    requires
        is_comparison(b),
    ensures
        result_view(r) == builtin_result(b, outputs_view(args@)),
{
    let ghost vs = outputs_view(args@);
    if args.len() < 2 {
        return Err(LispError::ArityMismatch);
    }
    match unwrap_lisp_outputs(&args) {
        Some(numbers) => {
            let mut i: usize = 0;
            while i + 1 < numbers.len()
                invariant
                    numbers.len() == vs.len() >= 2,
                    i + 1 <= numbers.len(),
                    is_comparison(b),
                    forall|j: int| 0 <= j < numbers.len() ==> numbers@[j] == (#[trigger] vs[j])->Int_0,
                    forall|j: int| 0 <= j < i ==> #[trigger] pair_holds(b, vs, j),
                decreases numbers.len() - i,
            {
                if !compare(b, numbers[i], numbers[i + 1]) {
                    assert(!chain_holds(b, vs)) by {
                        assert(vs[i as int]->Int_0 == numbers@[i as int]);
                        assert(vs[i + 1]->Int_0 == numbers@[i + 1]);
                        assert(!pair_holds(b, vs, i as int));
                    }
                    return Ok(LispOutput::Bool(false));
                }
                assert(pair_holds(b, vs, i as int)) by {
                    assert(vs[i as int]->Int_0 == numbers@[i as int]);
                    assert(vs[i + 1]->Int_0 == numbers@[i + 1]);
                }
                i = i + 1;
            }
            Ok(LispOutput::Bool(true))
        },
        None => Err(LispError::TypeMismatch),
    }
}

/// `equal?`
pub fn equal_compare(args: Vec<LispOutput>) -> (r: Result<LispOutput, LispError>)
    ensures
        result_view(r) == builtin_result(BuiltIn::Equal, outputs_view(args@)),
{
    comparator(BuiltIn::Equal, args)
}

/// `<`
pub fn less_than_compare(args: Vec<LispOutput>) -> (r: Result<LispOutput, LispError>)
    ensures
        result_view(r) == builtin_result(BuiltIn::Less, outputs_view(args@)),
{
    comparator(BuiltIn::Less, args)
}

/// `<=`
pub fn less_than_or_equal_compare(args: Vec<LispOutput>) -> (r: Result<LispOutput, LispError>)
    ensures
        result_view(r) == builtin_result(BuiltIn::LessEqual, outputs_view(args@)),
{
    comparator(BuiltIn::LessEqual, args)
}

/// `>`
pub fn greater_than_compare(args: Vec<LispOutput>) -> (r: Result<LispOutput, LispError>)
    ensures
        result_view(r) == builtin_result(BuiltIn::Greater, outputs_view(args@)),
{
    comparator(BuiltIn::Greater, args)
}

/// `>=`
pub fn greater_than_or_equal_compare(args: Vec<LispOutput>) -> (r: Result<LispOutput, LispError>)
    ensures
        result_view(r) == builtin_result(BuiltIn::GreaterEqual, outputs_view(args@)),
{
    comparator(BuiltIn::GreaterEqual, args)
}

// ============== LIST BUILT-INS ===============

/// `list`: the arguments as a list.
pub fn make_list(args: Vec<LispOutput>) -> (r: Result<LispOutput, LispError>)
    ensures
        result_view(r) == builtin_result(BuiltIn::MakeList, outputs_view(args@)),
{
    Ok(LispOutput::List(Box::new(LispList::build(args))))
}

/// `car`: the first element of a list.
pub fn car_func(args: Vec<LispOutput>) -> (r: Result<LispOutput, LispError>)
    ensures
        result_view(r) == builtin_result(BuiltIn::Car, outputs_view(args@)),
{
    check_output_arguments(&args, 1)?;
    assert(outputs_view(args@)[0] == args@[0]@);
    match &args[0] {
        LispOutput::List(cons_cell) => cons_cell.get_car(),
        _ => Err(LispError::TypeMismatch),
    }
}

/// `cdr`: a list without its first element.
pub fn cdr_func(args: Vec<LispOutput>) -> (r: Result<LispOutput, LispError>)
    ensures
        result_view(r) == builtin_result(BuiltIn::Cdr, outputs_view(args@)),
{
    check_output_arguments(&args, 1)?;
    assert(outputs_view(args@)[0] == args@[0]@);
    match &args[0] {
        LispOutput::List(cons_cell) => cons_cell.get_cdr(),
        _ => Err(LispError::TypeMismatch),
    }
}

/// `list?`: whether the argument is a list.
pub fn is_list_func(args: Vec<LispOutput>) -> (r: Result<LispOutput, LispError>)
    ensures
        result_view(r) == builtin_result(BuiltIn::IsList, outputs_view(args@)),
{
    check_output_arguments(&args, 1)?;
    assert(outputs_view(args@)[0] == args@[0]@);
    match &args[0] {
        LispOutput::List(_) => Ok(LispOutput::Bool(true)),
        _ => Ok(LispOutput::Bool(false)),
    }
}

/// `length`: the number of elements of a list.
pub fn list_length_func(args: Vec<LispOutput>) -> (r: Result<LispOutput, LispError>)
    ensures
        result_view(r) == builtin_result(BuiltIn::Length, outputs_view(args@)),
{
    check_output_arguments(&args, 1)?;
    assert(outputs_view(args@)[0] == args@[0]@);
    match &args[0] {
        LispOutput::List(cons_cell) => Ok(cons_cell.length()),
        _ => Err(LispError::TypeMismatch),
    }
}

/// `list-ref`: the element of a list at an index.
pub fn list_ref_func(args: Vec<LispOutput>) -> (r: Result<LispOutput, LispError>)
    ensures
        result_view(r) == builtin_result(BuiltIn::ListRef, outputs_view(args@)),
{
    check_output_arguments(&args, 2)?;
    assert(outputs_view(args@)[0] == args@[0]@);
    assert(outputs_view(args@)[1] == args@[1]@);
    match (&args[0], &args[1]) {
        (LispOutput::List(cons_cell), LispOutput::Integer(index)) => cons_cell.get(*index),
        _ => Err(LispError::TypeMismatch),
    }
}

/// `append`: the elements of all argument lists, one after the other.
#[verifier::loop_isolation(false)]
pub fn append_func(args: Vec<LispOutput>) -> (r: Result<LispOutput, LispError>)
    ensures
        result_view(r) == builtin_result(BuiltIn::Append, outputs_view(args@)),
{
    let ghost vs = outputs_view(args@);
    let mut args = args;
    let mut lists: Vec<LispList> = Vec::new();
    let mut i: usize = 0;
    while i < args.len()
        invariant
            i <= args.len() == vs.len(),
            forall|j: int| i <= j < args.len() ==> (#[trigger] args@[j])@ == vs[j],
            lists.len() == i,
            forall|j: int| 0 <= j < i ==> (#[trigger] vs[j]) is List,
            lists_view(lists@) == vs.take(i as int),
        decreases args.len() - i,
    {
        let mut item = LispOutput::Void;
        std::mem::swap(&mut args[i], &mut item);
        match item {
            LispOutput::List(list) => {
                let ghost before = lists@;
                lists.push(*list);
                assert(lists_view(lists@) =~= vs.take(i + 1));
            },
            _ => {
                assert(!(vs[i as int] is List));
                assert(!all_lists(vs));
                return Err(LispError::TypeMismatch);
            },
        }
        i = i + 1;
    }
    assert(vs.take(i as int) =~= vs);
    Ok(LispOutput::List(Box::new(LispList::append(lists))))
}

/// The elements of `list`, in order.
fn elements_of(list: LispList) -> (r: Vec<LispOutput>)
    ensures
        outputs_view(r@) == list@,
{
    let mut items: Vec<LispOutput> = Vec::new();
    assert(outputs_view(items@) =~= seq![]);
    drain_into(list, &mut items);
    assert(outputs_view(items@) =~= list@);
    items
}

/// `map`: calls `g` on each element in order, collecting the results.
#[verifier::loop_isolation(false)]
pub fn map_func(list: LispList, g: &LispFunction, env: &mut Environment, fuel: u64) -> (r: Result<
    LispOutput,
    LispError,
>)
    requires
        old(env).wf(),
    ensures
        evolves(*old(env), *final(env)),
        (final(env)@.frames, result_view(r)) == map_each(
            list@,
            function_view(*g),
            old(env)@.frames,
            fuel as nat,
            seq![],
        ),
    decreases fuel, 3int,
{
    let ghost xs = list@;
    let ghost goal = map_each(xs, function_view(*g), env@.frames, fuel as nat, seq![]);
    let mut items = elements_of(list);
    let mut out: Vec<LispOutput> = Vec::new();
    let mut i: usize = 0;
    assert(xs.skip(0) =~= xs);
    assert(outputs_view(out@) =~= seq![]);
    while i < items.len()
        invariant
            i <= items.len() == xs.len(),
            forall|j: int| i <= j < items.len() ==> (#[trigger] items@[j])@ == xs[j],
            evolves(*old(env), *env),
            map_each(xs.skip(i as int), function_view(*g), env@.frames, fuel as nat, outputs_view(out@))
                == goal,
        decreases items.len() - i,
    {
        let mut x = LispOutput::Void;
        std::mem::swap(&mut items[i], &mut x);
        let mut one: Vec<LispOutput> = Vec::new();
        one.push(x);
        assert(outputs_view(one@) =~= seq![xs.skip(i as int)[0]]);
        assert(xs.skip(i as int).skip(1) =~= xs.skip(i + 1));
        match apply_function(g, one, env, fuel) {
            Ok(v) => {
                proof {
                    lemma_outputs_view_push(out@, v);
                }
                out.push(v);
            },
            Err(err) => {
                return Err(err);
            },
        }
        i = i + 1;
    }
    assert(xs.skip(i as int) =~= seq![]);
    Ok(LispOutput::List(Box::new(LispList::build(out))))
}

/// `filter`: the elements on which predicate `g` gives true, in order; any result other
/// than a boolean fails.
#[verifier::loop_isolation(false)]
pub fn filter_func(list: LispList, g: &LispFunction, env: &mut Environment, fuel: u64) -> (r: Result<
    LispOutput,
    LispError,
>)
    requires
        old(env).wf(),
    ensures
        evolves(*old(env), *final(env)),
        (final(env)@.frames, result_view(r)) == filter_each(
            list@,
            function_view(*g),
            old(env)@.frames,
            fuel as nat,
            seq![],
        ),
    decreases fuel, 3int,
{
    let ghost xs = list@;
    let ghost goal = filter_each(xs, function_view(*g), env@.frames, fuel as nat, seq![]);
    let mut items = elements_of(list);
    let mut out: Vec<LispOutput> = Vec::new();
    let mut i: usize = 0;
    assert(xs.skip(0) =~= xs);
    assert(outputs_view(out@) =~= seq![]);
    while i < items.len()
        invariant
            i <= items.len() == xs.len(),
            forall|j: int| i <= j < items.len() ==> (#[trigger] items@[j])@ == xs[j],
            evolves(*old(env), *env),
            filter_each(xs.skip(i as int), function_view(*g), env@.frames, fuel as nat, outputs_view(out@))
                == goal,
        decreases items.len() - i,
    {
        let mut x = LispOutput::Void;
        std::mem::swap(&mut items[i], &mut x);
        let mut one: Vec<LispOutput> = Vec::new();
        one.push(copy_output(&x));
        assert(outputs_view(one@) =~= seq![xs.skip(i as int)[0]]);
        assert(xs.skip(i as int).skip(1) =~= xs.skip(i + 1));
        match apply_function(g, one, env, fuel) {
            Ok(LispOutput::Bool(keep)) => {
                if keep {
                    proof {
                        lemma_outputs_view_push(out@, x);
                    }
                    out.push(x);
                }
            },
            Ok(_) => {
                return Err(LispError::TypeMismatch);
            },
            Err(err) => {
                return Err(err);
            },
        }
        i = i + 1;
    }
    assert(xs.skip(i as int) =~= seq![]);
    Ok(LispOutput::List(Box::new(LispList::build(out))))
}

/// `reduce`: folds `g` over the elements from the left, starting from `init`.
#[verifier::loop_isolation(false)]
pub fn reduce_func(
    list: LispList,
    g: &LispFunction,
    init: LispOutput,
    env: &mut Environment,
    fuel: u64,
) -> (r: Result<LispOutput, LispError>)
    requires
        old(env).wf(),
    ensures
        evolves(*old(env), *final(env)),
        (final(env)@.frames, result_view(r)) == reduce_each(
            list@,
            function_view(*g),
            init@,
            old(env)@.frames,
            fuel as nat,
        ),
    decreases fuel, 3int,
{
    let ghost xs = list@;
    let ghost goal = reduce_each(xs, function_view(*g), init@, env@.frames, fuel as nat);
    let mut items = elements_of(list);
    let mut acc = init;
    let mut i: usize = 0;
    assert(xs.skip(0) =~= xs);
    while i < items.len()
        invariant
            i <= items.len() == xs.len(),
            forall|j: int| i <= j < items.len() ==> (#[trigger] items@[j])@ == xs[j],
            evolves(*old(env), *env),
            reduce_each(xs.skip(i as int), function_view(*g), acc@, env@.frames, fuel as nat) == goal,
        decreases items.len() - i,
    {
        let mut x = LispOutput::Void;
        std::mem::swap(&mut items[i], &mut x);
        let ghost acc_view = acc@;
        let mut pair: Vec<LispOutput> = Vec::new();
        pair.push(acc);
        pair.push(x);
        assert(outputs_view(pair@) =~= seq![acc_view, xs.skip(i as int)[0]]);
        assert(xs.skip(i as int).skip(1) =~= xs.skip(i + 1));
        match apply_function(g, pair, env, fuel) {
            Ok(v) => {
                acc = v;
            },
            Err(err) => {
                return Err(err);
            },
        }
        i = i + 1;
    }
    assert(xs.skip(i as int) =~= seq![]);
    Ok(acc)
}

/// The result of a built-in that calls no function.
pub fn call_simple_builtin(b: BuiltIn, args: Vec<LispOutput>) -> (r: Result<LispOutput, LispError>)
    requires
        !is_higher_order(b),
    ensures
        result_view(r) == builtin_result(b, outputs_view(args@)),
{
    match b {
        BuiltIn::Add => self::add(args),
        BuiltIn::Sub => self::sub(args),
        BuiltIn::Mul => self::mul(args),
        BuiltIn::Div => div(args),
        BuiltIn::Equal => equal_compare(args),
        BuiltIn::Less => less_than_compare(args),
        BuiltIn::LessEqual => less_than_or_equal_compare(args),
        BuiltIn::Greater => greater_than_compare(args),
        BuiltIn::GreaterEqual => greater_than_or_equal_compare(args),
        BuiltIn::MakeList => make_list(args),
        BuiltIn::Car => car_func(args),
        BuiltIn::Cdr => cdr_func(args),
        BuiltIn::IsList => is_list_func(args),
        BuiltIn::Length => list_length_func(args),
        BuiltIn::ListRef => list_ref_func(args),
        _ => append_func(args),
    }
}

/// The bindings of the built-ins frame, in order.
pub open spec fn builtin_bindings() -> Seq<(Seq<char>, Val)> {
    seq![
        ("+"@, Val::Builtin(BuiltIn::Add)),
        ("-"@, Val::Builtin(BuiltIn::Sub)),
        ("*"@, Val::Builtin(BuiltIn::Mul)),
        ("/"@, Val::Builtin(BuiltIn::Div)),
        ("equal?"@, Val::Builtin(BuiltIn::Equal)),
        ("<"@, Val::Builtin(BuiltIn::Less)),
        ("<="@, Val::Builtin(BuiltIn::LessEqual)),
        (">"@, Val::Builtin(BuiltIn::Greater)),
        (">="@, Val::Builtin(BuiltIn::GreaterEqual)),
        ("#t"@, Val::Bool(true)),
        ("#f"@, Val::Bool(false)),
        ("nil"@, Val::List(seq![])),
        ("list"@, Val::Builtin(BuiltIn::MakeList)),
        ("car"@, Val::Builtin(BuiltIn::Car)),
        ("cdr"@, Val::Builtin(BuiltIn::Cdr)),
        ("list?"@, Val::Builtin(BuiltIn::IsList)),
        ("length"@, Val::Builtin(BuiltIn::Length)),
        ("list-ref"@, Val::Builtin(BuiltIn::ListRef)),
        ("append"@, Val::Builtin(BuiltIn::Append)),
        ("map"@, Val::Builtin(BuiltIn::MapList)),
        ("filter"@, Val::Builtin(BuiltIn::FilterList)),
        ("reduce"@, Val::Builtin(BuiltIn::ReduceList)),
    ]
}

/// A built-in as a function value.
fn convert_to_built_in(func: BuiltIn) -> (r: LispOutput)
    ensures
        r@ == Val::Builtin(func),
{
    LispOutput::Lambda(LispFunction::BuiltInFunction(BuiltInFunction::new(func)))
}

/// The names the interpreter binds in its root frame, with their values.
pub fn built_in_function_bindings() -> (r: Vec<(String, LispOutput)>)
    ensures
        bindings_view(r@) == builtin_bindings(),
{
    let mut r: Vec<(String, LispOutput)> = Vec::new();
    r.push(("+".to_string(), convert_to_built_in(BuiltIn::Add)));
    r.push(("-".to_string(), convert_to_built_in(BuiltIn::Sub)));
    r.push(("*".to_string(), convert_to_built_in(BuiltIn::Mul)));
    r.push(("/".to_string(), convert_to_built_in(BuiltIn::Div)));
    r.push(("equal?".to_string(), convert_to_built_in(BuiltIn::Equal)));
    r.push(("<".to_string(), convert_to_built_in(BuiltIn::Less)));
    r.push(("<=".to_string(), convert_to_built_in(BuiltIn::LessEqual)));
    r.push((">".to_string(), convert_to_built_in(BuiltIn::Greater)));
    r.push((">=".to_string(), convert_to_built_in(BuiltIn::GreaterEqual)));
    r.push(("#t".to_string(), LispOutput::Bool(true)));
    r.push(("#f".to_string(), LispOutput::Bool(false)));
    r.push(("nil".to_string(), LispOutput::List(Box::new(LispList::Nil))));
    r.push(("list".to_string(), convert_to_built_in(BuiltIn::MakeList)));
    r.push(("car".to_string(), convert_to_built_in(BuiltIn::Car)));
    r.push(("cdr".to_string(), convert_to_built_in(BuiltIn::Cdr)));
    r.push(("list?".to_string(), convert_to_built_in(BuiltIn::IsList)));
    r.push(("length".to_string(), convert_to_built_in(BuiltIn::Length)));
    r.push(("list-ref".to_string(), convert_to_built_in(BuiltIn::ListRef)));
    r.push(("append".to_string(), convert_to_built_in(BuiltIn::Append)));
    r.push(("map".to_string(), convert_to_built_in(BuiltIn::MapList)));
    r.push(("filter".to_string(), convert_to_built_in(BuiltIn::FilterList)));
    r.push(("reduce".to_string(), convert_to_built_in(BuiltIn::ReduceList)));
    assert(bindings_view(r@) =~= builtin_bindings());
    r
}

} // verus!
