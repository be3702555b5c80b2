use vstd::prelude::*;

use crate::lisp_error::LispError;
use crate::lisp_expression::Expr;
use crate::value::{BuiltIn, Val};

verus! {

/// Model of a frame: its bindings, in order of first definition, and its parent's index.
pub struct FrameView {
    pub bindings: Seq<(Seq<char>, Val)>,
    pub parent: Option<nat>,
}

/// The frames of an environment, indexed from zero; a frame's parent comes before it.
pub type Store = Seq<FrameView>;

/// What an evaluation leaves behind: the frames after it, and its value or failure.
pub type Outcome = (Store, Result<Val, LispError>);

// ---------------------------------------------------------------- frames

/// Index of the binding of `name` in `bs`, or -1.
pub open spec fn binding_index(bs: Seq<(Seq<char>, Val)>, name: Seq<char>) -> int
    decreases bs.len(),
{
    if bs.len() == 0 {
        -1
    } else if bs.last().0 == name {
        bs.len() - 1
    } else {
        binding_index(bs.drop_last(), name)
    }
}

/// `bs` with `name` bound to `v`: the binding is overwritten where there is one, else added.
pub open spec fn put_binding(bs: Seq<(Seq<char>, Val)>, name: Seq<char>, v: Val) -> Seq<
    (Seq<char>, Val),
> {
    let i = binding_index(bs, name);
    if i >= 0 {
        bs.update(i, (name, v))
    } else {
        bs.push((name, v))
    }
}

/// The bindings of a fresh frame that binds `names` to `vals` pairwise; a later repeat of a
/// name wins.
pub open spec fn bind_all(names: Seq<Seq<char>>, vals: Seq<Val>) -> Seq<(Seq<char>, Val)>
    decreases names.len(),
{
    if names.len() == 0 || vals.len() == 0 {
        seq![]
    } else {
        put_binding(bind_all(names.drop_last(), vals.drop_last()), names.last(), vals.last())
    }
}

/// Each frame's parent comes before it, so that walking up the chain ends.
pub open spec fn store_wf(st: Store) -> bool {
    forall|i: int|
        0 <= i < st.len() ==> match (#[trigger] st[i]).parent {
            Some(p) => p < i,
            None => true,
        }
}

/// The value of `name` seen from frame `f`: its binding in `f`, else in `f`'s parent, and so
/// on up the chain.
pub open spec fn lookup(st: Store, f: nat, name: Seq<char>) -> Option<Val>
    decreases f,
{
    if f >= st.len() {
        None
    } else {
        let i = binding_index(st[f as int].bindings, name);
        if i >= 0 {
            Some(st[f as int].bindings[i].1)
        } else {
            match st[f as int].parent {
                Some(p) => if p < f {
                    lookup(st, p, name)
                } else {
                    None
                },
                None => None,
            }
        }
    }
}

/// `define`: binds `name` in frame `f` itself.
pub open spec fn define(st: Store, f: nat, name: Seq<char>, v: Val) -> Store {
    let fr = st[f as int];
    st.update(f as int, FrameView { bindings: put_binding(fr.bindings, name, v), parent: fr.parent })
}

/// `set!`: overwrites the binding of `name` in the first frame of the chain from `f` that has
/// one; nothing when none has.
pub open spec fn assign(st: Store, f: nat, name: Seq<char>, v: Val) -> Option<Store>
    decreases f,
{
    if f >= st.len() {
        None
    } else {
        let fr = st[f as int];
        let i = binding_index(fr.bindings, name);
        if i >= 0 {
            Some(
                st.update(
                    f as int,
                    FrameView { bindings: fr.bindings.update(i, (name, v)), parent: fr.parent },
                ),
            )
        } else {
            match fr.parent {
                Some(p) => if p < f {
                    assign(st, p, name, v)
                } else {
                    None
                },
                None => None,
            }
        }
    }
}

/// `del`: takes the binding of `name` out of frame `f` itself, giving the value it had.
pub open spec fn remove(st: Store, f: nat, name: Seq<char>) -> Option<(Store, Val)> {
    let fr = st[f as int];
    let i = binding_index(fr.bindings, name);
    if f < st.len() && i >= 0 {
        Some(
            (
                st.update(f as int, FrameView { bindings: fr.bindings.remove(i), parent: fr.parent }),
                fr.bindings[i].1,
            ),
        )
    } else {
        None
    }
}

// ---------------------------------------------------------------- built-in functions

pub open spec fn is_function(v: Val) -> bool {
    v is Builtin || v is Closure
}

pub open spec fn all_ints(args: Seq<Val>) -> bool {
    forall|i: int| 0 <= i < args.len() ==> (#[trigger] args[i]) is Int
}

pub open spec fn all_lists(args: Seq<Val>) -> bool {
    forall|i: int| 0 <= i < args.len() ==> (#[trigger] args[i]) is List
}

/// Sum of integer arguments, wrapping around on overflow.
pub open spec fn sum_of(args: Seq<Val>) -> i64
    decreases args.len(),
{
    if args.len() == 0 {
        0
    } else {
        sum_of(args.drop_last()).wrapping_add(args.last()->Int_0)
    }
}

/// Product of integer arguments, wrapping around on overflow.
pub open spec fn product_of(args: Seq<Val>) -> i64
    decreases args.len(),
{
    if args.len() == 0 {
        1
    } else {
        product_of(args.drop_last()).wrapping_mul(args.last()->Int_0)
    }
}

/// `a / d` truncated toward zero, for `d != 0`; the one quotient out of range,
/// `i64::MIN / -1`, wraps around to `i64::MIN`, which is `a`.
pub open spec fn quotient(a: i64, d: i64) -> i64 {
    match a.checked_div(d) {
        Some(q) => q,
        None => a,
    }
}

/// The relation a comparison built-in tests between neighbouring arguments.
pub open spec fn relation_holds(b: BuiltIn, x: i64, y: i64) -> bool {
    match b {
        BuiltIn::Equal => x == y,
        BuiltIn::Less => x < y,
        BuiltIn::LessEqual => x <= y,
        BuiltIn::Greater => x > y,
        BuiltIn::GreaterEqual => x >= y,
        _ => false,
    }
}

pub open spec fn is_comparison(b: BuiltIn) -> bool {
    b is Equal || b is Less || b is LessEqual || b is Greater || b is GreaterEqual
}

/// Whether arguments `i` and `i + 1` are in the relation.
pub open spec fn pair_holds(b: BuiltIn, args: Seq<Val>, i: int) -> bool {
    relation_holds(b, args[i]->Int_0, args[i + 1]->Int_0)
}

/// Whether every pair of neighbouring arguments is in the relation.
pub open spec fn chain_holds(b: BuiltIn, args: Seq<Val>) -> bool {
    forall|i: int| 0 <= i < args.len() - 1 ==> #[trigger] pair_holds(b, args, i)
}

/// The elements of all argument lists, one list after the other.
pub open spec fn concat_lists(args: Seq<Val>) -> Seq<Val>
    decreases args.len(),
{
    if args.len() == 0 {
        seq![]
    } else {
        concat_lists(args.drop_last()) + args.last()->List_0
    }
}

/// A list's length as an integer value; no list in memory reaches `i64::MAX`.
pub open spec fn length_value(n: nat) -> i64 {
    if n <= i64::MAX {
        n as i64
    } else {
        i64::MAX
    }
}

pub open spec fn is_higher_order(b: BuiltIn) -> bool {
    b is MapList || b is FilterList || b is ReduceList
}

/// The result of a built-in that calls no function.
pub open spec fn builtin_result(b: BuiltIn, args: Seq<Val>) -> Result<Val, LispError> {
    match b {
        BuiltIn::Add => if all_ints(args) {
            Ok(Val::Int(sum_of(args)))
        } else {
            Err(LispError::TypeMismatch)
        },
        BuiltIn::Sub => if args.len() == 0 {
            Err(LispError::ArityMismatch)
        } else if !all_ints(args) {
            Err(LispError::TypeMismatch)
        } else if args.len() == 1 {
            Ok(Val::Int(0i64.wrapping_sub(args[0]->Int_0)))
        } else {
            Ok(Val::Int(args[0]->Int_0.wrapping_sub(sum_of(args.skip(1)))))
        },
        BuiltIn::Mul => if all_ints(args) {
            Ok(Val::Int(product_of(args)))
        } else {
            Err(LispError::TypeMismatch)
        },
        BuiltIn::Div => if args.len() < 2 {
            Err(LispError::ArityMismatch)
        } else if !all_ints(args) {
            Err(LispError::TypeMismatch)
        } else if product_of(args.skip(1)) == 0 {
            Err(LispError::DivisionByZero)
        } else {
            Ok(Val::Int(quotient(args[0]->Int_0, product_of(args.skip(1)))))
        },
        BuiltIn::Equal | BuiltIn::Less | BuiltIn::LessEqual | BuiltIn::Greater
        | BuiltIn::GreaterEqual => if args.len() < 2 {
            Err(LispError::ArityMismatch)
        } else if !all_ints(args) {
            Err(LispError::TypeMismatch)
        } else {
            Ok(Val::Bool(chain_holds(b, args)))
        },
        BuiltIn::MakeList => Ok(Val::List(args)),
        BuiltIn::Car => if args.len() != 1 {
            Err(LispError::ArityMismatch)
        } else {
            match args[0] {
                Val::List(xs) => if xs.len() == 0 {
                    Err(LispError::IndexOutOfBounds)
                } else {
                    Ok(xs[0])
                },
                _ => Err(LispError::TypeMismatch),
            }
        },
        BuiltIn::Cdr => if args.len() != 1 {
            Err(LispError::ArityMismatch)
        } else {
            match args[0] {
                Val::List(xs) => if xs.len() == 0 {
                    Err(LispError::IndexOutOfBounds)
                } else {
                    Ok(Val::List(xs.skip(1)))
                },
                _ => Err(LispError::TypeMismatch),
            }
        },
        BuiltIn::IsList => if args.len() != 1 {
            Err(LispError::ArityMismatch)
        } else {
            Ok(Val::Bool(args[0] is List))
        },
        BuiltIn::Length => if args.len() != 1 {
            Err(LispError::ArityMismatch)
        } else {
            match args[0] {
                Val::List(xs) => Ok(Val::Int(length_value(xs.len()))),
                _ => Err(LispError::TypeMismatch),
            }
        },
        BuiltIn::ListRef => if args.len() != 2 {
            Err(LispError::ArityMismatch)
        } else {
            match (args[0], args[1]) {
                (Val::List(xs), Val::Int(k)) => if 0 <= k < xs.len() {
                    Ok(xs[k as int])
                } else {
                    Err(LispError::IndexOutOfBounds)
                },
                _ => Err(LispError::TypeMismatch),
            }
        },
        BuiltIn::Append => if all_lists(args) {
            Ok(Val::List(concat_lists(args)))
        } else {
            Err(LispError::TypeMismatch)
        },
        BuiltIn::MapList | BuiltIn::FilterList | BuiltIn::ReduceList => Err(LispError::TypeMismatch),
    }
}

// ---------------------------------------------------------------- special forms

pub open spec fn is_special_form(s: Seq<char>) -> bool {
    ||| s == "define"@
    ||| s == "lambda"@
    ||| s == "if"@
    ||| s == "and"@
    ||| s == "or"@
    ||| s == "del"@
    ||| s == "let"@
    ||| s == "set!"@
    ||| s == "begin"@
}

/// A parameter list: a list of symbols, no name twice.
pub open spec fn valid_params(e: Expr) -> bool {
    &&& e is List
    &&& forall|i: int| 0 <= i < e->List_0.len() ==> (#[trigger] e->List_0[i]) is Sym
    &&& forall|i: int, j: int|
        0 <= i < j < e->List_0.len() ==> (#[trigger] e->List_0[i])->Sym_0 != (#[trigger] e->List_0[j])->Sym_0
}

pub open spec fn param_names(ps: Seq<Expr>) -> Seq<Seq<char>> {
    ps.map_values(|p: Expr| p->Sym_0)
}

/// A `let` binding list: a list of two-element lists, each starting with a symbol.
pub open spec fn valid_let_bindings(e: Expr) -> bool {
    &&& e is List
    &&& forall|i: int|
        0 <= i < e->List_0.len() ==> {
            let b = #[trigger] e->List_0[i];
            b is List && b->List_0.len() == 2 && b->List_0[0] is Sym
        }
}

pub open spec fn let_names(bs: Seq<Expr>) -> Seq<Seq<char>> {
    bs.map_values(|b: Expr| b->List_0[0]->Sym_0)
}

pub open spec fn let_exprs(bs: Seq<Expr>) -> Seq<Expr> {
    bs.map_values(|b: Expr| b->List_0[1])
}

// ---------------------------------------------------------------- evaluation

/// Evaluates `e` in frame `f` of `st`, nesting at most `fuel` deep.
pub open spec fn eval(e: Expr, st: Store, f: nat, fuel: nat) -> Outcome
    decreases fuel, 2int, 0int,
{
    if fuel == 0 {
        (st, Err(LispError::RecursionLimit))
    } else {
        let sub = (fuel - 1) as nat;
        match e {
            Expr::Int(n) => (st, Ok(Val::Int(n))),
            Expr::Sym(s) => match lookup(st, f, s) {
                Some(v) => (st, Ok(v)),
                None => (st, Err(LispError::UnboundSymbol)),
            },
            Expr::List(items) => if items.len() == 0 {
                (st, Err(LispError::EmptyApplication))
            } else if items[0] is Sym && is_special_form(items[0]->Sym_0) {
                eval_special_form(items, st, f, sub)
            } else {
                eval_application(items, st, f, sub)
            },
        }
    }
}

/// Evaluates `es` one after the other, collecting the values after `acc`; stops at the
/// first failure.
pub open spec fn eval_all(es: Seq<Expr>, st: Store, f: nat, fuel: nat, acc: Seq<Val>) -> (
    Store,
    Result<Seq<Val>, LispError>,
)
    decreases fuel, 3int, es.len(),
{
    if es.len() == 0 {
        (st, Ok(acc))
    } else {
        let (st1, r) = eval(es[0], st, f, fuel);
        match r {
            Ok(v) => eval_all(es.skip(1), st1, f, fuel, acc.push(v)),
            Err(err) => (st1, Err(err)),
        }
    }
}

/// `and` over the clauses `es`: false at the first clause that is false, else true.
pub open spec fn eval_and(es: Seq<Expr>, st: Store, f: nat, fuel: nat) -> Outcome
    decreases fuel, 3int, es.len(),
{
    if es.len() == 0 {
        (st, Ok(Val::Bool(true)))
    } else {
        let (st1, r) = eval(es[0], st, f, fuel);
        match r {
            Ok(v) => if v == Val::Bool(false) {
                (st1, Ok(v))
            } else {
                eval_and(es.skip(1), st1, f, fuel)
            },
            Err(err) => (st1, Err(err)),
        }
    }
}

/// `or` over the clauses `es`: true at the first clause that is true, else false.
pub open spec fn eval_or(es: Seq<Expr>, st: Store, f: nat, fuel: nat) -> Outcome
    decreases fuel, 3int, es.len(),
{
    if es.len() == 0 {
        (st, Ok(Val::Bool(false)))
    } else {
        let (st1, r) = eval(es[0], st, f, fuel);
        match r {
            Ok(v) => if v == Val::Bool(true) {
                (st1, Ok(v))
            } else {
                eval_or(es.skip(1), st1, f, fuel)
            },
            Err(err) => (st1, Err(err)),
        }
    }
}

/// A special form `items`, whose head names it; operands are evaluated with `sub`.
pub open spec fn eval_special_form(items: Seq<Expr>, st: Store, f: nat, sub: nat) -> Outcome
    decreases sub + 1, 1int, 0int,
{
    let name = items[0]->Sym_0;
    if name == "define"@ || name == "set!"@ {
        if items.len() != 3 || !(items[1] is Sym) {
            (st, Err(LispError::BadSpecialForm))
        } else {
            let (st1, r) = eval(items[2], st, f, sub);
            match r {
                Ok(v) => if name == "define"@ {
                    (define(st1, f, items[1]->Sym_0, v), Ok(v))
                } else {
                    match assign(st1, f, items[1]->Sym_0, v) {
                        Some(st2) => (st2, Ok(v)),
                        None => (st1, Err(LispError::UnboundSymbol)),
                    }
                },
                Err(err) => (st1, Err(err)),
            }
        }
    } else if name == "lambda"@ {
        if items.len() != 3 || !valid_params(items[1]) {
            (st, Err(LispError::BadSpecialForm))
        } else {
            (st, Ok(Val::Closure(param_names(items[1]->List_0), items[2], f)))
        }
    } else if name == "if"@ {
        if items.len() != 4 {
            (st, Err(LispError::BadSpecialForm))
        } else {
            let (st1, r) = eval(items[1], st, f, sub);
            match r {
                // only the boolean true is true
                Ok(c) => if c == Val::Bool(true) {
                    eval(items[2], st1, f, sub)
                } else {
                    eval(items[3], st1, f, sub)
                },
                Err(err) => (st1, Err(err)),
            }
        }
    } else if name == "and"@ {
        eval_and(items.skip(1), st, f, sub)
    } else if name == "or"@ {
        eval_or(items.skip(1), st, f, sub)
    } else if name == "del"@ {
        if items.len() != 2 || !(items[1] is Sym) {
            (st, Err(LispError::BadSpecialForm))
        } else {
            match remove(st, f, items[1]->Sym_0) {
                Some((st1, v)) => (st1, Ok(v)),
                None => (st, Err(LispError::UnboundSymbol)),
            }
        }
    } else if name == "let"@ {
        eval_let(items, st, f, sub)
    } else {
        // `begin`: the operands in order, giving the last value
        if items.len() < 2 {
            (st, Err(LispError::BadSpecialForm))
        } else {
            let (st1, r) = eval_all(items.skip(1), st, f, sub, seq![]);
            match r {
                Ok(vals) => (st1, Ok(vals.last())),
                Err(err) => (st1, Err(err)),
            }
        }
    }
}

/// `let`: evaluates the binding expressions in frame `f`, none seeing another, then the
/// body in a fresh frame, child of `f`, that binds the names to the values.
pub open spec fn eval_let(items: Seq<Expr>, st: Store, f: nat, sub: nat) -> Outcome
    decreases sub + 1, 0int, 0int,
{
    if items.len() != 3 || !valid_let_bindings(items[1]) {
        (st, Err(LispError::BadSpecialForm))
    } else {
        let bs = items[1]->List_0;
        let (st1, r) = eval_all(let_exprs(bs), st, f, sub, seq![]);
        match r {
            Ok(vals) => eval(
                items[2],
                st1.push(FrameView { bindings: bind_all(let_names(bs), vals), parent: Some(f) }),
                st1.len(),
                sub,
            ),
            Err(err) => (st1, Err(err)),
        }
    }
}

/// An application `(head arg ...)`: the head, then the arguments left to right, then the
/// call.
pub open spec fn eval_application(items: Seq<Expr>, st: Store, f: nat, sub: nat) -> Outcome
    decreases sub + 1, 1int, 0int,
{
    let (st1, r) = eval(items[0], st, f, sub);
    match r {
        Ok(fv) => if !is_function(fv) {
            (st1, Err(LispError::TypeMismatch))
        } else {
            let (st2, ra) = eval_all(items.skip(1), st1, f, sub, seq![]);
            match ra {
                Ok(args) => apply(fv, args, st2, sub),
                Err(err) => (st2, Err(err)),
            }
        },
        Err(err) => (st1, Err(err)),
    }
}

/// Calls function value `fv` on `args`. A closure's body runs in a fresh frame whose parent
/// is the frame the closure captured.
pub open spec fn apply(fv: Val, args: Seq<Val>, st: Store, fuel: nat) -> Outcome
    decreases fuel, 2int, 0int,
{
    if fuel == 0 {
        (st, Err(LispError::RecursionLimit))
    } else {
        let sub = (fuel - 1) as nat;
        match fv {
            Val::Builtin(b) => if b is MapList || b is FilterList {
                if args.len() != 2 {
                    (st, Err(LispError::ArityMismatch))
                } else if !(args[0] is List) || !is_function(args[1]) {
                    (st, Err(LispError::TypeMismatch))
                } else if b is MapList {
                    map_each(args[0]->List_0, args[1], st, sub, seq![])
                } else {
                    filter_each(args[0]->List_0, args[1], st, sub, seq![])
                }
            } else if b is ReduceList {
                if args.len() != 3 {
                    (st, Err(LispError::ArityMismatch))
                } else if !(args[0] is List) || !is_function(args[1]) {
                    (st, Err(LispError::TypeMismatch))
                } else {
                    reduce_each(args[0]->List_0, args[1], args[2], st, sub)
                }
            } else {
                (st, builtin_result(b, args))
            },
            Val::Closure(params, body, captured) => if args.len() != params.len() {
                (st, Err(LispError::ArityMismatch))
            } else if captured >= st.len() {
                (st, Err(LispError::InvalidFrame))
            } else {
                eval(
                    body,
                    st.push(FrameView { bindings: bind_all(params, args), parent: Some(captured) }),
                    st.len(),
                    sub,
                )
            },
            _ => (st, Err(LispError::TypeMismatch)),
        }
    }
}

/// `map`: `g` on each element in order; the results after `acc`.
pub open spec fn map_each(xs: Seq<Val>, g: Val, st: Store, fuel: nat, acc: Seq<Val>) -> Outcome
    decreases fuel, 3int, xs.len(),
{
    if xs.len() == 0 {
        (st, Ok(Val::List(acc)))
    } else {
        let (st1, r) = apply(g, seq![xs[0]], st, fuel);
        match r {
            Ok(v) => map_each(xs.skip(1), g, st1, fuel, acc.push(v)),
            Err(err) => (st1, Err(err)),
        }
    }
}

/// `filter`: the elements on which predicate `g` gives true, in order, after `acc`; a
/// result other than a boolean fails.
pub open spec fn filter_each(xs: Seq<Val>, g: Val, st: Store, fuel: nat, acc: Seq<Val>) -> Outcome
    decreases fuel, 3int, xs.len(),
{
    if xs.len() == 0 {
        (st, Ok(Val::List(acc)))
    } else {
        let (st1, r) = apply(g, seq![xs[0]], st, fuel);
        match r {
            Ok(Val::Bool(keep)) => filter_each(
                xs.skip(1),
                g,
                st1,
                fuel,
                if keep {
                    acc.push(xs[0])
                } else {
                    acc
                },
            ),
            Ok(_) => (st1, Err(LispError::TypeMismatch)),
            Err(err) => (st1, Err(err)),
        }
    }
}

/// `reduce`: folds `g` over the elements from the left, starting from `acc`.
pub open spec fn reduce_each(xs: Seq<Val>, g: Val, acc: Val, st: Store, fuel: nat) -> Outcome
    decreases fuel, 3int, xs.len(),
{
    if xs.len() == 0 {
        (st, Ok(acc))
    } else {
        let (st1, r) = apply(g, seq![acc, xs[0]], st, fuel);
        match r {
            Ok(v) => reduce_each(xs.skip(1), g, v, st1, fuel),
            Err(err) => (st1, Err(err)),
        }
    }
}

/// Evaluating a sequence successfully gives one value for each expression.
pub proof fn lemma_eval_all_len(es: Seq<Expr>, st: Store, f: nat, fuel: nat, acc: Seq<Val>)
    ensures
        eval_all(es, st, f, fuel, acc).1 matches Ok(vals) ==> vals.len() == acc.len() + es.len(),
    decreases es.len(),
{
    if es.len() > 0 {
        let (st1, r) = eval(es[0], st, f, fuel);
        if let Ok(v) = r {
            lemma_eval_all_len(es.skip(1), st1, f, fuel, acc.push(v));
        }
    }
}

} // verus!
