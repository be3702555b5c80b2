use vstd::prelude::*;

use crate::lisp_error::LispError;
use crate::lisp_expression::Expr;
use crate::parser::{expr_tokens, lemma_expr_tokens_unique};
use crate::semantics::{
    apply, bind_all, binding_index, builtin_result, concat_lists, eval, eval_and, eval_or,
    eval_special_form, filter_each, is_special_form, length_value, lookup, map_each, FrameView,
    Store,
};
use crate::value::{BuiltIn, Val};

verus! {

/// Evaluation is a function of the expression and the frames: where evaluating `e` leaves
/// the frames as they were, evaluating it again gives the same result.
pub proof fn law_evaluation_repeats(e: Expr, st: Store, f: nat, fuel: nat)
    requires
        eval(e, st, f, fuel).0 == st,
    ensures
        eval(e, eval(e, st, f, fuel).0, f, fuel) == eval(e, st, f, fuel),
{
}

proof fn lemma_concat_two(a: Seq<Val>, b: Seq<Val>)
    ensures
        concat_lists(seq![Val::List(a), Val::List(b)]) == a + b,
{
    let s = seq![Val::List(a), Val::List(b)];
    let s1 = s.drop_last();
    assert(s1 =~= seq![Val::List(a)]);
    assert(s1.drop_last() =~= Seq::<Val>::empty());
    assert(s1.last() == Val::List(a));
    assert(concat_lists(s1.drop_last()) == Seq::<Val>::empty());
    assert(concat_lists(s1) == concat_lists(s1.drop_last()) + a);
    assert(concat_lists(s1) =~= a);
    assert(s.last() == Val::List(b));
}

/// `append` of two lists holds the elements of both, in order, so its length is the sum of
/// theirs; the empty list is neutral on either side.
pub proof fn law_append(xs: Seq<Val>, ys: Seq<Val>)
    ensures
        builtin_result(BuiltIn::Append, seq![Val::List(xs), Val::List(ys)]) == Ok::<
            Val,
            LispError,
        >(Val::List(xs + ys)),
        (xs + ys).len() == xs.len() + ys.len(),
        builtin_result(BuiltIn::Append, seq![Val::List(seq![]), Val::List(xs)]) == Ok::<
            Val,
            LispError,
        >(Val::List(xs)),
        builtin_result(BuiltIn::Append, seq![Val::List(xs), Val::List(seq![])]) == Ok::<
            Val,
            LispError,
        >(Val::List(xs)),
{
    lemma_concat_two(xs, ys);
    lemma_concat_two(seq![], xs);
    lemma_concat_two(xs, seq![]);
    assert(xs + seq![] =~= xs);
    assert(seq![] + xs =~= xs);
}

/// `car` and `cdr` take a cons apart; the empty list has length zero, and a cons one more
/// than its tail (for lists shorter than `i64::MAX`).
pub proof fn law_cons_cells(v: Val, xs: Seq<Val>)
    ensures
        builtin_result(BuiltIn::Car, seq![Val::List(seq![v] + xs)]) == Ok::<Val, LispError>(v),
        builtin_result(BuiltIn::Cdr, seq![Val::List(seq![v] + xs)]) == Ok::<Val, LispError>(
            Val::List(xs),
        ),
        builtin_result(BuiltIn::Length, seq![Val::List(seq![])]) == Ok::<Val, LispError>(
            Val::Int(0),
        ),
        xs.len() < i64::MAX ==> builtin_result(BuiltIn::Length, seq![Val::List(seq![v] + xs)])
            == Ok::<Val, LispError>(Val::Int((length_value(xs.len()) + 1) as i64)),
{
    assert((seq![v] + xs).skip(1) =~= xs);
}

/// The frame a call of a one-parameter closure on `v` runs in.
pub open spec fn call_frame(x: Seq<char>, v: Val, c: nat) -> FrameView {
    FrameView { bindings: seq![(x, v)], parent: Some(c) }
}

proof fn lemma_bind_one(x: Seq<char>, v: Val)
    ensures
        bind_all(seq![x], seq![v]) == seq![(x, v)],
{
    assert(seq![x].drop_last() =~= Seq::<Seq<char>>::empty());
    assert(seq![v].drop_last() =~= Seq::<Val>::empty());
    assert(bind_all(seq![x].drop_last(), seq![v].drop_last()) == Seq::<(Seq<char>, Val)>::empty());
    assert(binding_index(Seq::<(Seq<char>, Val)>::empty(), x) == -1);
    assert(Seq::<(Seq<char>, Val)>::empty().push((x, v)) =~= seq![(x, v)]);
}

/// Adding a frame changes no lookup from a frame that was there before.
pub proof fn lemma_lookup_push(st: Store, fr: FrameView, f: nat, name: Seq<char>)
    requires
        f < st.len(),
    ensures
        lookup(st.push(fr), f, name) == lookup(st, f, name),
    decreases f,
{
    assert(st.push(fr)[f as int] == st[f as int]);
    let i = binding_index(st[f as int].bindings, name);
    if i < 0 {
        if let Some(p) = st[f as int].parent {
            if p < f {
                lemma_lookup_push(st, fr, p, name);
            }
        }
    }
}

/// Calling `(lambda (x) body)` on one value: the body runs in a frame that binds `x`.
proof fn lemma_apply_one(x: Seq<char>, body: Expr, c: nat, v: Val, st: Store, fuel: nat)
    requires
        c < st.len(),
        fuel >= 1,
    ensures
        apply(Val::Closure(seq![x], body, c), seq![v], st, fuel) == eval(
            body,
            st.push(call_frame(x, v, c)),
            st.len(),
            (fuel - 1) as nat,
        ),
{
    lemma_bind_one(x, v);
}

proof fn lemma_map_identity(xs: Seq<Val>, x: Seq<char>, c: nat, st: Store, fuel: nat, acc: Seq<Val>)
    requires
        c < st.len(),
        fuel >= 2,
    ensures
        map_each(xs, Val::Closure(seq![x], Expr::Sym(x), c), st, fuel, acc).1 == Ok::<
            Val,
            LispError,
        >(Val::List(acc + xs)),
    decreases xs.len(),
{
    let id = Val::Closure(seq![x], Expr::Sym(x), c);
    if xs.len() == 0 {
        assert(acc + xs =~= acc);
    } else {
        lemma_apply_one(x, Expr::Sym(x), c, xs[0], st, fuel);
        let st2 = st.push(call_frame(x, xs[0], c));
        assert(st2[st.len() as int] == call_frame(x, xs[0], c));
        assert(binding_index(seq![(x, xs[0])], x) == 0);
        assert(lookup(st2, st.len(), x) == Some(xs[0]));
        assert(apply(id, seq![xs[0]], st, fuel) == (st2, Ok::<Val, LispError>(xs[0])));
        lemma_map_identity(xs.skip(1), x, c, st2, fuel, acc.push(xs[0]));
        assert(acc.push(xs[0]) + xs.skip(1) =~= acc + xs);
    }
}

/// Mapping the identity function `(lambda (x) x)` over a list gives the list back.
pub proof fn law_map_identity(xs: Seq<Val>, x: Seq<char>, c: nat, st: Store, fuel: nat)
    requires
        c < st.len(),
        fuel >= 3,
    ensures
        apply(
            Val::Builtin(BuiltIn::MapList),
            seq![Val::List(xs), Val::Closure(seq![x], Expr::Sym(x), c)],
            st,
            fuel,
        ).1 == Ok::<Val, LispError>(Val::List(xs)),
{
    lemma_map_identity(xs, x, c, st, (fuel - 1) as nat, seq![]);
    assert(seq![] + xs =~= xs);
}

proof fn lemma_filter_constant(
    xs: Seq<Val>,
    x: Seq<char>,
    t: Seq<char>,
    c: nat,
    b: bool,
    st: Store,
    fuel: nat,
    acc: Seq<Val>,
)
    requires
        c < st.len(),
        t != x,
        lookup(st, c, t) == Some(Val::Bool(b)),
        fuel >= 2,
    ensures
        filter_each(xs, Val::Closure(seq![x], Expr::Sym(t), c), st, fuel, acc).1 == Ok::<
            Val,
            LispError,
        >(Val::List(if b { acc + xs } else { acc })),
    decreases xs.len(),
{
    let p = Val::Closure(seq![x], Expr::Sym(t), c);
    if xs.len() == 0 {
        assert(acc + xs =~= acc);
    } else {
        lemma_apply_one(x, Expr::Sym(t), c, xs[0], st, fuel);
        let st2 = st.push(call_frame(x, xs[0], c));
        assert(st2[st.len() as int] == call_frame(x, xs[0], c));
        assert(seq![(x, xs[0])].drop_last() =~= Seq::<(Seq<char>, Val)>::empty());
        assert(seq![(x, xs[0])].last().0 == x);
        assert(binding_index(Seq::<(Seq<char>, Val)>::empty(), t) == -1);
        assert(binding_index(seq![(x, xs[0])], t) == -1);
        lemma_lookup_push(st, call_frame(x, xs[0], c), c, t);
        assert(lookup(st2, st.len(), t) == Some(Val::Bool(b)));
        assert(apply(p, seq![xs[0]], st, fuel) == (st2, Ok::<Val, LispError>(Val::Bool(b))));
        let acc2 = if b {
            acc.push(xs[0])
        } else {
            acc
        };
        lemma_filter_constant(xs.skip(1), x, t, c, b, st2, fuel, acc2);
        assert(acc.push(xs[0]) + xs.skip(1) =~= acc + xs);
    }
}

/// Filtering with a predicate that is always true keeps the whole list; with one that is
/// always false, nothing. The predicate is `(lambda (x) t)` where `t`, another name than
/// `x`, is bound to a boolean in the frame the closure captured (as `#t` and `#f` are).
pub proof fn law_filter_constant(
    xs: Seq<Val>,
    x: Seq<char>,
    t: Seq<char>,
    c: nat,
    b: bool,
    st: Store,
    fuel: nat,
)
    requires
        c < st.len(),
        t != x,
        lookup(st, c, t) == Some(Val::Bool(b)),
        fuel >= 3,
    ensures
        apply(
            Val::Builtin(BuiltIn::FilterList),
            seq![Val::List(xs), Val::Closure(seq![x], Expr::Sym(t), c)],
            st,
            fuel,
        ).1 == Ok::<Val, LispError>(Val::List(if b { xs } else { seq![] })),
{
    lemma_filter_constant(xs, x, t, c, b, st, (fuel - 1) as nat, seq![]);
    assert(seq![] + xs =~= xs);
}

/// Two expressions spelled by the same tokens are the same expression, so parsing the
/// tokens of an expression gives that expression back.
pub proof fn law_parse_round_trip(e1: Expr, e2: Expr)
    requires
        expr_tokens(e1) == expr_tokens(e2),
    ensures
        e1 == e2,
{
    assert(expr_tokens(e1) + seq![] =~= expr_tokens(e2) + seq![]);
    lemma_expr_tokens_unique(e1, e2, seq![], seq![]);
}

proof fn lemma_keywords()
    ensures
        is_special_form("and"@),
        is_special_form("or"@),
        "and"@ != "define"@ && "and"@ != "set!"@ && "and"@ != "lambda"@ && "and"@ != "if"@,
        "or"@ != "define"@ && "or"@ != "set!"@ && "or"@ != "lambda"@ && "or"@ != "if"@
            && "or"@ != "and"@,
{
    reveal_strlit("and");
    reveal_strlit("or");
    reveal_strlit("define");
    reveal_strlit("set!");
    reveal_strlit("lambda");
    reveal_strlit("if");
    assert("and"@.len() != "define"@.len());
    assert("and"@[0] != "set!"@[0]);
    assert("and"@.len() != "lambda"@.len());
    assert("and"@.len() != "if"@.len());
    assert("or"@.len() != "define"@.len());
    assert("or"@[0] != "set!"@[0]);
    assert("or"@.len() != "lambda"@.len());
    assert("or"@[0] != "if"@[0]);
    assert("or"@.len() != "and"@.len());
}

/// `(and F E ...)` where `F` is false: the clauses after `F` are never evaluated, so the
/// frames are those that `F` left, whatever the later clauses would have done.
pub proof fn law_and_short_circuit(first: Expr, rest: Seq<Expr>, st: Store, st1: Store, f: nat, fuel: nat)
    requires
        fuel >= 1,
        eval(first, st, f, (fuel - 1) as nat) == (st1, Ok::<Val, LispError>(Val::Bool(false))),
    ensures
        eval(Expr::List(seq![Expr::Sym("and"@), first] + rest), st, f, fuel) == (
            st1,
            Ok::<Val, LispError>(Val::Bool(false)),
        ),
{
    lemma_keywords();
    let items = seq![Expr::Sym("and"@), first] + rest;
    assert(items[0] == Expr::Sym("and"@));
    assert(items.skip(1)[0] == first);
    assert(eval_special_form(items, st, f, (fuel - 1) as nat) == eval_and(items.skip(1), st, f, (fuel - 1) as nat));
}

/// `(or T E ...)` where `T` is true: the clauses after `T` are never evaluated.
pub proof fn law_or_short_circuit(first: Expr, rest: Seq<Expr>, st: Store, st1: Store, f: nat, fuel: nat)
    requires
        fuel >= 1,
        eval(first, st, f, (fuel - 1) as nat) == (st1, Ok::<Val, LispError>(Val::Bool(true))),
    ensures
        eval(Expr::List(seq![Expr::Sym("or"@), first] + rest), st, f, fuel) == (
            st1,
            Ok::<Val, LispError>(Val::Bool(true)),
        ),
{
    lemma_keywords();
    let items = seq![Expr::Sym("or"@), first] + rest;
    assert(items[0] == Expr::Sym("or"@));
    assert(items.skip(1)[0] == first);
    assert(eval_special_form(items, st, f, (fuel - 1) as nat) == eval_or(items.skip(1), st, f, (fuel - 1) as nat));
}

} // verus!
