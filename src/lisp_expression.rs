use vstd::prelude::*;

verus! {

broadcast use vstd::std_specs::vec::axiom_vec_index_decreases;

/// Program text as a tree: integers, symbols and parenthesised lists.
#[derive(Debug, PartialEq)]
pub enum LispExpression {
    Integer(i64),
    Symbol(String),
    List(Vec<LispExpression>),
}

/// Mathematical model of an expression.
pub enum Expr {
    Int(i64),
    Sym(Seq<char>),
    List(Seq<Expr>),
}

/// The model of an expression, read through its lists.
pub open spec fn expr_view(e: LispExpression) -> Expr
    decreases e,
{
    match e {
        LispExpression::Integer(n) => Expr::Int(n),
        LispExpression::Symbol(s) => Expr::Sym(s@),
        LispExpression::List(v) => Expr::List(
            Seq::new(
                v.len() as nat,
                |i: int|
                    if 0 <= i < v.len() {
                        expr_view(v[i])
                    } else {
                        Expr::Int(0)
                    },
            ),
        ),
    }
}

/// The models of the elements of a list expression.
pub open spec fn items_view(v: Vec<LispExpression>) -> Seq<Expr> {
    Seq::new(
        v.len() as nat,
        |i: int|
            if 0 <= i < v.len() {
                expr_view(v[i])
            } else {
                Expr::Int(0)
            },
    )
}

pub proof fn lemma_list_view(e: LispExpression)
    requires
        e is List,
    ensures
        e@ == Expr::List(items_view(e->List_0)),
{
    assert(e@->List_0 =~= items_view(e->List_0));
}

impl View for LispExpression {
    type V = Expr;

    open spec fn view(&self) -> Expr {
        expr_view(*self)
    }
}

/// Deep copy of an expression.
pub fn copy_expression(e: &LispExpression) -> (r: LispExpression)
    ensures
        r@ == e@,
    decreases e,
{
    match e {
        LispExpression::Integer(n) => LispExpression::Integer(*n),
        LispExpression::Symbol(s) => LispExpression::Symbol(s.clone()),
        LispExpression::List(v) => {
            let mut out: Vec<LispExpression> = Vec::new();
            let mut i: usize = 0;
            while i < v.len()
                invariant
                    *e == LispExpression::List(*v),
                    i <= v.len(),
                    out.len() == i,
                    forall|j: int| 0 <= j < i ==> (#[trigger] out[j])@ == v[j]@,
                decreases v.len() - i,
            {
                proof {
                    assert(decreases_to!(*v => v[i as int]));
                    assert(decreases_to!(*e => (*e)->List_0));
                }
                let c = copy_expression(&v[i]);
                out.push(c);
                i = i + 1;
            }
            let r = LispExpression::List(out);
            assert(r@ == e@) by {
                let a = r@->List_0;
                let b = e@->List_0;
                assert(a.len() == b.len());
                assert(forall|j: int| 0 <= j < a.len() ==> a[j] == b[j]);
                assert(a =~= b);
            }
            r
        },
    }
}

} // verus!
