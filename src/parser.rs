use vstd::prelude::*;

use crate::lisp_error::LispError;
use crate::lisp_expression::{Expr, LispExpression};
use crate::tokenizer::{LispToken, Tok, tokens_view};

verus! {

/// The tokens that spell an expression.
pub open spec fn expr_tokens(e: Expr) -> Seq<Tok>
    decreases e,
{
    match e {
        Expr::Int(n) => seq![Tok::Int(n)],
        Expr::Sym(s) => seq![Tok::Sym(s)],
        Expr::List(cs) => seq![Tok::LParen] + list_tokens(cs) + seq![Tok::RParen],
    }
}

/// The tokens that spell a sequence of expressions, one after the other.
pub open spec fn list_tokens(cs: Seq<Expr>) -> Seq<Tok>
    decreases cs,
{
    if cs.len() == 0 {
        seq![]
    } else {
        expr_tokens(cs[0]) + list_tokens(cs.skip(1))
    }
}

/// An expression is spelled by at least one token, and never starts with `)`.
pub proof fn lemma_expr_tokens_start(e: Expr)
    ensures
        expr_tokens(e).len() >= 1,
        expr_tokens(e)[0] != Tok::RParen,
        expr_tokens(e)[0] == Tok::LParen <==> e is List,
{
}

proof fn lemma_list_tokens_push(cs: Seq<Expr>, c: Expr)
    ensures
        list_tokens(cs.push(c)) == list_tokens(cs) + expr_tokens(c),
    decreases cs.len(),
{
    if cs.len() == 0 {
        assert(cs.push(c).skip(1) =~= seq![]);
        assert(list_tokens(cs.push(c)) =~= expr_tokens(c) + list_tokens(seq![]));
        assert(list_tokens(cs) + expr_tokens(c) =~= expr_tokens(c));
    } else {
        assert(cs.push(c).skip(1) =~= cs.skip(1).push(c));
        lemma_list_tokens_push(cs.skip(1), c);
        assert(list_tokens(cs.push(c)) =~= list_tokens(cs) + expr_tokens(c));
    }
}

/// No expression's tokens are a proper prefix of another's: the spelling determines the
/// expression and where it ends.
pub proof fn lemma_expr_tokens_unique(e1: Expr, e2: Expr, r1: Seq<Tok>, r2: Seq<Tok>)
    requires
        expr_tokens(e1) + r1 == expr_tokens(e2) + r2,
    ensures
        e1 == e2,
        r1 == r2,
    decreases e1,
{
    let t1 = expr_tokens(e1) + r1;
    let t2 = expr_tokens(e2) + r2;
    assert(t1[0] == expr_tokens(e1)[0]);
    assert(t2[0] == expr_tokens(e2)[0]);
    match e1 {
        Expr::Int(n) => {
            assert(r1 =~= t1.skip(1));
            assert(r2 =~= t2.skip(1));
        },
        Expr::Sym(s) => {
            assert(r1 =~= t1.skip(1));
            assert(r2 =~= t2.skip(1));
        },
        Expr::List(cs) => {
            let ds = e2->List_0;
            assert(t1.skip(1) =~= list_tokens(cs) + (seq![Tok::RParen] + r1));
            assert(t2.skip(1) =~= list_tokens(ds) + (seq![Tok::RParen] + r2));
            lemma_list_tokens_unique(cs, ds, r1, r2);
        },
    }
}

/// A closed list's spelling determines its elements and where it ends.
pub proof fn lemma_list_tokens_unique(cs: Seq<Expr>, ds: Seq<Expr>, r1: Seq<Tok>, r2: Seq<Tok>)
    requires
        list_tokens(cs) + (seq![Tok::RParen] + r1) == list_tokens(ds) + (seq![Tok::RParen] + r2),
    ensures
        cs == ds,
        r1 == r2,
    decreases cs,
{
    let t1 = list_tokens(cs) + (seq![Tok::RParen] + r1);
    let t2 = list_tokens(ds) + (seq![Tok::RParen] + r2);
    if cs.len() == 0 {
        if ds.len() > 0 {
            lemma_expr_tokens_start(ds[0]);
            assert(t2[0] == expr_tokens(ds[0])[0]);
        }
        assert(r1 =~= t1.skip(1));
        assert(r2 =~= t2.skip(1));
        assert(cs =~= ds);
    } else {
        lemma_expr_tokens_start(cs[0]);
        if ds.len() == 0 {
            assert(t1[0] == expr_tokens(cs[0])[0]);
            assert(false);
        } else {
            assert(t1 =~= expr_tokens(cs[0]) + (list_tokens(cs.skip(1)) + (seq![Tok::RParen]
                + r1)));
            assert(t2 =~= expr_tokens(ds[0]) + (list_tokens(ds.skip(1)) + (seq![Tok::RParen]
                + r2)));
            lemma_expr_tokens_unique(
                cs[0],
                ds[0],
                list_tokens(cs.skip(1)) + (seq![Tok::RParen] + r1),
                list_tokens(ds.skip(1)) + (seq![Tok::RParen] + r2),
            );
            lemma_list_tokens_unique(cs.skip(1), ds.skip(1), r1, r2);
            assert(cs =~= seq![cs[0]] + cs.skip(1));
            assert(ds =~= seq![ds[0]] + ds.skip(1));
        }
    }
}

/// Where the elements read so far spell the start of a closed list, the rest of that list
/// follows them.
proof fn lemma_list_tokens_prefix(cs: Seq<Expr>, ds: Seq<Expr>, x: Seq<Tok>, rest: Seq<Tok>)
    requires
        list_tokens(cs) + x == list_tokens(ds) + (seq![Tok::RParen] + rest),
    ensures
        cs.len() <= ds.len(),
        x == list_tokens(ds.skip(cs.len() as int)) + (seq![Tok::RParen] + rest),
    decreases cs.len(),
{
    if cs.len() == 0 {
        assert(ds.skip(0) =~= ds);
        assert(list_tokens(cs) + x =~= x);
    } else {
        lemma_expr_tokens_start(cs[0]);
        let t = list_tokens(ds) + (seq![Tok::RParen] + rest);
        if ds.len() == 0 {
            assert((list_tokens(cs) + x)[0] == expr_tokens(cs[0])[0]);
            assert(t[0] == Tok::RParen);
            assert(false);
        } else {
            assert(list_tokens(cs) + x =~= expr_tokens(cs[0]) + (list_tokens(cs.skip(1)) + x));
            assert(t =~= expr_tokens(ds[0]) + (list_tokens(ds.skip(1)) + (seq![Tok::RParen]
                + rest)));
            lemma_expr_tokens_unique(
                cs[0],
                ds[0],
                list_tokens(cs.skip(1)) + x,
                list_tokens(ds.skip(1)) + (seq![Tok::RParen] + rest),
            );
            lemma_list_tokens_prefix(cs.skip(1), ds.skip(1), x, rest);
            assert(ds.skip(1).skip(cs.len() - 1) =~= ds.skip(cs.len() as int));
        }
    }
}

/// Reads the expression that starts at token `i`; gives it with the index just past it, or
/// nothing when no expression's tokens start there.
fn parse_expression(tokens: &Vec<LispToken>, i: usize) -> (r: Option<(LispExpression, usize)>)
    requires
        i <= tokens.len(),
    ensures
        match r {
            Some((e, k)) => i < k <= tokens.len() && tokens_view(tokens@).subrange(i as int, k as int)
                == expr_tokens(e@),
            None => forall|e: Expr, rest: Seq<Tok>|
                tokens_view(tokens@).skip(i as int) != #[trigger] (expr_tokens(e) + rest),
        },
    decreases tokens.len() - i,
{
    let ghost ts = tokens_view(tokens@);
    if i == tokens.len() {
        proof {
            assert forall|e: Expr, rest: Seq<Tok>| ts.skip(i as int) != #[trigger] (expr_tokens(e) + rest) by {
                lemma_expr_tokens_start(e);
                assert(ts.len() == tokens@.len());
                assert((expr_tokens(e) + rest).len() >= 1);
            }
        }
        return None;
    }
    assert(ts[i as int] == tokens@[i as int]@);
    match &tokens[i] {
        LispToken::Integer(n) => {
            let e = LispExpression::Integer(*n);
            assert(ts.subrange(i as int, i + 1) =~= expr_tokens(e@));
            Some((e, i + 1))
        },
        LispToken::Symbol(s) => {
            let e = LispExpression::Symbol(s.clone());
            assert(ts.subrange(i as int, i + 1) =~= expr_tokens(e@));
            Some((e, i + 1))
        },
        LispToken::RightParen => {
            proof {
                assert forall|e: Expr, rest: Seq<Tok>| ts.skip(i as int) != #[trigger] (expr_tokens(e) + rest) by {
                    lemma_expr_tokens_start(e);
                    assert((expr_tokens(e) + rest)[0] == expr_tokens(e)[0]);
                }
            }
            None
        },
        LispToken::LeftParen => {
            let mut children: Vec<LispExpression> = Vec::new();
            let ghost mut cs: Seq<Expr> = seq![];
            let mut j: usize = i + 1;
            assert(ts.subrange(i + 1, j as int) =~= list_tokens(cs));
            loop
                invariant
                    i < j <= tokens.len(),
                    ts == tokens_view(tokens@),
                    ts[i as int] == Tok::LParen,
                    cs.len() == children.len(),
                    forall|m: int| 0 <= m < cs.len() ==> cs[m] == (#[trigger] children@[m])@,
                    ts.subrange(i + 1, j as int) == list_tokens(cs),
                decreases tokens.len() - j,
            {
                if j < tokens.len() {
                    if let LispToken::RightParen = &tokens[j] {
                        assert(ts[j as int] == Tok::RParen);
                        let e = LispExpression::List(children);
                        assert(e@ == Expr::List(cs)) by {
                            assert(e@->List_0 =~= cs);
                        }
                        assert(ts.subrange(i as int, j + 1) =~= expr_tokens(e@));
                        return Some((e, j + 1));
                    }
                }
                match parse_expression(tokens, j) {
                    Some((c, k)) => {
                        proof {
                            lemma_list_tokens_push(cs, c@);
                            assert(ts.subrange(i + 1, k as int) =~= ts.subrange(i + 1, j as int)
                                + ts.subrange(j as int, k as int));
                        }
                        let ghost c_view = c@;
                        children.push(c);
                        proof {
                            cs = cs.push(c_view);
                        }
                        j = k;
                    },
                    None => {
                        proof {
                            assert forall|e: Expr, rest: Seq<Tok>| ts.skip(i as int)
                                != #[trigger] (expr_tokens(e) + rest) by {
                                if ts.skip(i as int) == expr_tokens(e) + rest {
                                    lemma_expr_tokens_start(e);
                                    assert(ts.skip(i as int)[0] == Tok::LParen);
                                    let ds = e->List_0;
                                    assert(e == Expr::List(ds));
                                    assert(ts.skip(i + 1) =~= ts.skip(i as int).skip(1));
                                    assert(ts.skip(i + 1) =~= list_tokens(ds) + (seq![Tok::RParen]
                                        + rest));
                                    assert(ts.skip(i + 1) =~= list_tokens(cs) + ts.skip(j as int));
                                    lemma_list_tokens_prefix(cs, ds, ts.skip(j as int), rest);
                                    let more = ds.skip(cs.len() as int);
                                    if more.len() == 0 {
                                        assert(ts.skip(j as int)[0] == Tok::RParen);
                                        assert(ts[j as int] == Tok::RParen);
                                        assert(tokens@[j as int]@ == Tok::RParen);
                                    } else {
                                        assert(ts.skip(j as int) =~= expr_tokens(more[0]) + (
                                        list_tokens(more.skip(1)) + (seq![Tok::RParen] + rest)));
                                    }
                                }
                            }
                        }
                        return None;
                    },
                }
            }
        },
    }
}

/// Reads a whole token sequence as one expression: the expression whose tokens are exactly
/// `tokens`. Fails when there is none (an empty sequence, a stray `)`, an unclosed `(`, or
/// tokens left after a complete expression).
pub fn parse(tokens: &Vec<LispToken>) -> (r: Result<LispExpression, LispError>)
    ensures
        match r {
            Ok(e) => tokens_view(tokens@) == expr_tokens(e@),
            Err(err) => err == LispError::ParseError && forall|e: Expr|
                tokens_view(tokens@) != #[trigger] expr_tokens(e),
        },
{
    let ghost ts = tokens_view(tokens@);
    match parse_expression(tokens, 0) {
        Some((e, k)) => {
            assert(ts.skip(0) =~= ts);
            if k == tokens.len() {
                assert(ts.subrange(0, k as int) =~= ts);
                Ok(e)
            } else {
                proof {
                    assert forall|e2: Expr| ts != #[trigger] expr_tokens(e2) by {
                        if ts == expr_tokens(e2) {
                            assert(ts =~= expr_tokens(e@) + ts.skip(k as int));
                            assert(ts =~= expr_tokens(e2) + seq![]);
                            lemma_expr_tokens_unique(e@, e2, ts.skip(k as int), seq![]);
                            assert(ts.skip(k as int).len() == 0);
                        }
                    }
                }
                Err(LispError::ParseError)
            }
        },
        None => {
            proof {
                assert(ts.skip(0) =~= ts);
                assert forall|e2: Expr| ts != #[trigger] expr_tokens(e2) by {
                    assert(expr_tokens(e2) =~= expr_tokens(e2) + seq![]);
                }
            }
            Err(LispError::ParseError)
        },
    }
}

} // verus!
