use vstd::prelude::*;

use crate::lisp_expression::Expr;
use crate::parser::{expr_tokens, list_tokens};
use crate::tokenizer::{
    all_digits, digit_value, digits_value, integer_of, is_delimiter, is_digit, is_space, lex,
    sign_len, word_len, word_token, Tok,
};

verus! {

/// The decimal digit for `d < 10`.
pub open spec fn digit_char(d: nat) -> char {
    ((d + '0' as nat) as u32) as char
}

/// The decimal digits of `n`, most significant first, without leading zeros.
pub open spec fn decimal(n: nat) -> Seq<char>
    decreases n,
{
    if n < 10 {
        seq![digit_char(n)]
    } else {
        decimal(n / 10).push(digit_char(n % 10))
    }
}

/// An integer as source text: a `-` for a negative number, then its digits.
pub open spec fn integer_text(n: i64) -> Seq<char> {
    if n < 0 {
        seq!['-'] + decimal((-n) as nat)
    } else {
        decimal(n as nat)
    }
}

/// Source text for an expression: a list is written in parentheses, each element followed
/// by a space.
pub open spec fn print_expr(e: Expr) -> Seq<char>
    decreases e,
{
    match e {
        Expr::Int(n) => integer_text(n),
        Expr::Sym(s) => s,
        Expr::List(cs) => seq!['('] + print_list(cs) + seq![')'],
    }
}

pub open spec fn print_list(cs: Seq<Expr>) -> Seq<char>
    decreases cs,
{
    if cs.len() == 0 {
        seq![]
    } else {
        print_expr(cs[0]) + seq![' '] + print_list(cs.skip(1))
    }
}

/// A symbol that prints as itself and reads back as the same symbol: at least one character,
/// none of them a delimiter, and not the spelling of an integer.
pub open spec fn canonical_symbol(s: Seq<char>) -> bool {
    &&& s.len() > 0
    &&& forall|i: int| 0 <= i < s.len() ==> !is_delimiter(#[trigger] s[i])
    &&& integer_of(s) is None
}

/// Every symbol in the expression is canonical.
pub open spec fn canonical(e: Expr) -> bool
    decreases e,
{
    match e {
        Expr::Int(_) => true,
        Expr::Sym(s) => canonical_symbol(s),
        Expr::List(cs) => canonical_list(cs),
    }
}

pub open spec fn canonical_list(cs: Seq<Expr>) -> bool
    decreases cs,
{
    cs.len() > 0 ==> canonical(cs[0]) && canonical_list(cs.skip(1))
}

proof fn lemma_decimal(n: nat)
    ensures
        decimal(n).len() > 0,
        all_digits(decimal(n)),
        digits_value(decimal(n)) == n,
    decreases n,
{
    if n >= 10 {
        lemma_decimal(n / 10);
        let d = decimal(n);
        assert(d.drop_last() =~= decimal(n / 10));
        assert(digit_value(digit_char(n % 10)) == n % 10);
        assert(d.last() == digit_char(n % 10));
        vstd::arithmetic::div_mod::lemma_fundamental_div_mod(n as int, 10);
        assert(digits_value(d) == 10 * digits_value(d.drop_last()) + digit_value(d.last()));
        assert forall|i: int| 0 <= i < d.len() implies is_digit(#[trigger] d[i]) by {
            if i < d.len() - 1 {
                assert(d[i] == decimal(n / 10)[i]);
            }
        }
    } else {
        let d = decimal(n);
        assert(digit_value(digit_char(n)) == n);
        assert(d.drop_last() =~= Seq::<char>::empty());
        assert(digits_value(d) == 10 * digits_value(d.drop_last()) + digit_value(d.last()));
    }
}

/// The text of an integer reads back as that integer.
proof fn lemma_integer_text(n: i64)
    ensures
        integer_of(integer_text(n)) == Some(n),
        integer_text(n).len() > 0,
        forall|i: int| 0 <= i < integer_text(n).len() ==> !is_delimiter(#[trigger] integer_text(n)[i]),
{
    let w = integer_text(n);
    if n < 0 {
        lemma_decimal((-n) as nat);
        assert(w.skip(1) =~= decimal((-n) as nat));
        assert(sign_len(w) == 1);
        assert forall|i: int| 0 <= i < w.len() implies !is_delimiter(#[trigger] w[i]) by {
            if i > 0 {
                assert(w[i] == decimal((-n) as nat)[i - 1]);
                assert(is_digit(decimal((-n) as nat)[i - 1]));
            }
        }
    } else {
        lemma_decimal(n as nat);
        assert(is_digit(w[0]));
        assert(sign_len(w) == 0);
        assert(w.skip(0) =~= w);
        assert forall|i: int| 0 <= i < w.len() implies !is_delimiter(#[trigger] w[i]) by {
            assert(is_digit(w[i]));
        }
    }
}

/// A word followed by a delimiter (or nothing) is read whole.
proof fn lemma_word_len(w: Seq<char>, rest: Seq<char>)
    requires
        forall|i: int| 0 <= i < w.len() ==> !is_delimiter(#[trigger] w[i]),
        rest.len() == 0 || is_delimiter(rest[0]),
    ensures
        word_len(w + rest) == w.len(),
    decreases w.len(),
{
    if w.len() == 0 {
        assert(w + rest =~= rest);
    } else {
        assert((w + rest).skip(1) =~= w.skip(1) + rest);
        lemma_word_len(w.skip(1), rest);
    }
}

/// Reading a word and what follows it.
proof fn lemma_lex_word(w: Seq<char>, rest: Seq<char>)
    requires
        w.len() > 0,
        forall|i: int| 0 <= i < w.len() ==> !is_delimiter(#[trigger] w[i]),
        rest.len() == 0 || is_delimiter(rest[0]),
    ensures
        lex(w + rest) == seq![word_token(w)] + lex(rest),
{
    lemma_word_len(w, rest);
    let s = w + rest;
    assert(s[0] == w[0]);
    assert(!is_delimiter(w[0]));
    assert(s.take(w.len() as int) =~= w);
    assert(s.skip(w.len() as int) =~= rest);
}

/// The text of a canonical expression, followed by a delimiter or nothing, reads as the
/// expression's tokens.
proof fn lemma_lex_print(e: Expr, rest: Seq<char>)
    requires
        canonical(e),
        rest.len() == 0 || is_delimiter(rest[0]),
    ensures
        lex(print_expr(e) + rest) == expr_tokens(e) + lex(rest),
    decreases e,
{
    match e {
        Expr::Int(n) => {
            lemma_integer_text(n);
            lemma_lex_word(integer_text(n), rest);
        },
        Expr::Sym(s) => {
            lemma_lex_word(s, rest);
        },
        Expr::List(cs) => {
            let inner = print_list(cs) + (seq![')'] + rest);
            let s = print_expr(e) + rest;
            assert(s =~= seq!['('] + inner);
            assert(s.skip(1) =~= inner);
            lemma_lex_print_list(cs, seq![')'] + rest);
            let close = seq![')'] + rest;
            assert(close.skip(1) =~= rest);
            assert(lex(close) == seq![Tok::RParen] + lex(rest));
            assert(lex(s) =~= expr_tokens(e) + lex(rest));
        },
    }
}

proof fn lemma_lex_print_list(cs: Seq<Expr>, rest: Seq<char>)
    requires
        canonical_list(cs),
    ensures
        lex(print_list(cs) + rest) == list_tokens(cs) + lex(rest),
    decreases cs,
{
    if cs.len() == 0 {
        assert(print_list(cs) + rest =~= rest);
        assert(list_tokens(cs) + lex(rest) =~= lex(rest));
    } else {
        let tail = seq![' '] + (print_list(cs.skip(1)) + rest);
        assert(print_list(cs) + rest =~= print_expr(cs[0]) + tail);
        assert(is_space(' '));
        lemma_lex_print(cs[0], tail);
        assert(tail.skip(1) =~= print_list(cs.skip(1)) + rest);
        lemma_lex_print_list(cs.skip(1), rest);
        assert(lex(print_list(cs) + rest) =~= list_tokens(cs) + lex(rest));
    }
}

/// The text of a canonical expression reads back as the tokens of that expression; with
/// `parse`, which returns the expression its tokens spell, reading printed text gives the
/// expression back.
pub proof fn law_print_round_trip(e: Expr)
    requires
        canonical(e),
    ensures
        lex(print_expr(e)) == expr_tokens(e),
{
    lemma_lex_print(e, seq![]);
    assert(print_expr(e) + seq![] =~= print_expr(e));
    assert(expr_tokens(e) + lex(seq![]) =~= expr_tokens(e));
}

} // verus!
