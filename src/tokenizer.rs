use vstd::prelude::*;

verus! {

broadcast use vstd::string::group_string_axioms;

/// One lexical token of the source text.
#[derive(Debug, PartialEq)]
pub enum LispToken {
    Integer(i64),
    Symbol(String),
    LeftParen,
    RightParen,
}

/// Mathematical model of a token.
pub enum Tok {
    Int(i64),
    Sym(Seq<char>),
    LParen,
    RParen,
}

impl View for LispToken {
    type V = Tok;

    open spec fn view(&self) -> Tok {
        match self {
            LispToken::Integer(n) => Tok::Int(*n),
            LispToken::Symbol(s) => Tok::Sym(s@),
            LispToken::LeftParen => Tok::LParen,
            LispToken::RightParen => Tok::RParen,
        }
    }
}

/// The characters that `char::is_whitespace` accepts (Unicode `White_Space`).
pub open spec fn is_space(c: char) -> bool {
    ||| c == '\t' || c == '\n' || c == '\u{0B}' || c == '\u{0C}' || c == '\r' || c == ' '
    ||| c == '\u{85}' || c == '\u{A0}' || c == '\u{1680}'
    ||| ('\u{2000}' <= c && c <= '\u{200A}')
    ||| c == '\u{2028}' || c == '\u{2029}' || c == '\u{202F}' || c == '\u{205F}' || c == '\u{3000}'
}

/// A character that ends a word: whitespace, a parenthesis or the start of a comment.
pub open spec fn is_delimiter(c: char) -> bool {
    is_space(c) || c == '(' || c == ')' || c == ';'
}

/// Length of the word at the start of `s`.
pub open spec fn word_len(s: Seq<char>) -> nat
    decreases s.len(),
{
    if s.len() == 0 || is_delimiter(s[0]) {
        0
    } else {
        1 + word_len(s.skip(1))
    }
}

/// Length of the text before the next line break.
pub open spec fn line_len(s: Seq<char>) -> nat
    decreases s.len(),
{
    if s.len() == 0 || s[0] == '\n' {
        0
    } else {
        1 + line_len(s.skip(1))
    }
}

pub open spec fn is_digit(c: char) -> bool {
    '0' <= c && c <= '9'
}

pub open spec fn digit_value(c: char) -> nat {
    (c as nat - '0' as nat) as nat
}

/// Decimal value of a string of digits.
pub open spec fn digits_value(ds: Seq<char>) -> nat
    decreases ds.len(),
{
    if ds.len() == 0 {
        0
    } else {
        10 * digits_value(ds.drop_last()) + digit_value(ds.last())
    }
}

/// Length of the sign in front of a number: one for `-` or `+`, else zero.
pub open spec fn sign_len(w: Seq<char>) -> int {
    if w.len() > 0 && (w[0] == '-' || w[0] == '+') {
        1
    } else {
        0
    }
}

pub open spec fn all_digits(ds: Seq<char>) -> bool {
    forall|i: int| 0 <= i < ds.len() ==> is_digit(#[trigger] ds[i])
}

/// The integer a word denotes, as `str::parse::<i64>` reads it: an optional sign, then one
/// or more decimal digits, with a value in the range of `i64`.
pub open spec fn integer_of(w: Seq<char>) -> Option<i64> {
    let ds = w.skip(sign_len(w));
    let v: int = if w.len() > 0 && w[0] == '-' {
        -digits_value(ds)
    } else {
        digits_value(ds) as int
    };
    if ds.len() > 0 && all_digits(ds) && i64::MIN <= v <= i64::MAX {
        Some(v as i64)
    } else {
        None
    }
}

/// The token a word becomes.
pub open spec fn word_token(w: Seq<char>) -> Tok {
    match integer_of(w) {
        Some(n) => Tok::Int(n),
        None => Tok::Sym(w),
    }
}

/// The tokens of a source text: comments run from `;` to the end of the line, parentheses
/// are tokens of their own, whitespace separates words.
pub open spec fn lex(s: Seq<char>) -> Seq<Tok>
    decreases s.len(),
{
    proof {
        lemma_line_len_bound(s);
        lemma_word_len_bound(s);
    }
    if s.len() == 0 {
        seq![]
    } else if s[0] == ';' {
        lex(s.skip(line_len(s) as int))
    } else if is_space(s[0]) {
        lex(s.skip(1))
    } else if s[0] == '(' {
        seq![Tok::LParen] + lex(s.skip(1))
    } else if s[0] == ')' {
        seq![Tok::RParen] + lex(s.skip(1))
    } else {
        let n = word_len(s);
        seq![word_token(s.take(n as int))] + lex(s.skip(n as int))
    }
}

pub proof fn lemma_line_len_bound(s: Seq<char>)
    ensures
        line_len(s) <= s.len(),
    decreases s.len(),
{
    if s.len() > 0 && s[0] != '\n' {
        lemma_line_len_bound(s.skip(1));
    }
}

pub proof fn lemma_word_len_bound(s: Seq<char>)
    ensures
        word_len(s) <= s.len(),
    decreases s.len(),
{
    if s.len() > 0 && !is_delimiter(s[0]) {
        lemma_word_len_bound(s.skip(1));
    }
}

/// The models of a sequence of tokens.
pub open spec fn tokens_view(ts: Seq<LispToken>) -> Seq<Tok> {
    ts.map_values(|t: LispToken| t@)
}

proof fn lemma_tokens_view_push(ts: Seq<LispToken>, t: LispToken)
    ensures
        tokens_view(ts.push(t)) == tokens_view(ts).push(t@),
{
    assert(tokens_view(ts.push(t)) =~= tokens_view(ts).push(t@));
}

/// Splits source text into tokens. Comments, from `;` to the end of the line, are dropped;
/// parentheses are tokens of their own; a word that reads as an `i64` is an integer, any
/// other word a symbol.
pub fn tokenize(source: &str) -> (r: Vec<LispToken>)
    ensures
        tokens_view(r@) == lex(source@),
{
    let cs = chars_of(source);
    let mut tokens: Vec<LispToken> = Vec::new();
    let mut i: usize = 0;
    assert(cs@.skip(0) =~= cs@);
    assert(tokens_view(tokens@) =~= seq![]);
    while i < cs.len()
        invariant
            i <= cs.len(),
            cs@ == source@,
            tokens_view(tokens@) + lex(cs@.skip(i as int)) == lex(cs@),
        decreases cs.len() - i,
    {
        let ghost rest = cs@.skip(i as int);
        let ghost before = tokens_view(tokens@);
        let c = cs[i];
        assert(rest[0] == c);
        proof {
            lemma_skip_skip(cs@, i as int, 1);
        }
        if c == ';' {
            let mut j: usize = i;
            while j < cs.len() && cs[j] != '\n'
                invariant
                    i <= j <= cs.len(),
                    rest == cs@.skip(i as int),
                    line_len(rest) == (j - i) + line_len(cs@.skip(j as int)),
                decreases cs.len() - j,
            {
                proof {
                    lemma_skip_skip(cs@, j as int, 1);
                }
                j = j + 1;
            }
            proof {
                lemma_skip_skip(cs@, i as int, j - i);
            }
            i = j;
        } else if is_space_char(c) {
            i = i + 1;
        } else if c == '(' {
            let ghost old_toks = tokens@;
            tokens.push(LispToken::LeftParen);
            proof {
                lemma_tokens_view_push(old_toks, LispToken::LeftParen);
                assert(lex(rest) == seq![Tok::LParen] + lex(rest.skip(1)));
                assert(tokens_view(tokens@) + lex(cs@.skip(i + 1)) =~= before + lex(rest));
            }
            i = i + 1;
        } else if c == ')' {
            let ghost old_toks = tokens@;
            tokens.push(LispToken::RightParen);
            proof {
                lemma_tokens_view_push(old_toks, LispToken::RightParen);
                assert(lex(rest) == seq![Tok::RParen] + lex(rest.skip(1)));
                assert(tokens_view(tokens@) + lex(cs@.skip(i + 1)) =~= before + lex(rest));
            }
            i = i + 1;
        } else {
            let mut j: usize = i;
            while j < cs.len() && !is_delimiter_char(cs[j])
                invariant
                    i <= j <= cs.len(),
                    rest == cs@.skip(i as int),
                    word_len(rest) == (j - i) + word_len(cs@.skip(j as int)),
                decreases cs.len() - j,
            {
                proof {
                    lemma_skip_skip(cs@, j as int, 1);
                }
                j = j + 1;
            }
            proof {
                lemma_skip_skip(cs@, i as int, j - i);
                assert(rest.take(j - i) =~= cs@.subrange(i as int, j as int));
            }
            let tok = match read_integer(&cs, i, j) {
                Some(n) => LispToken::Integer(n),
                None => LispToken::Symbol(source.substring_char(i, j).to_string()),
            };
            let ghost old_toks = tokens@;
            tokens.push(tok);
            proof {
                lemma_tokens_view_push(old_toks, tok);
                assert(tok@ == word_token(rest.take(j - i)));
                assert(tokens_view(tokens@) + lex(cs@.skip(j as int)) =~= before + lex(rest));
            }
            i = j;
        }
    }
    assert(cs@.skip(cs.len() as int) =~= seq![]);
    assert(tokens_view(tokens@) =~= lex(source@));
    tokens
}

/// Collects the characters of `s` in order.
fn chars_of(s: &str) -> (r: Vec<char>)
    ensures
        r@ == s@,
{
    let mut out: Vec<char> = Vec::new();
    for c in it: s.chars()
        invariant
            out@ == it.seq().take(it.index() as int),
    {
        out.push(c);
    }
    assert(out@ =~= s@);
    out
}

fn is_space_char(c: char) -> (r: bool)
    ensures
        r == is_space(c),
{
    c == '\t' || c == '\n' || c == '\u{0B}' || c == '\u{0C}' || c == '\r' || c == ' ' || c
        == '\u{85}' || c == '\u{A0}' || c == '\u{1680}' || ('\u{2000}' <= c && c <= '\u{200A}')
        || c == '\u{2028}' || c == '\u{2029}' || c == '\u{202F}' || c == '\u{205F}' || c
        == '\u{3000}'
}

fn is_delimiter_char(c: char) -> (r: bool)
    ensures
        r == is_delimiter(c),
{
    is_space_char(c) || c == '(' || c == ')' || c == ';'
}

proof fn lemma_skip_skip(s: Seq<char>, a: int, b: int)
    requires
        0 <= a,
        0 <= b,
        a + b <= s.len(),
    ensures
        s.skip(a).skip(b) == s.skip(a + b),
{
    assert(s.skip(a).skip(b) =~= s.skip(a + b));
}

/// Reads the integer that `cs[start..end]` denotes, if it denotes one.
#[verifier::loop_isolation(false)]
fn read_integer(cs: &Vec<char>, start: usize, end: usize) -> (r: Option<i64>)
    requires
        start <= end <= cs.len(),
    ensures
        r == integer_of(cs@.subrange(start as int, end as int)),
{
    let ghost w = cs@.subrange(start as int, end as int);
    assert(w.len() > 0 ==> w[0] == cs@[start as int]);
    let neg = start < end && cs[start] == '-';
    let signed = start < end && (cs[start] == '-' || cs[start] == '+');
    let first: usize = if signed {
        start + 1
    } else {
        start
    };
    let ghost ds = w.skip(sign_len(w));
    assert(ds =~= cs@.subrange(first as int, end as int));
    assert(signed == (w.len() > 0 && (w[0] == '-' || w[0] == '+')));
    assert(neg == (w.len() > 0 && w[0] == '-'));
    if first == end {
        return None;
    }
    let mut acc: u64 = 0;
    let mut i: usize = first;
    while i < end
        invariant
            first <= i <= end <= cs.len(),
            ds == cs@.subrange(first as int, end as int),
            forall|j: int| 0 <= j < i - first ==> is_digit(#[trigger] ds[j]),
            acc == digits_value(ds.take(i - first)),
        decreases end - i,
    {
        let c = cs[i];
        if !('0' <= c && c <= '9') {
            assert(!is_digit(ds[i - first]));
            assert(!all_digits(ds));
            return None;
        }
        let d: u64 = (c as u32 - '0' as u32) as u64;
        assert(ds.take(i + 1 - first).drop_last() =~= ds.take(i - first));
        if acc > (u64::MAX - d) / 10 {
            assert(digits_value(ds.take(i + 1 - first)) > u64::MAX) by (nonlinear_arith)
                requires
                    acc > (u64::MAX - d) / 10,
                    digits_value(ds.take(i + 1 - first)) == 10 * acc + d,
            ;
            proof {
                if all_digits(ds) {
                    lemma_digits_value_prefix(ds, i + 1 - first);
                    assert(digits_value(ds) > u64::MAX);
                }
            }
            return None;
        }
        assert(10 * acc + d <= u64::MAX) by (nonlinear_arith)
            requires
                acc <= (u64::MAX - d) / 10,
                d <= 9,
        ;
        acc = acc * 10 + d;
        i = i + 1;
    }
    assert(ds.take(end - first) =~= ds);
    if neg {
        if acc <= 9223372036854775808 {
            if acc == 9223372036854775808 {
                Some(i64::MIN)
            } else {
                Some(-(acc as i64))
            }
        } else {
            None
        }
    } else {
        if acc <= 9223372036854775807 {
            Some(acc as i64)
        } else {
            None
        }
    }
}

/// A longer run of digits is worth at least as much as its prefix.
proof fn lemma_digits_value_prefix(ds: Seq<char>, k: int)
    requires
        0 <= k <= ds.len(),
        forall|j: int| 0 <= j < ds.len() ==> is_digit(#[trigger] ds[j]),
    ensures
        digits_value(ds) >= digits_value(ds.take(k)),
    decreases ds.len(),
{
    if k < ds.len() {
        assert(ds.drop_last().take(k) =~= ds.take(k));
        lemma_digits_value_prefix(ds.drop_last(), k);
    } else {
        assert(ds.take(k) =~= ds);
    }
}

} // verus!
