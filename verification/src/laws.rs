//! The scanner's laws: proof functions that state and prove what holds of
//! the token stream of every input — termination of scanning, cursor
//! progress, stability of `EOF`, exactness of keyword recognition, greedy
//! two-character operators, the integer/identifier split, the handling of
//! unrecognized characters, and transparency of whitespace.

use vstd::prelude::*;

verus! {

use crate::lexer::is_ws_char;
use crate::lexer::scan_at;
use crate::lexer::single_char_kind;
use crate::lexer::skip_ws;
use crate::lexer::spec_next;
use crate::lexer::spec_tokens;
use crate::lexer::word_end;
use crate::lexer::lemma_next_bounds;
use crate::lexer::lemma_skip_ws_props;
use crate::lexer::lemma_word_end_props;
use crate::token::is_digit_char;
use crate::token::Delimiter;
use crate::token::Operator;
use crate::token::Paren;
use crate::token::is_int_lexeme;
use crate::token::is_word_char;
use crate::token::spec_classify;
use crate::token::spec_keyword;
use crate::token::Special;
use crate::token::SpecToken;
use crate::token::TokenType;
use crate::token::Value;

/// The token that the scanner emits at the end of the input.
pub open spec fn eof_token() -> SpecToken {
    SpecToken { kind: TokenType::Special(Special::EOF), text: Seq::empty() }
}

/// The token that a word lexeme `w` forms: its classification and the
/// lexeme itself as literal.
pub open spec fn word_token(w: Seq<char>) -> SpecToken {
    SpecToken { kind: spec_classify(w), text: w }
}

/// Every character of `w` is whitespace.
pub open spec fn all_ws(w: Seq<char>) -> bool {
    forall|i: int| 0 <= i < w.len() ==> is_ws_char(#[trigger] w[i])
}

/// Totality: from any cursor position the token stream is a finite
/// sequence that ends with the single `EOF` token, contains no other
/// `EOF`, and holds at most one token per remaining input character plus
/// the final `EOF`.  Together with `lemma_eof_stable` this says that
/// `next_token`, called repeatedly, eventually returns `EOF` and then
/// only `EOF`.
pub proof fn lemma_totality(s: Seq<char>, pos: int)
    requires
        0 <= pos <= s.len(),
    ensures
        spec_tokens(s, pos).len() >= 1,
        spec_tokens(s, pos).last() == eof_token(),
        forall|i: int|
            0 <= i < spec_tokens(s, pos).len() - 1 ==> (#[trigger] spec_tokens(s, pos)[i]).kind
                != TokenType::Special(Special::EOF),
        spec_tokens(s, pos).len() <= s.len() - pos + 1,
    decreases s.len() - pos,
{
    lemma_next_bounds(s, pos);
    let st = spec_next(s, pos);
    if st.token.kind == TokenType::Special(Special::EOF) {
        assert(st.token == eof_token());
    } else {
        lemma_totality(s, st.next);
        let rest = spec_tokens(s, st.next);
        assert(spec_tokens(s, pos) == seq![st.token] + rest);
        assert(spec_tokens(s, pos).last() == rest.last());
    }
}

/// Once the scanner reports `EOF` it stays at the end: the cursor is at
/// the input's end and every further call returns the same `EOF` token
/// without moving.
pub proof fn lemma_eof_stable(s: Seq<char>, pos: int)
    requires
        0 <= pos <= s.len(),
        spec_next(s, pos).token.kind == TokenType::Special(Special::EOF),
    ensures
        spec_next(s, pos).token == eof_token(),
        spec_next(s, pos).next == s.len(),
        spec_next(s, spec_next(s, pos).next).token == eof_token(),
        spec_next(s, spec_next(s, pos).next).next == s.len(),
{
    lemma_next_bounds(s, pos);
    assert(skip_ws(s, s.len() as int) == s.len());
}

/// An input made of one maximal word lexeme scans as exactly that word,
/// classified, followed by `EOF`.
pub proof fn lemma_single_word(s: Seq<char>)
    requires
        s.len() >= 1,
        forall|i: int| 0 <= i < s.len() ==> is_word_char(#[trigger] s[i]),
    ensures
        spec_tokens(s, 0) == seq![word_token(s), eof_token()],
{
    assert(!is_ws_char(s[0]));
    assert(skip_ws(s, 0) == 0);
    assert(single_char_kind(s[0]) is None);
    lemma_word_end_props(s, 0);
    assert(word_end(s, 0) == s.len());
    assert(s.subrange(0, s.len() as int) =~= s);
    let st = spec_next(s, 0);
    assert(st.token == word_token(s));
    assert(st.next == s.len());
    assert(skip_ws(s, s.len() as int) == s.len());
    assert(spec_tokens(s, s.len() as int) == seq![eof_token()]);
    assert(spec_tokens(s, 0) =~= seq![word_token(s), eof_token()]);
}

/// Keyword exactness: a lexeme that spells a reserved word is classified
/// as that keyword and tokenizes to exactly that keyword token; the same
/// lexeme with any word character appended or prepended is an identifier.
pub proof fn lemma_keyword_exactness(w: Seq<char>, c: char)
    requires
        spec_keyword(w) is Some,
        is_word_char(c),
    ensures
        spec_keyword(w) matches Some(k) ==> spec_classify(w) == TokenType::KeyWord(k),
        spec_tokens(w, 0) == seq![word_token(w), eof_token()],
        spec_classify(w.push(c)) == TokenType::Value(Value::Ident),
        spec_classify(seq![c] + w) == TokenType::Value(Value::Ident),
        spec_tokens(w.push(c), 0) == seq![word_token(w.push(c)), eof_token()],
        spec_tokens(seq![c] + w, 0) == seq![word_token(seq![c] + w), eof_token()],
{
    assert(forall|i: int| 0 <= i < w.len() ==> is_word_char(#[trigger] w[i]));
    lemma_single_word(w);
    let a = w.push(c);
    let b = seq![c] + w;
    assert(forall|i: int| 0 <= i < a.len() ==> is_word_char(#[trigger] a[i]));
    assert(forall|i: int| 0 <= i < b.len() ==> is_word_char(#[trigger] b[i]));
    lemma_single_word(a);
    lemma_single_word(b);
    assert(spec_keyword(a) is None);
    assert(spec_keyword(b) is None);
    assert(!is_digit_char(a[0]));
    assert(!is_digit_char(b[1]));
    assert(!is_int_lexeme(a));
    assert(!is_int_lexeme(b));
}

/// Greedy two-character operators: at `=` the scanner emits `Eq` exactly
/// when the very next character is `=`, and `Assign` otherwise — also when
/// the input ends right after it; likewise `NotEq` and `Not` at `!`.
pub proof fn lemma_two_char_greedy(s: Seq<char>, pos: int)
    requires
        0 <= pos <= s.len(),
    ensures
        ({
            let p = skip_ws(s, pos);
            let st = spec_next(s, pos);
            &&& (p + 1 < s.len() && s[p] == '=' && s[p + 1] == '=') ==> (st.token.kind
                == TokenType::Operator(Operator::Eq) && st.token.text == seq!['=', '=']
                && st.next == p + 2)
            &&& (p < s.len() && s[p] == '=' && (p + 1 >= s.len() || s[p + 1] != '=')) ==> (
            st.token.kind == TokenType::Operator(Operator::Assign) && st.token.text == seq!['=']
                && st.next == p + 1)
            &&& (p + 1 < s.len() && s[p] == '!' && s[p + 1] == '=') ==> (st.token.kind
                == TokenType::Operator(Operator::NotEq) && st.token.text == seq!['!', '=']
                && st.next == p + 2)
            &&& (p < s.len() && s[p] == '!' && (p + 1 >= s.len() || s[p + 1] != '=')) ==> (
            st.token.kind == TokenType::Operator(Operator::Not) && st.token.text == seq!['!']
                && st.next == p + 1)
        }),
{
    lemma_skip_ws_props(s, pos);
}

/// Integer against identifier: a non-empty all-digit word lexeme is an
/// integer literal; a word lexeme holding a non-digit word character, and
/// not spelling a reserved word, is an identifier.
pub proof fn lemma_int_vs_ident(w: Seq<char>)
    requires
        w.len() > 0,
        forall|i: int| 0 <= i < w.len() ==> is_word_char(#[trigger] w[i]),
    ensures
        (forall|i: int| 0 <= i < w.len() ==> is_digit_char(#[trigger] w[i])) ==> spec_classify(w)
            == TokenType::Value(Value::Int),
        ((exists|i: int| 0 <= i < w.len() && !is_digit_char(#[trigger] w[i])) && spec_keyword(w)
            is None) ==> spec_classify(w) == TokenType::Value(Value::Ident),
{
    if forall|i: int| 0 <= i < w.len() ==> is_digit_char(#[trigger] w[i]) {
        assert(w != seq!['f', 'n']) by {
            assert(is_digit_char(w[0]) ==> w[0] != 'f');
        }
        assert(w != seq!['l', 'e', 't']);
        assert(w != seq!['t', 'r', 'u', 'e']);
        assert(w != seq!['f', 'a', 'l', 's', 'e']);
        assert(w != seq!['i', 'f']);
        assert(w != seq!['e', 'l', 's', 'e']);
        assert(w != seq!['r', 'e', 't', 'u', 'r', 'n']);
        assert(spec_keyword(w) is None);
    }
}

/// The token record's invariant: the literal matches the kind.  Operator,
/// delimiter and paren tokens carry exactly their surface characters;
/// `EOF` and `Illegal` carry the empty literal; an `Int` literal is a
/// non-empty run of decimal digits; an `Ident` literal is a non-empty run
/// of word characters that spells no reserved word and is not all digits;
/// a keyword token carries exactly its reserved word.
pub open spec fn token_wf(t: SpecToken) -> bool {
    match t.kind {
        TokenType::Special(_) => t.text == Seq::<char>::empty(),
        TokenType::Value(Value::Int) => is_int_lexeme(t.text),
        TokenType::Value(Value::Ident) => {
            &&& t.text.len() > 0
            &&& forall|i: int| 0 <= i < t.text.len() ==> is_word_char(#[trigger] t.text[i])
            &&& spec_keyword(t.text) is None
            &&& !is_int_lexeme(t.text)
        },
        TokenType::KeyWord(k) => spec_keyword(t.text) == Some(k),
        TokenType::Operator(op) => match op {
            Operator::Assign => t.text == seq!['='],
            Operator::Plus => t.text == seq!['+'],
            Operator::Minus => t.text == seq!['-'],
            Operator::Mul => t.text == seq!['*'],
            Operator::Div => t.text == seq!['/'],
            Operator::Lt => t.text == seq!['<'],
            Operator::Gt => t.text == seq!['>'],
            Operator::Eq => t.text == seq!['=', '='],
            Operator::NotEq => t.text == seq!['!', '='],
            Operator::Not => t.text == seq!['!'],
        },
        TokenType::Delimiter(d) => match d {
            Delimiter::Comma => t.text == seq![','],
            Delimiter::SemiColon => t.text == seq![';'],
        },
        TokenType::Paren(pr) => match pr {
            Paren::LParen => t.text == seq!['('],
            Paren::RParen => t.text == seq![')'],
            Paren::LBrace => t.text == seq!['{'],
            Paren::RBrace => t.text == seq!['}'],
        },
    }
}

/// Every token that one scanning step emits satisfies the token record's
/// invariant.
pub proof fn lemma_scan_token_wf(s: Seq<char>, pos: int)
    requires
        0 <= pos <= s.len(),
    ensures
        token_wf(spec_next(s, pos).token),
{
    lemma_skip_ws_props(s, pos);
    let p = skip_ws(s, pos);
    if p < s.len() && s[p] != '=' && s[p] != '!' && single_char_kind(s[p]) is None && is_word_char(
        s[p],
    ) {
        lemma_word_end_props(s, p);
        let w = s.subrange(p, word_end(s, p));
        assert(w.len() > 0);
        assert(forall|i: int| 0 <= i < w.len() ==> is_word_char(#[trigger] w[i]));
    }
}

/// Every token in the token stream of any input satisfies the token
/// record's invariant.
pub proof fn lemma_stream_token_wf(s: Seq<char>, pos: int)
    requires
        0 <= pos <= s.len(),
    ensures
        forall|i: int|
            0 <= i < spec_tokens(s, pos).len() ==> token_wf(#[trigger] spec_tokens(s, pos)[i]),
    decreases s.len() - pos,
{
    lemma_next_bounds(s, pos);
    lemma_scan_token_wf(s, pos);
    let st = spec_next(s, pos);
    if st.token.kind != TokenType::Special(Special::EOF) {
        lemma_stream_token_wf(s, st.next);
        assert(spec_tokens(s, pos) == seq![st.token] + spec_tokens(s, st.next));
    }
}

/// `skip_ws` is the unique position reached from `q` by skipping exactly
/// the whitespace run that ends at `r`.
proof fn lemma_skip_ws_char(s: Seq<char>, q: int, r: int)
    requires
        0 <= q <= r <= s.len(),
        forall|i: int| q <= i < r ==> is_ws_char(#[trigger] s[i]),
        r == s.len() || !is_ws_char(s[r]),
    ensures
        skip_ws(s, q) == r,
    decreases r - q,
{
    if q < r {
        lemma_skip_ws_char(s, q + 1, r);
    }
}

/// `word_end` is the unique position reached from `q` by consuming exactly
/// the word-character run that ends at `r`.
proof fn lemma_word_end_char(s: Seq<char>, q: int, r: int)
    requires
        0 <= q <= r <= s.len(),
        forall|i: int| q <= i < r ==> is_word_char(#[trigger] s[i]),
        r == s.len() || !is_word_char(s[r]),
    ensures
        word_end(s, q) == r,
    decreases r - q,
{
    if q < r {
        lemma_word_end_char(s, q + 1, r);
    }
}

/// Scanning never looks behind the cursor: dropping a prefix that the
/// cursor has passed shifts `skip_ws` with it.
proof fn lemma_skip_ws_drop(s: Seq<char>, q: int, pos: int)
    requires
        0 <= q <= pos <= s.len(),
    ensures
        skip_ws(s, pos) == q + skip_ws(s.skip(q), pos - q),
    decreases s.len() - pos,
{
    let s2 = s.skip(q);
    if pos < s.len() {
        assert(s2[pos - q] == s[pos]);
        if is_ws_char(s[pos]) {
            lemma_skip_ws_drop(s, q, pos + 1);
        }
    }
}

/// As `lemma_skip_ws_drop`, for `word_end`.
proof fn lemma_word_end_drop(s: Seq<char>, q: int, pos: int)
    requires
        0 <= q <= pos <= s.len(),
    ensures
        word_end(s, pos) == q + word_end(s.skip(q), pos - q),
    decreases s.len() - pos,
{
    let s2 = s.skip(q);
    if pos < s.len() {
        assert(s2[pos - q] == s[pos]);
        if is_word_char(s[pos]) {
            lemma_word_end_drop(s, q, pos + 1);
        }
    }
}

/// One scanning step reads nothing before the cursor: dropping a passed
/// prefix yields the same token and a shifted next position.
proof fn lemma_scan_drop(s: Seq<char>, q: int, p: int)
    requires
        0 <= q <= p <= s.len(),
    ensures
        scan_at(s, p).token == scan_at(s.skip(q), p - q).token,
        scan_at(s, p).next == q + scan_at(s.skip(q), p - q).next,
{
    let s2 = s.skip(q);
    if p < s.len() {
        assert(s2[p - q] == s[p]);
        if p + 1 < s.len() {
            assert(s2[p - q + 1] == s[p + 1]);
        }
        if s[p] != '=' && s[p] != '!' && single_char_kind(s[p]) is None && is_word_char(s[p]) {
            lemma_word_end_drop(s, q, p);
            lemma_word_end_props(s, p);
            let e = word_end(s, p);
            assert(s.subrange(p, e) =~= s2.subrange(p - q, e - q));
        }
    }
}

/// The whole token stream reads nothing before the cursor: dropping a
/// passed prefix leaves it unchanged.
proof fn lemma_tokens_drop(s: Seq<char>, q: int, pos: int)
    requires
        0 <= q <= pos <= s.len(),
    ensures
        spec_tokens(s, pos) == spec_tokens(s.skip(q), pos - q),
    decreases s.len() - pos,
{
    let s2 = s.skip(q);
    lemma_skip_ws_drop(s, q, pos);
    lemma_skip_ws_props(s, pos);
    let p = skip_ws(s, pos);
    lemma_scan_drop(s, q, p);
    lemma_next_bounds(s, pos);
    let st = spec_next(s, pos);
    let st2 = spec_next(s2, pos - q);
    assert(st.token == st2.token);
    assert(st.next == q + st2.next);
    if st.token.kind == TokenType::Special(Special::EOF) {
        assert(spec_tokens(s, pos) == seq![st.token]);
        assert(spec_tokens(s2, pos - q) == seq![st2.token]);
    } else {
        lemma_tokens_drop(s, q, st.next);
        assert(spec_tokens(s, pos) == seq![st.token] + spec_tokens(s, st.next));
        assert(spec_tokens(s2, pos - q) == seq![st2.token] + spec_tokens(s2, st2.next));
    }
}

/// Skipping whitespace may start anywhere inside the whitespace run: the
/// landing position is the same.
proof fn lemma_skip_ws_absorb(s: Seq<char>, pos: int, q: int)
    requires
        0 <= pos <= q <= s.len(),
        forall|i: int| pos <= i < q ==> is_ws_char(#[trigger] s[i]),
    ensures
        skip_ws(s, pos) == skip_ws(s, q),
    decreases q - pos,
{
    if pos < q {
        lemma_skip_ws_absorb(s, pos + 1, q);
    }
}

/// Two cursor positions with the same whitespace-skip target yield the
/// same token stream.
proof fn lemma_tokens_same_skip(s: Seq<char>, p1: int, p2: int)
    requires
        0 <= p1 <= s.len(),
        0 <= p2 <= s.len(),
        skip_ws(s, p1) == skip_ws(s, p2),
    ensures
        spec_tokens(s, p1) == spec_tokens(s, p2),
{
    lemma_next_bounds(s, p1);
    let st = spec_next(s, p1);
    assert(spec_next(s, p2) == st);
    if st.token.kind != TokenType::Special(Special::EOF) {
        assert(spec_tokens(s, p1) == seq![st.token] + spec_tokens(s, st.next));
        assert(spec_tokens(s, p2) == seq![st.token] + spec_tokens(s, st.next));
    }
}

/// Whitespace transparency at the front: whitespace prepended to an input
/// does not change its token stream.
pub proof fn lemma_ws_prefix(w: Seq<char>, s: Seq<char>)
    requires
        all_ws(w),
    ensures
        spec_tokens(w + s, 0) == spec_tokens(s, 0),
{
    let t = w + s;
    assert(forall|i: int| 0 <= i < w.len() ==> is_ws_char(#[trigger] t[i]));
    lemma_skip_ws_absorb(t, 0, w.len() as int);
    lemma_tokens_same_skip(t, 0, w.len() as int);
    lemma_tokens_drop(t, w.len() as int, w.len() as int);
    assert(t.skip(w.len() as int) =~= s);
}

/// The scanner's cursor, started at `q`, reaches position `p` before the
/// end of the input: `p` is a token boundary of the stream from `q`.
pub open spec fn reaches(s: Seq<char>, q: int, p: int) -> bool
    decreases p - q
        when 0 <= q <= p <= s.len()
        via reaches_decreases
{
    q == p || (spec_next(s, q).token.kind != TokenType::Special(Special::EOF) && spec_next(
        s,
        q,
    ).next <= p && reaches(s, spec_next(s, q).next, p))
}

#[via_fn]
proof fn reaches_decreases(s: Seq<char>, q: int, p: int) {
    lemma_next_bounds(s, q);
}

/// A whitespace character neither opens a word, nor an operator, nor any
/// single-character token.
proof fn lemma_ws_char_classes(c: char)
    requires
        is_ws_char(c),
    ensures
        !is_word_char(c),
        single_char_kind(c) is None,
        c != '=',
        c != '!',
{
}

/// The induction behind whitespace transparency, generalized over the
/// cursor position `q` from which the boundary `p` is reached.
proof fn lemma_ws_insert_from(s: Seq<char>, p: int, w: Seq<char>, q: int)
    requires
        0 <= q <= p <= s.len(),
        all_ws(w),
        reaches(s, q, p),
    ensures
        spec_tokens(s.take(p) + w + s.skip(p), q) == spec_tokens(s, q),
    decreases p - q,
{
    let t = s.take(p) + w + s.skip(p);
    assert(t.len() == s.len() + w.len());
    assert(forall|i: int| 0 <= i < p ==> t[i] == s[i]);
    assert(forall|i: int| p <= i < p + w.len() ==> t[i] == w[i - p]);
    if w.len() == 0 {
        assert(t =~= s);
        return ;
    }
    if q == p {
        lemma_tokens_drop(t, p, p);
        assert(t.skip(p) =~= w + s.skip(p));
        lemma_ws_prefix(w, s.skip(p));
        lemma_tokens_drop(s, p, p);
    } else {
        let st = spec_next(s, q);
        lemma_next_bounds(s, q);
        lemma_skip_ws_props(s, q);
        let sp = skip_ws(s, q);
        assert(sp < st.next <= p);
        lemma_skip_ws_char(t, q, sp);
        assert(skip_ws(t, q) == sp);
        let c = s[sp];
        assert(t[sp] == c);
        assert(is_ws_char(w[0]));
        lemma_ws_char_classes(w[0]);
        if c == '=' || c == '!' {
            if sp + 1 < s.len() && s[sp + 1] == '=' {
                assert(st.next == sp + 2);
                assert(t[sp + 1] == s[sp + 1]);
            } else {
                assert(st.next == sp + 1);
                if sp + 1 < t.len() {
                    if sp + 1 < p {
                        assert(t[sp + 1] == s[sp + 1]);
                        assert(t[sp + 1] != '=');
                    } else {
                        assert(t[sp + 1] == w[0]);
                        assert(t[sp + 1] != '=');
                    }
                }
            }
        } else if single_char_kind(c) is Some {
        } else if is_word_char(c) {
            lemma_word_end_props(s, sp);
            let e = word_end(s, sp);
            assert(st.next == e);
            assert forall|i: int| sp <= i < e implies is_word_char(#[trigger] t[i]) by {
                assert(t[i] == s[i]);
            }
            if e < p {
                assert(t[e] == s[e]);
                assert(!is_word_char(t[e]));
            } else {
                assert(e == p);
                assert(t[e] == w[0]);
                assert(!is_word_char(t[e]));
            }
            lemma_word_end_char(t, sp, e);
            assert(word_end(t, sp) == e);
            assert(t.subrange(sp, e) =~= s.subrange(sp, e));
        } else {
            assert(st.next == sp + 1);
        }
        let tt = spec_next(t, q);
        assert(tt.token == st.token);
        assert(tt.next == st.next);
        lemma_ws_insert_from(s, p, w, st.next);
        assert(spec_tokens(s, q) == seq![st.token] + spec_tokens(s, st.next));
        assert(spec_tokens(t, q) == seq![st.token] + spec_tokens(t, st.next));
    }
}

/// Whitespace transparency: inserting any run of space, tab, carriage
/// return and newline characters at a position that the scanner's cursor
/// reaches — a boundary between tokens — leaves the emitted token stream,
/// kinds and literals alike, unchanged.
pub proof fn lemma_ws_insertion(s: Seq<char>, p: int, w: Seq<char>)
    requires
        0 <= p <= s.len(),
        all_ws(w),
        reaches(s, 0, p),
    ensures
        spec_tokens(s.take(p) + w + s.skip(p), 0) == spec_tokens(s, 0),
{
    lemma_ws_insert_from(s, p, w, 0);
}

/// An unrecognized character surfaces as exactly one `Illegal` token with
/// an empty literal, and the cursor advances past it by exactly one
/// character.
pub proof fn lemma_illegal_char(s: Seq<char>, pos: int)
    requires
        0 <= pos <= s.len(),
        ({
            let p = skip_ws(s, pos);
            &&& p < s.len()
            &&& s[p] != '='
            &&& s[p] != '!'
            &&& single_char_kind(s[p]) is None
            &&& !is_word_char(s[p])
        }),
    ensures
        spec_next(s, pos).token.kind == TokenType::Special(Special::Illegal),
        spec_next(s, pos).token.text == Seq::<char>::empty(),
        spec_next(s, pos).next == skip_ws(s, pos) + 1,
{
    lemma_skip_ws_props(s, pos);
}

} // verus!
