//! The scanner: a stateful cursor over an input string that produces the
//! next token on demand.
//!
//! The behaviour is stated against a mathematical model: `skip_ws` gives the
//! first non-whitespace position at or after the cursor, `scan_at` gives the
//! token found at such a position together with the cursor position after
//! it, and `spec_tokens` gives the whole token stream of an input.  Every
//! public operation is specified exactly in terms of these functions.

use vstd::prelude::*;

verus! {

use crate::token::is_word_char;
use crate::token::spec_classify;
use crate::token::Delimiter;
use crate::token::Operator;
use crate::token::Paren;
use crate::token::Special;
use crate::token::SpecToken;
use crate::token::Token;
use crate::token::TokenType;

/// A whitespace character: space, newline, tab or carriage return.
/// Whitespace separates tokens and is never emitted.
pub open spec fn is_ws_char(c: char) -> bool {
    c == ' ' || c == '\n' || c == '\t' || c == '\r'
}

/// The kind of a token formed by a single character, for the characters
/// whose token is always one character long.  `=` and `!` are absent: they
/// need one character of lookahead.
pub open spec fn single_char_kind(c: char) -> Option<TokenType> {
    if c == '+' {
        Some(TokenType::Operator(Operator::Plus))
    } else if c == '-' {
        Some(TokenType::Operator(Operator::Minus))
    } else if c == '*' {
        Some(TokenType::Operator(Operator::Mul))
    } else if c == '/' {
        Some(TokenType::Operator(Operator::Div))
    } else if c == '<' {
        Some(TokenType::Operator(Operator::Lt))
    } else if c == '>' {
        Some(TokenType::Operator(Operator::Gt))
    } else if c == ',' {
        Some(TokenType::Delimiter(Delimiter::Comma))
    } else if c == ';' {
        Some(TokenType::Delimiter(Delimiter::SemiColon))
    } else if c == '(' {
        Some(TokenType::Paren(Paren::LParen))
    } else if c == ')' {
        Some(TokenType::Paren(Paren::RParen))
    } else if c == '{' {
        Some(TokenType::Paren(Paren::LBrace))
    } else if c == '}' {
        Some(TokenType::Paren(Paren::RBrace))
    } else {
        None
    }
}

/// The first position at or after `pos` that does not hold whitespace
/// (`s.len()` if whitespace runs to the end of the input).
pub open spec fn skip_ws(s: Seq<char>, pos: int) -> int
    decreases s.len() - pos
        when 0 <= pos <= s.len()
{
    if pos == s.len() {
        pos
    } else if is_ws_char(s[pos]) {
        skip_ws(s, pos + 1)
    } else {
        pos
    }
}

/// The end of the maximal run of word characters starting at `pos`: the
/// first position at or after `pos` that does not hold a word character.
pub open spec fn word_end(s: Seq<char>, pos: int) -> int
    decreases s.len() - pos
        when 0 <= pos <= s.len()
{
    if pos == s.len() {
        pos
    } else if is_word_char(s[pos]) {
        word_end(s, pos + 1)
    } else {
        pos
    }
}

/// One step of the scanner: the token it produces and the cursor position
/// after producing it.
pub ghost struct ScanStep {
    pub token: SpecToken,
    pub next: int,
}

/// The token found at position `p`, for `p` already past any whitespace:
/// `EOF` at the end of the input, the greedy two-or-one character operators
/// for `=` and `!`, the single-character operators, delimiters and parens,
/// a classified word lexeme at a word character, and `Illegal` at anything
/// else.  `EOF` and `Illegal` have empty literals; `EOF` does not advance
/// the cursor, `Illegal` advances it by exactly one.
pub open spec fn scan_at(s: Seq<char>, p: int) -> ScanStep
    recommends
        0 <= p <= s.len(),
{
    if p >= s.len() {
        ScanStep {
            token: SpecToken { kind: TokenType::Special(Special::EOF), text: Seq::empty() },
            next: p,
        }
    } else if s[p] == '=' {
        if p + 1 < s.len() && s[p + 1] == '=' {
            ScanStep {
                token: SpecToken { kind: TokenType::Operator(Operator::Eq), text: seq!['=', '='] },
                next: p + 2,
            }
        } else {
            ScanStep {
                token: SpecToken { kind: TokenType::Operator(Operator::Assign), text: seq!['='] },
                next: p + 1,
            }
        }
    } else if s[p] == '!' {
        if p + 1 < s.len() && s[p + 1] == '=' {
            ScanStep {
                token: SpecToken {
                    kind: TokenType::Operator(Operator::NotEq),
                    text: seq!['!', '='],
                },
                next: p + 2,
            }
        } else {
            ScanStep {
                token: SpecToken { kind: TokenType::Operator(Operator::Not), text: seq!['!'] },
                next: p + 1,
            }
        }
    } else {
        match single_char_kind(s[p]) {
            Some(k) => ScanStep { token: SpecToken { kind: k, text: seq![s[p]] }, next: p + 1 },
            None => if is_word_char(s[p]) {
                ScanStep {
                    token: SpecToken {
                        kind: spec_classify(s.subrange(p, word_end(s, p))),
                        text: s.subrange(p, word_end(s, p)),
                    },
                    next: word_end(s, p),
                }
            } else {
                ScanStep {
                    token: SpecToken {
                        kind: TokenType::Special(Special::Illegal),
                        text: Seq::empty(),
                    },
                    next: p + 1,
                }
            },
        }
    }
}

/// What one call of `next_token` does from cursor position `pos`: skip the
/// whitespace under the cursor, then scan one token.
pub open spec fn spec_next(s: Seq<char>, pos: int) -> ScanStep {
    scan_at(s, skip_ws(s, pos))
}

/// `skip_ws` lands between `pos` and the end of the input, skips only
/// whitespace, and stops at a non-whitespace character or the end.
pub proof fn lemma_skip_ws_props(s: Seq<char>, pos: int)
    requires
        0 <= pos <= s.len(),
    ensures
        pos <= skip_ws(s, pos) <= s.len(),
        forall|i: int| pos <= i < skip_ws(s, pos) ==> is_ws_char(#[trigger] s[i]),
        skip_ws(s, pos) < s.len() ==> !is_ws_char(s[skip_ws(s, pos)]),
    decreases s.len() - pos,
{
    if pos < s.len() && is_ws_char(s[pos]) {
        lemma_skip_ws_props(s, pos + 1);
    }
}

/// `word_end` lands between `pos` and the end of the input, covers only
/// word characters, stops at a non-word character or the end, and moves at
/// least one character when it starts on a word character.
pub proof fn lemma_word_end_props(s: Seq<char>, pos: int)
    requires
        0 <= pos <= s.len(),
    ensures
        pos <= word_end(s, pos) <= s.len(),
        forall|i: int| pos <= i < word_end(s, pos) ==> is_word_char(#[trigger] s[i]),
        word_end(s, pos) < s.len() ==> !is_word_char(s[word_end(s, pos)]),
        pos < s.len() && is_word_char(s[pos]) ==> word_end(s, pos) > pos,
    decreases s.len() - pos,
{
    if pos < s.len() && is_word_char(s[pos]) {
        lemma_word_end_props(s, pos + 1);
    }
}

/// Cursor bounds and progress: one scanning step never moves the cursor
/// backwards or past the end, a non-`EOF` token advances it by at least one
/// character, and `EOF` is produced exactly when only whitespace remains.
pub proof fn lemma_next_bounds(s: Seq<char>, pos: int)
    requires
        0 <= pos <= s.len(),
    ensures
        pos <= spec_next(s, pos).next <= s.len(),
        spec_next(s, pos).token.kind != TokenType::Special(Special::EOF) ==> spec_next(
            s,
            pos,
        ).next > skip_ws(s, pos) >= pos,
        spec_next(s, pos).token.kind == TokenType::Special(Special::EOF) <==> skip_ws(s, pos)
            == s.len(),
        spec_next(s, pos).token.kind == TokenType::Special(Special::EOF) ==> spec_next(
            s,
            pos,
        ).next == s.len(),
{
    lemma_skip_ws_props(s, pos);
    let p = skip_ws(s, pos);
    if p < s.len() {
        lemma_word_end_props(s, p);
    }
}

/// The whole token stream of `s` from cursor position `pos`: the tokens of
/// successive scanning steps, ending with the single `EOF` token.  That this
/// sequence is well defined for every input is the scanner's totality.
pub open spec fn spec_tokens(s: Seq<char>, pos: int) -> Seq<SpecToken>
    decreases s.len() - pos
        when 0 <= pos <= s.len()
        via spec_tokens_decreases
{
    let st = spec_next(s, pos);
    if st.token.kind == TokenType::Special(Special::EOF) {
        seq![st.token]
    } else {
        seq![st.token] + spec_tokens(s, st.next)
    }
}

#[via_fn]
proof fn spec_tokens_decreases(s: Seq<char>, pos: int) {
    lemma_next_bounds(s, pos);
}

/// The scanner: the input as a character sequence and a single read cursor.
pub struct Lexer {
    chars: Vec<char>,
    position: usize,
}

/// The mathematical image of a scanner: its input and its cursor position.
pub ghost struct LexerView {
    pub input: Seq<char>,
    pub pos: int,
}

impl View for Lexer {
    type V = LexerView;

    closed spec fn view(&self) -> LexerView {
        LexerView { input: self.chars@, pos: self.position as int }
    }
}

impl Lexer {
    /// The cursor sits between zero and the input length, inclusive.
    pub open spec fn wf(&self) -> bool {
        0 <= self@.pos <= self@.input.len()
    }
}

/// Relies on `String::from_iter` over `char`: collecting characters yields
/// the string of exactly those characters, in order.
#[verifier::external_body]
fn string_from_chars(v: &Vec<char>) -> (s: String)
    ensures
        s@ == v@,
{
    v.iter().collect()
}

/// Returns a fresh scanner over `input`, positioned at offset zero.
pub fn new(input: String) -> (l: Lexer)
    ensures
        l.wf(),
        l@.input == input@,
        l@.pos == 0,
{
    let chars = crate::token::chars_of(input.as_str());
    Lexer { chars, position: 0 }
}

/// Whether `c` is a whitespace character.
fn ws_char(c: char) -> (b: bool)
    ensures
        b == is_ws_char(c),
{
    c == ' ' || c == '\n' || c == '\t' || c == '\r'
}

/// Whether `c` is a word character.
fn word_char(c: char) -> (b: bool)
    ensures
        b == is_word_char(c),
{
    ('0' <= c && c <= '9') || ('a' <= c && c <= 'z') || ('A' <= c && c <= 'Z') || c == '_'
}

/// The kind of the single-character token that `c` forms, if any.
fn single_kind(c: char) -> (k: Option<TokenType>)
    ensures
        k == single_char_kind(c),
{
    match c {
        '+' => Some(TokenType::Operator(Operator::Plus)),
        '-' => Some(TokenType::Operator(Operator::Minus)),
        '*' => Some(TokenType::Operator(Operator::Mul)),
        '/' => Some(TokenType::Operator(Operator::Div)),
        '<' => Some(TokenType::Operator(Operator::Lt)),
        '>' => Some(TokenType::Operator(Operator::Gt)),
        ',' => Some(TokenType::Delimiter(Delimiter::Comma)),
        ';' => Some(TokenType::Delimiter(Delimiter::SemiColon)),
        '(' => Some(TokenType::Paren(Paren::LParen)),
        ')' => Some(TokenType::Paren(Paren::RParen)),
        '{' => Some(TokenType::Paren(Paren::LBrace)),
        '}' => Some(TokenType::Paren(Paren::RBrace)),
        _ => None,
    }
}

/// A one-character string.
fn char_string(c: char) -> (s: String)
    ensures
        s@ == seq![c],
{
    let mut v: Vec<char> = Vec::new();
    v.push(c);
    proof {
        assert(v@ =~= seq![c]);
    }
    string_from_chars(&v)
}

/// A two-character string.
fn two_char_string(c0: char, c1: char) -> (s: String)
    ensures
        s@ == seq![c0, c1],
{
    let mut v: Vec<char> = Vec::new();
    v.push(c0);
    v.push(c1);
    proof {
        assert(v@ =~= seq![c0, c1]);
    }
    string_from_chars(&v)
}

impl Lexer {
    /// Returns the next token from the input stream and advances the cursor
    /// past it: exactly the token and cursor movement that `spec_next` gives
    /// for the old cursor position.  At the end of the input it returns
    /// `EOF` with an empty literal and leaves the cursor where it is, so
    /// every further call returns `EOF` again.
    pub fn next_token(&mut self) -> (t: Token)
        requires
            old(self).wf(),
        ensures
            final(self).wf(),
            final(self)@.input == old(self)@.input,
            t@ == spec_next(old(self)@.input, old(self)@.pos).token,
            final(self)@.pos == spec_next(old(self)@.input, old(self)@.pos).next,
    {
        let ghost s = self.chars@;
        let ghost pos0 = self.position as int;
        while self.position < self.chars.len() && ws_char(self.chars[self.position])
            invariant
                self.chars@ == s,
                pos0 <= self.position as int <= s.len(),
                skip_ws(s, pos0) == skip_ws(s, self.position as int),
            decreases s.len() - self.position,
        {
            self.position = self.position + 1;
        }
        let ghost p = self.position as int;
        proof {
            assert(skip_ws(s, p) == p);
            assert(skip_ws(s, pos0) == p);
        }
        if self.position == self.chars.len() {
            return Token { token_type: TokenType::Special(Special::EOF), literal: String::new() };
        }
        let c = self.chars[self.position];
        if c == '=' {
            if self.position + 1 < self.chars.len() && self.chars[self.position + 1] == '=' {
                self.position = self.position + 2;
                Token {
                    token_type: TokenType::Operator(Operator::Eq),
                    literal: two_char_string('=', '='),
                }
            } else {
                self.position = self.position + 1;
                Token {
                    token_type: TokenType::Operator(Operator::Assign),
                    literal: char_string('='),
                }
            }
        } else if c == '!' {
            if self.position + 1 < self.chars.len() && self.chars[self.position + 1] == '=' {
                self.position = self.position + 2;
                Token {
                    token_type: TokenType::Operator(Operator::NotEq),
                    literal: two_char_string('!', '='),
                }
            } else {
                self.position = self.position + 1;
                Token {
                    token_type: TokenType::Operator(Operator::Not),
                    literal: char_string('!'),
                }
            }
        } else {
            match single_kind(c) {
                Some(k) => {
                    self.position = self.position + 1;
                    Token { token_type: k, literal: char_string(c) }
                },
                None => {
                    if word_char(c) {
                        let start = self.position;
                        let mut lex: Vec<char> = Vec::new();
                        while self.position < self.chars.len() && word_char(
                            self.chars[self.position],
                        )
                            invariant
                                self.chars@ == s,
                                start as int <= self.position as int <= s.len(),
                                lex@ == s.subrange(start as int, self.position as int),
                                word_end(s, start as int) == word_end(s, self.position as int),
                            decreases s.len() - self.position,
                        {
                            lex.push(self.chars[self.position]);
                            self.position = self.position + 1;
                            proof {
                                assert(lex@ =~= s.subrange(start as int, self.position as int));
                            }
                        }
                        proof {
                            assert(word_end(s, self.position as int) == self.position as int);
                        }
                        let kind = crate::token::classify_chars(&lex);
                        let literal = string_from_chars(&lex);
                        Token { token_type: kind, literal }
                    } else {
                        self.position = self.position + 1;
                        Token {
                            token_type: TokenType::Special(Special::Illegal),
                            literal: String::new(),
                        }
                    }
                },
            }
        }
    }
}

/// The whole token stream of `input`, `EOF` token included: `next_token`
/// driven from offset zero until it returns `EOF`.  That this function
/// terminates on every input, with the stream `spec_tokens` gives, is the
/// scanner's totality.
pub fn tokenize(input: String) -> (toks: Vec<Token>)
    ensures
        toks@.map_values(|t: Token| t@) == spec_tokens(input@, 0),
{
    let ghost s = input@;
    let mut lx = new(input);
    let mut toks: Vec<Token> = Vec::new();
    let mut done = false;
    while !done
        invariant
            lx.wf(),
            lx@.input == s,
            !done ==> toks@.map_values(|t: Token| t@) + spec_tokens(s, lx@.pos) == spec_tokens(
                s,
                0,
            ),
            done ==> toks@.map_values(|t: Token| t@) == spec_tokens(s, 0),
        decreases s.len() - lx@.pos + (if done {
            0int
        } else {
            1int
        }),
    {
        let ghost pos0 = lx@.pos;
        let t = lx.next_token();
        proof {
            lemma_next_bounds(s, pos0);
        }
        let is_eof = matches!(t.token_type, TokenType::Special(Special::EOF));
        let ghost old_toks = toks@;
        toks.push(t);
        proof {
            assert(toks@.map_values(|t: Token| t@) =~= old_toks.map_values(|t: Token| t@).push(
                t@,
            ));
        }
        if is_eof {
            done = true;
            proof {
                assert(spec_tokens(s, pos0) =~= seq![t@]);
                assert(old_toks.map_values(|t: Token| t@).push(t@) =~= old_toks.map_values(
                    |t: Token| t@,
                ) + seq![t@]);
            }
        } else {
            proof {
                assert(spec_tokens(s, pos0) =~= seq![t@] + spec_tokens(s, lx@.pos));
                assert(old_toks.map_values(|t: Token| t@).push(t@) + spec_tokens(s, lx@.pos)
                    =~= old_toks.map_values(|t: Token| t@) + spec_tokens(s, pos0));
            }
        }
    }
    toks
}

} // verus!
