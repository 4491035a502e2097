//! The token model: the closed taxonomy of token kinds, the token record
//! (kind plus literal text), and the classifier that maps a word lexeme to
//! a keyword, an integer literal or an identifier.

use vstd::prelude::*;

verus! {

use vstd::std_specs::iter::IteratorSpec;

/// Sentinel kinds: an unrecognized character, or the end of the input.
#[derive(Debug, PartialEq, Eq, Structural, Clone, Copy)]
pub enum Special {
    Illegal,
    EOF,
}

/// Value-carrying kinds: identifiers and integer literals.
#[derive(Debug, PartialEq, Eq, Structural, Clone, Copy)]
pub enum Value {
    Ident,
    Int,
}

/// Operator kinds, one per operator surface form.
#[derive(Debug, PartialEq, Eq, Structural, Clone, Copy)]
pub enum Operator {
    Assign,
    Plus,
    Minus,
    Mul,
    Div,
    Lt,
    Gt,
    Eq,
    NotEq,
    Not,
}

/// Delimiter kinds.
#[derive(Debug, PartialEq, Eq, Structural, Clone, Copy)]
pub enum Delimiter {
    Comma,
    SemiColon,
}

/// Parenthesis and brace kinds.
#[derive(Debug, PartialEq, Eq, Structural, Clone, Copy)]
pub enum Paren {
    /// (
    LParen,
    /// )
    RParen,
    /// {
    LBrace,
    /// }
    RBrace,
}

/// The reserved words of the language.
#[derive(Debug, PartialEq, Eq, Structural, Clone, Copy)]
pub enum KeyWord {
    Function,
    Let,
    True,
    False,
    If,
    Else,
    Return,
}

/// A token's kind: one closed tagged union over the six categories.
#[derive(Debug, PartialEq, Eq, Structural, Clone, Copy)]
pub enum TokenType {
    Special(Special),
    Value(Value),
    Operator(Operator),
    Delimiter(Delimiter),
    Paren(Paren),
    KeyWord(KeyWord),
}

/// A token: a kind together with the literal text it covers.  The literal is
/// the exact matched substring of the input, and is empty for `EOF` and
/// `Illegal`.
#[derive(Debug)]
pub struct Token {
    pub token_type: TokenType,
    pub literal: String,
}

/// The mathematical image of a token: its kind and its literal text as a
/// character sequence.
pub ghost struct SpecToken {
    pub kind: TokenType,
    pub text: Seq<char>,
}

impl View for Token {
    type V = SpecToken;

    open spec fn view(&self) -> SpecToken {
        SpecToken { kind: self.token_type, text: self.literal@ }
    }
}

impl PartialEq for Token {
    /// Tokens compare structurally: same kind and same literal text.
    fn eq(&self, other: &Token) -> (r: bool) {
        self.token_type == other.token_type && self.literal == other.literal
    }
}

impl vstd::std_specs::cmp::PartialEqSpecImpl for Token {
    open spec fn obeys_eq_spec() -> bool {
        true
    }

    open spec fn eq_spec(&self, other: &Token) -> bool {
        self.token_type == other.token_type && self.literal@ == other.literal@
    }
}

/// An ASCII decimal digit.
pub open spec fn is_digit_char(c: char) -> bool {
    '0' <= c && c <= '9'
}

/// A word character: the class `[0-9A-Za-z_]` that forms identifiers,
/// integer literals and keywords.
pub open spec fn is_word_char(c: char) -> bool {
    is_digit_char(c) || ('a' <= c && c <= 'z') || ('A' <= c && c <= 'Z') || c == '_'
}

/// The reserved word that a lexeme spells, if any.
pub open spec fn spec_keyword(w: Seq<char>) -> Option<KeyWord> {
    if w == seq!['f', 'n'] {
        Some(KeyWord::Function)
    } else if w == seq!['l', 'e', 't'] {
        Some(KeyWord::Let)
    } else if w == seq!['t', 'r', 'u', 'e'] {
        Some(KeyWord::True)
    } else if w == seq!['f', 'a', 'l', 's', 'e'] {
        Some(KeyWord::False)
    } else if w == seq!['i', 'f'] {
        Some(KeyWord::If)
    } else if w == seq!['e', 'l', 's', 'e'] {
        Some(KeyWord::Else)
    } else if w == seq!['r', 'e', 't', 'u', 'r', 'n'] {
        Some(KeyWord::Return)
    } else {
        None
    }
}

/// A non-empty all-digit lexeme: the surface form of an integer literal.
pub open spec fn is_int_lexeme(w: Seq<char>) -> bool {
    w.len() > 0 && forall|i: int| 0 <= i < w.len() ==> is_digit_char(#[trigger] w[i])
}

/// What kind a word lexeme has: a reserved word wins, then a non-empty
/// all-digit lexeme is an integer literal, and anything else is an
/// identifier.
pub open spec fn spec_classify(w: Seq<char>) -> TokenType {
    match spec_keyword(w) {
        Some(k) => TokenType::KeyWord(k),
        None => if is_int_lexeme(w) {
            TokenType::Value(Value::Int)
        } else {
            TokenType::Value(Value::Ident)
        },
    }
}

/// Classifies a word lexeme given as a character vector.
pub(crate) fn classify_chars(w: &Vec<char>) -> (t: TokenType)
    ensures
        t == spec_classify(w@),
{
    if w.len() == 2 && w[0] == 'f' && w[1] == 'n' {
        proof {
            assert(w@ =~= seq!['f', 'n']);
        }
        return TokenType::KeyWord(KeyWord::Function);
    }
    if w.len() == 3 && w[0] == 'l' && w[1] == 'e' && w[2] == 't' {
        proof {
            assert(w@ =~= seq!['l', 'e', 't']);
        }
        return TokenType::KeyWord(KeyWord::Let);
    }
    if w.len() == 4 && w[0] == 't' && w[1] == 'r' && w[2] == 'u' && w[3] == 'e' {
        proof {
            assert(w@ =~= seq!['t', 'r', 'u', 'e']);
        }
        return TokenType::KeyWord(KeyWord::True);
    }
    if w.len() == 5 && w[0] == 'f' && w[1] == 'a' && w[2] == 'l' && w[3] == 's' && w[4] == 'e' {
        proof {
            assert(w@ =~= seq!['f', 'a', 'l', 's', 'e']);
        }
        return TokenType::KeyWord(KeyWord::False);
    }
    if w.len() == 2 && w[0] == 'i' && w[1] == 'f' {
        proof {
            assert(w@ =~= seq!['i', 'f']);
        }
        return TokenType::KeyWord(KeyWord::If);
    }
    if w.len() == 4 && w[0] == 'e' && w[1] == 'l' && w[2] == 's' && w[3] == 'e' {
        proof {
            assert(w@ =~= seq!['e', 'l', 's', 'e']);
        }
        return TokenType::KeyWord(KeyWord::Else);
    }
    if w.len() == 6 && w[0] == 'r' && w[1] == 'e' && w[2] == 't' && w[3] == 'u' && w[4] == 'r'
        && w[5] == 'n' {
        proof {
            assert(w@ =~= seq!['r', 'e', 't', 'u', 'r', 'n']);
        }
        return TokenType::KeyWord(KeyWord::Return);
    }
    proof {
        assert(spec_keyword(w@) is None) by {
            assert(w@ != seq!['f', 'n']);
            assert(w@ != seq!['l', 'e', 't']);
            assert(w@ != seq!['t', 'r', 'u', 'e']);
            assert(w@ != seq!['f', 'a', 'l', 's', 'e']);
            assert(w@ != seq!['i', 'f']);
            assert(w@ != seq!['e', 'l', 's', 'e']);
            assert(w@ != seq!['r', 'e', 't', 'u', 'r', 'n']);
        }
    }
    if w.len() == 0 {
        return TokenType::Value(Value::Ident);
    }
    let mut i: usize = 0;
    while i < w.len()
        invariant
            0 <= i <= w@.len(),
            forall|j: int| 0 <= j < i ==> is_digit_char(#[trigger] w@[j]),
            spec_keyword(w@) is None,
            w@.len() > 0,
        decreases w@.len() - i,
    {
        let c = w[i];
        if !('0' <= c && c <= '9') {
            return TokenType::Value(Value::Ident);
        }
        i = i + 1;
    }
    TokenType::Value(Value::Int)
}

/// Converts a string to the vector of its characters, in order.
pub(crate) fn chars_of(s: &str) -> (r: Vec<char>)
    ensures
        r@ == s@,
{
    broadcast use vstd::string::next_postcondition;
    broadcast use vstd::string::axiom_spec_iter;

    let mut it = s.chars();
    let mut r: Vec<char> = Vec::new();
    loop
        invariant
            it.obeys_prophetic_iter_laws(),
            it.decrease() is Some,
            r@ + it.remaining() == s@,
        ensures
            r@ == s@,
        decreases it.decrease()->0,
    {
        match it.next() {
            Some(c) => {
                r.push(c);
            },
            None => {
                proof {
                    assert(r@ =~= r@ + it.remaining());
                }
                break;
            },
        }
    }
    r
}

/// Classifies a word lexeme: the matching reserved word's kind if the lexeme
/// spells one, `Int` if it is non-empty and all decimal digits, and `Ident`
/// otherwise.
pub fn get_token_type(literal: &String) -> (t: TokenType)
    ensures
        t == spec_classify(literal@),
{
    let cs = chars_of(literal.as_str());
    classify_chars(&cs)
}

} // verus!
