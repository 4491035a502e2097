use monkey_lexer::get_token_type;
use monkey_lexer::lexer;
use monkey_lexer::tokenize;
use monkey_lexer::Delimiter;
use monkey_lexer::KeyWord;
use monkey_lexer::Operator;
use monkey_lexer::Paren;
use monkey_lexer::Special;
use monkey_lexer::Token;
use monkey_lexer::TokenType;
use monkey_lexer::Value;

fn pairs(input: &str) -> Vec<(TokenType, String)> {
    tokenize(input.to_string())
        .into_iter()
        .map(|t| (t.token_type, t.literal))
        .collect()
}

fn tok(token_type: TokenType, literal: &str) -> (TokenType, String) {
    (token_type, literal.to_string())
}

#[test]
fn scenario_let_statement() {
    assert_eq!(
        pairs("let x = 5;"),
        vec![
            tok(TokenType::KeyWord(KeyWord::Let), "let"),
            tok(TokenType::Value(Value::Ident), "x"),
            tok(TokenType::Operator(Operator::Assign), "="),
            tok(TokenType::Value(Value::Int), "5"),
            tok(TokenType::Delimiter(Delimiter::SemiColon), ";"),
            tok(TokenType::Special(Special::EOF), ""),
        ]
    );
}

#[test]
fn scenario_punctuation_run() {
    assert_eq!(
        pairs("=+(){},;"),
        vec![
            tok(TokenType::Operator(Operator::Assign), "="),
            tok(TokenType::Operator(Operator::Plus), "+"),
            tok(TokenType::Paren(Paren::LParen), "("),
            tok(TokenType::Paren(Paren::RParen), ")"),
            tok(TokenType::Paren(Paren::LBrace), "{"),
            tok(TokenType::Paren(Paren::RBrace), "}"),
            tok(TokenType::Delimiter(Delimiter::Comma), ","),
            tok(TokenType::Delimiter(Delimiter::SemiColon), ";"),
            tok(TokenType::Special(Special::EOF), ""),
        ]
    );
}

#[test]
fn scenario_operator_run() {
    assert_eq!(
        pairs("!-/*5;"),
        vec![
            tok(TokenType::Operator(Operator::Not), "!"),
            tok(TokenType::Operator(Operator::Minus), "-"),
            tok(TokenType::Operator(Operator::Div), "/"),
            tok(TokenType::Operator(Operator::Mul), "*"),
            tok(TokenType::Value(Value::Int), "5"),
            tok(TokenType::Delimiter(Delimiter::SemiColon), ";"),
            tok(TokenType::Special(Special::EOF), ""),
        ]
    );
}

#[test]
fn scenario_comparisons() {
    assert_eq!(
        pairs("5 < 10 > 5;"),
        vec![
            tok(TokenType::Value(Value::Int), "5"),
            tok(TokenType::Operator(Operator::Lt), "<"),
            tok(TokenType::Value(Value::Int), "10"),
            tok(TokenType::Operator(Operator::Gt), ">"),
            tok(TokenType::Value(Value::Int), "5"),
            tok(TokenType::Delimiter(Delimiter::SemiColon), ";"),
            tok(TokenType::Special(Special::EOF), ""),
        ]
    );
}

#[test]
fn scenario_if_else() {
    assert_eq!(
        pairs("if (x == 10) { return true; } else { return false; }"),
        vec![
            tok(TokenType::KeyWord(KeyWord::If), "if"),
            tok(TokenType::Paren(Paren::LParen), "("),
            tok(TokenType::Value(Value::Ident), "x"),
            tok(TokenType::Operator(Operator::Eq), "=="),
            tok(TokenType::Value(Value::Int), "10"),
            tok(TokenType::Paren(Paren::RParen), ")"),
            tok(TokenType::Paren(Paren::LBrace), "{"),
            tok(TokenType::KeyWord(KeyWord::Return), "return"),
            tok(TokenType::KeyWord(KeyWord::True), "true"),
            tok(TokenType::Delimiter(Delimiter::SemiColon), ";"),
            tok(TokenType::Paren(Paren::RBrace), "}"),
            tok(TokenType::KeyWord(KeyWord::Else), "else"),
            tok(TokenType::Paren(Paren::LBrace), "{"),
            tok(TokenType::KeyWord(KeyWord::Return), "return"),
            tok(TokenType::KeyWord(KeyWord::False), "false"),
            tok(TokenType::Delimiter(Delimiter::SemiColon), ";"),
            tok(TokenType::Paren(Paren::RBrace), "}"),
            tok(TokenType::Special(Special::EOF), ""),
        ]
    );
}

#[test]
fn scenario_not_equal() {
    assert_eq!(
        pairs("10 != 9;"),
        vec![
            tok(TokenType::Value(Value::Int), "10"),
            tok(TokenType::Operator(Operator::NotEq), "!="),
            tok(TokenType::Value(Value::Int), "9"),
            tok(TokenType::Delimiter(Delimiter::SemiColon), ";"),
            tok(TokenType::Special(Special::EOF), ""),
        ]
    );
}

#[test]
fn scenario_illegal_character() {
    assert_eq!(
        pairs("@"),
        vec![
            tok(TokenType::Special(Special::Illegal), ""),
            tok(TokenType::Special(Special::EOF), ""),
        ]
    );
}

#[test]
fn empty_input_is_eof() {
    assert_eq!(pairs(""), vec![tok(TokenType::Special(Special::EOF), "")]);
}

#[test]
fn eof_is_idempotent() {
    let mut l = lexer::new("x".to_string());
    assert_eq!(
        l.next_token(),
        Token {
            token_type: TokenType::Value(Value::Ident),
            literal: "x".to_string(),
        }
    );
    for _ in 0..5 {
        assert_eq!(
            l.next_token(),
            Token {
                token_type: TokenType::Special(Special::EOF),
                literal: "".to_string(),
            }
        );
    }
}

#[test]
fn assign_at_end_of_input() {
    assert_eq!(
        pairs("x ="),
        vec![
            tok(TokenType::Value(Value::Ident), "x"),
            tok(TokenType::Operator(Operator::Assign), "="),
            tok(TokenType::Special(Special::EOF), ""),
        ]
    );
}

#[test]
fn not_at_end_of_input() {
    assert_eq!(
        pairs("!"),
        vec![
            tok(TokenType::Operator(Operator::Not), "!"),
            tok(TokenType::Special(Special::EOF), ""),
        ]
    );
}

#[test]
fn two_char_operators_are_greedy() {
    assert_eq!(
        pairs("== != = = ! ="),
        vec![
            tok(TokenType::Operator(Operator::Eq), "=="),
            tok(TokenType::Operator(Operator::NotEq), "!="),
            tok(TokenType::Operator(Operator::Assign), "="),
            tok(TokenType::Operator(Operator::Assign), "="),
            tok(TokenType::Operator(Operator::Not), "!"),
            tok(TokenType::Operator(Operator::Assign), "="),
            tok(TokenType::Special(Special::EOF), ""),
        ]
    );
}

#[test]
fn keywords_alone_and_with_affixes() {
    let keywords = vec![
        ("fn", KeyWord::Function),
        ("let", KeyWord::Let),
        ("true", KeyWord::True),
        ("false", KeyWord::False),
        ("if", KeyWord::If),
        ("else", KeyWord::Else),
        ("return", KeyWord::Return),
    ];
    for (word, kind) in keywords {
        assert_eq!(
            pairs(word),
            vec![
                tok(TokenType::KeyWord(kind), word),
                tok(TokenType::Special(Special::EOF), ""),
            ]
        );
        let appended = format!("{}x", word);
        assert_eq!(
            pairs(&appended),
            vec![
                tok(TokenType::Value(Value::Ident), &appended),
                tok(TokenType::Special(Special::EOF), ""),
            ]
        );
        let prepended = format!("_{}", word);
        assert_eq!(
            pairs(&prepended),
            vec![
                tok(TokenType::Value(Value::Ident), &prepended),
                tok(TokenType::Special(Special::EOF), ""),
            ]
        );
        let digit_appended = format!("{}2", word);
        assert_eq!(
            pairs(&digit_appended),
            vec![
                tok(TokenType::Value(Value::Ident), &digit_appended),
                tok(TokenType::Special(Special::EOF), ""),
            ]
        );
    }
}

#[test]
fn all_digit_word_is_int_and_mixed_word_is_ident() {
    assert_eq!(
        pairs("123"),
        vec![
            tok(TokenType::Value(Value::Int), "123"),
            tok(TokenType::Special(Special::EOF), ""),
        ]
    );
    assert_eq!(
        pairs("123abc"),
        vec![
            tok(TokenType::Value(Value::Ident), "123abc"),
            tok(TokenType::Special(Special::EOF), ""),
        ]
    );
    assert_eq!(
        pairs("_foo x1"),
        vec![
            tok(TokenType::Value(Value::Ident), "_foo"),
            tok(TokenType::Value(Value::Ident), "x1"),
            tok(TokenType::Special(Special::EOF), ""),
        ]
    );
}

#[test]
fn minus_before_digits_is_two_tokens() {
    assert_eq!(
        pairs("-7"),
        vec![
            tok(TokenType::Operator(Operator::Minus), "-"),
            tok(TokenType::Value(Value::Int), "7"),
            tok(TokenType::Special(Special::EOF), ""),
        ]
    );
}

#[test]
fn illegal_advances_one_character() {
    assert_eq!(
        pairs("@5 #? x"),
        vec![
            tok(TokenType::Special(Special::Illegal), ""),
            tok(TokenType::Value(Value::Int), "5"),
            tok(TokenType::Special(Special::Illegal), ""),
            tok(TokenType::Special(Special::Illegal), ""),
            tok(TokenType::Value(Value::Ident), "x"),
            tok(TokenType::Special(Special::EOF), ""),
        ]
    );
}

#[test]
fn whitespace_between_tokens_is_transparent() {
    let plain = pairs("let x = 5;");
    let padded = pairs(" \t let\nx\r\n=    5\t;  \n");
    assert_eq!(plain, padded);
}

#[test]
fn token_stream_ends_with_single_eof() {
    let inputs = vec!["", "a + b", "@@@", "   ", "fn(x){x;}"];
    for input in inputs {
        let toks = tokenize(input.to_string());
        assert!(toks.len() >= 1);
        assert!(toks.len() <= input.len() + 1);
        let last = toks.last().unwrap();
        assert_eq!(last.token_type, TokenType::Special(Special::EOF));
        assert_eq!(last.literal, "");
        for t in &toks[..toks.len() - 1] {
            assert_ne!(t.token_type, TokenType::Special(Special::EOF));
        }
    }
}

#[test]
fn classify_keywords_ints_and_idents() {
    assert_eq!(
        get_token_type(&"fn".to_string()),
        TokenType::KeyWord(KeyWord::Function)
    );
    assert_eq!(
        get_token_type(&"return".to_string()),
        TokenType::KeyWord(KeyWord::Return)
    );
    assert_eq!(get_token_type(&"0".to_string()), TokenType::Value(Value::Int));
    assert_eq!(get_token_type(&"007".to_string()), TokenType::Value(Value::Int));
    assert_eq!(
        get_token_type(&"a0".to_string()),
        TokenType::Value(Value::Ident)
    );
    assert_eq!(
        get_token_type(&"Fn".to_string()),
        TokenType::Value(Value::Ident)
    );
}

#[test]
fn non_ascii_character_is_illegal() {
    assert_eq!(
        pairs("é"),
        vec![
            tok(TokenType::Special(Special::Illegal), ""),
            tok(TokenType::Special(Special::EOF), ""),
        ]
    );
}
