use monkey_lexer::lexer;
use monkey_lexer::token::Delimiter;
use monkey_lexer::token::KeyWord;
use monkey_lexer::token::Operator;
use monkey_lexer::token::Paren;
use monkey_lexer::token::Special;
use monkey_lexer::token::Token;
use monkey_lexer::token::TokenType;
use monkey_lexer::token::Value;

#[test]
fn next_token() {
    let input = "
let five = 5;
let ten = 10;

let add = fn(x, y) {
    x + y;
};

let result = add(five, ten);
!-/*5;
5 < 10 > 5;

if (5 < 10) {
    return true;
} else {
    return false;
}

10 == 10;
10 != 9;
";

    let expected = vec![
        (TokenType::KeyWord(KeyWord::Let), "let"),
        (TokenType::Value(Value::Ident), "five"),
        (TokenType::Operator(Operator::Assign), "="),
        (TokenType::Value(Value::Int), "5"),
        (TokenType::Delimiter(Delimiter::SemiColon), ";"),
        (TokenType::KeyWord(KeyWord::Let), "let"),
        (TokenType::Value(Value::Ident), "ten"),
        (TokenType::Operator(Operator::Assign), "="),
        (TokenType::Value(Value::Int), "10"),
        (TokenType::Delimiter(Delimiter::SemiColon), ";"),
        (TokenType::KeyWord(KeyWord::Let), "let"),
        (TokenType::Value(Value::Ident), "add"),
        (TokenType::Operator(Operator::Assign), "="),
        (TokenType::KeyWord(KeyWord::Function), "fn"),
        (TokenType::Paren(Paren::LParen), "("),
        (TokenType::Value(Value::Ident), "x"),
        (TokenType::Delimiter(Delimiter::Comma), ","),
        (TokenType::Value(Value::Ident), "y"),
        (TokenType::Paren(Paren::RParen), ")"),
        (TokenType::Paren(Paren::LBrace), "{"),
        (TokenType::Value(Value::Ident), "x"),
        (TokenType::Operator(Operator::Plus), "+"),
        (TokenType::Value(Value::Ident), "y"),
        (TokenType::Delimiter(Delimiter::SemiColon), ";"),
        (TokenType::Paren(Paren::RBrace), "}"),
        (TokenType::Delimiter(Delimiter::SemiColon), ";"),
        (TokenType::KeyWord(KeyWord::Let), "let"),
        (TokenType::Value(Value::Ident), "result"),
        (TokenType::Operator(Operator::Assign), "="),
        (TokenType::Value(Value::Ident), "add"),
        (TokenType::Paren(Paren::LParen), "("),
        (TokenType::Value(Value::Ident), "five"),
        (TokenType::Delimiter(Delimiter::Comma), ","),
        (TokenType::Value(Value::Ident), "ten"),
        (TokenType::Paren(Paren::RParen), ")"),
        (TokenType::Delimiter(Delimiter::SemiColon), ";"),
        (TokenType::Operator(Operator::Not), "!"),
        (TokenType::Operator(Operator::Minus), "-"),
        (TokenType::Operator(Operator::Div), "/"),
        (TokenType::Operator(Operator::Mul), "*"),
        (TokenType::Value(Value::Int), "5"),
        (TokenType::Delimiter(Delimiter::SemiColon), ";"),
        (TokenType::Value(Value::Int), "5"),
        (TokenType::Operator(Operator::Lt), "<"),
        (TokenType::Value(Value::Int), "10"),
        (TokenType::Operator(Operator::Gt), ">"),
        (TokenType::Value(Value::Int), "5"),
        (TokenType::Delimiter(Delimiter::SemiColon), ";"),
        (TokenType::KeyWord(KeyWord::If), "if"),
        (TokenType::Paren(Paren::LParen), "("),
        (TokenType::Value(Value::Int), "5"),
        (TokenType::Operator(Operator::Lt), "<"),
        (TokenType::Value(Value::Int), "10"),
        (TokenType::Paren(Paren::RParen), ")"),
        (TokenType::Paren(Paren::LBrace), "{"),
        (TokenType::KeyWord(KeyWord::Return), "return"),
        (TokenType::KeyWord(KeyWord::True), "true"),
        (TokenType::Delimiter(Delimiter::SemiColon), ";"),
        (TokenType::Paren(Paren::RBrace), "}"),
        (TokenType::KeyWord(KeyWord::Else), "else"),
        (TokenType::Paren(Paren::LBrace), "{"),
        (TokenType::KeyWord(KeyWord::Return), "return"),
        (TokenType::KeyWord(KeyWord::False), "false"),
        (TokenType::Delimiter(Delimiter::SemiColon), ";"),
        (TokenType::Paren(Paren::RBrace), "}"),
        (TokenType::Value(Value::Int), "10"),
        (TokenType::Operator(Operator::Eq), "=="),
        (TokenType::Value(Value::Int), "10"),
        (TokenType::Delimiter(Delimiter::SemiColon), ";"),
        (TokenType::Value(Value::Int), "10"),
        (TokenType::Operator(Operator::NotEq), "!="),
        (TokenType::Value(Value::Int), "9"),
        (TokenType::Delimiter(Delimiter::SemiColon), ";"),
        (TokenType::Special(Special::EOF), ""),
    ];

    let mut lexer = lexer::new(input.to_string());
    for (token_type, literal) in expected {
        assert_eq!(
            lexer.next_token(),
            Token {
                token_type,
                literal: literal.to_string(),
            }
        );
    }
}
