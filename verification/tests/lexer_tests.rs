use monkey_lang_lib::lexer::Lexer;
use monkey_lang_lib::token::Token;

#[test]
fn test_lexer1() {
    let input = "=+(){},;";
    let result = Lexer::lex_tokens(input).unwrap();
    let expected_results = vec![
        Token::Assign,
        Token::Plus,
        Token::LParen,
        Token::RParen,
        Token::LBrace,
        Token::RBrace,
        Token::Comma,
        Token::SemiColon,
        Token::EOF,
    ];

    assert_eq!(result, expected_results);
}

#[test]
fn test_lexer2() {
    let input = "let five = 5;\
            let ten = 10;\
            let add = fn(x, y) {\
                x + y;\
            };\
            let result = add(five, ten);";

    let result = Lexer::lex_tokens(input).unwrap();

    let expected_results = vec![
        Token::Let,
        Token::Ident("five".to_string()),
        Token::Assign,
        Token::IntLiteral(5),
        Token::SemiColon,
        Token::Let,
        Token::Ident("ten".to_string()),
        Token::Assign,
        Token::IntLiteral(10),
        Token::SemiColon,
        Token::Let,
        Token::Ident("add".to_string()),
        Token::Assign,
        Token::Function,
        Token::LParen,
        Token::Ident("x".to_string()),
        Token::Comma,
        Token::Ident("y".to_string()),
        Token::RParen,
        Token::LBrace,
        Token::Ident("x".to_string()),
        Token::Plus,
        Token::Ident("y".to_string()),
        Token::SemiColon,
        Token::RBrace,
        Token::SemiColon,
        Token::Let,
        Token::Ident("result".to_string()),
        Token::Assign,
        Token::Ident("add".to_string()),
        Token::LParen,
        Token::Ident("five".to_string()),
        Token::Comma,
        Token::Ident("ten".to_string()),
        Token::RParen,
        Token::SemiColon,
        Token::EOF,
    ];

    assert_eq!(result, expected_results);
}

#[test]
fn test_lexer3() {
    let input = "if (a == 10) {\
                return a;\
             } else if (a != 20) {\
                return !a;\
            } else if (a > 20) {\
                return -30 / 40 * 50;\
            } else if (a < 30) {\
                return true;\
            }\
            return false;\
            ";

    let result = Lexer::lex_tokens(input).unwrap();

    let expected_results = vec![
        Token::If,
        Token::LParen,
        Token::Ident("a".to_owned()),
        Token::Equal,
        Token::IntLiteral(10),
        Token::RParen,
        Token::LBrace,
        Token::Return,
        Token::Ident("a".to_owned()),
        Token::SemiColon,
        Token::RBrace,
        Token::Else,
        Token::If,
        Token::LParen,
        Token::Ident("a".to_owned()),
        Token::NotEqual,
        Token::IntLiteral(20),
        Token::RParen,
        Token::LBrace,
        Token::Return,
        Token::Not,
        Token::Ident("a".to_owned()),
        Token::SemiColon,
        Token::RBrace,
        Token::Else,
        Token::If,
        Token::LParen,
        Token::Ident("a".to_owned()),
        Token::GreaterThan,
        Token::IntLiteral(20),
        Token::RParen,
        Token::LBrace,
        Token::Return,
        Token::Minus,
        Token::IntLiteral(30),
        Token::Divide,
        Token::IntLiteral(40),
        Token::Multiply,
        Token::IntLiteral(50),
        Token::SemiColon,
        Token::RBrace,
        Token::Else,
        Token::If,
        Token::LParen,
        Token::Ident("a".to_owned()),
        Token::LessThan,
        Token::IntLiteral(30),
        Token::RParen,
        Token::LBrace,
        Token::Return,
        Token::BoolLiteral(true),
        Token::SemiColon,
        Token::RBrace,
        Token::Return,
        Token::BoolLiteral(false),
        Token::SemiColon,
        Token::EOF,
    ];

    assert_eq!(result, expected_results);
}

#[test]
fn string_literals() {
    let result = Lexer::lex_tokens("\"foobar\"").unwrap();
    assert_eq!(
        result,
        vec![Token::StringLiteral("foobar".to_owned()), Token::EOF]
    );

    let result = Lexer::lex_tokens("\"foo bar\"").unwrap();
    assert_eq!(
        result,
        vec![Token::StringLiteral("foo bar".to_owned()), Token::EOF]
    );

    let result = Lexer::lex_tokens("\"foo\nbar\"").unwrap();
    assert_eq!(
        result,
        vec![Token::StringLiteral("foo\nbar".to_owned()), Token::EOF]
    );

    let result = Lexer::lex_tokens("\"foo\tbar\"").unwrap();
    assert_eq!(
        result,
        vec![Token::StringLiteral("foo\tbar".to_owned()), Token::EOF]
    );

    let result = Lexer::lex_tokens("\"foo\\\"bar\"").unwrap();
    assert_eq!(
        result,
        vec![Token::StringLiteral("foo\"bar".to_owned()), Token::EOF]
    );

    let result = Lexer::lex_tokens("\"foo\\\"bar with \u{1f496} emojis\"").unwrap();
    assert_eq!(
        result,
        vec![
            Token::StringLiteral("foo\"bar with \u{1f496} emojis".to_owned()),
            Token::EOF
        ]
    );
}

#[test]
fn id_with_numbers() {
    let result = Lexer::lex_tokens("hello2 hel301oo120").unwrap();
    let expected = vec![
        Token::Ident("hello2".to_owned()),
        Token::Ident("hel301oo120".to_owned()),
        Token::EOF,
    ];
    assert_eq!(result, expected);
}

#[test]
fn array_tokens() {
    let result = Lexer::lex_tokens("[1, 2];").unwrap();
    let expected = vec![
        Token::LBracket,
        Token::IntLiteral(1),
        Token::Comma,
        Token::IntLiteral(2),
        Token::RBracket,
        Token::SemiColon,
        Token::EOF,
    ];
    assert_eq!(result, expected);
}

#[test]
fn hash_tokens() {
    let result = Lexer::lex_tokens("{\"hello\": \"world\"}").unwrap();
    let expected = vec![
        Token::LBrace,
        Token::StringLiteral("hello".to_owned()),
        Token::Colon,
        Token::StringLiteral("world".to_owned()),
        Token::RBrace,
        Token::EOF,
    ];
    assert_eq!(result, expected);
}

#[test]
fn lexer_rejects_unterminated_string() {
    assert!(Lexer::lex_tokens("\"abc").is_none());
}

#[test]
fn lexer_rejects_huge_integer() {
    assert!(Lexer::lex_tokens("92233720368547758079").is_none());
}

#[test]
fn lexer_marks_illegal_character() {
    let result = Lexer::lex_tokens("@").unwrap();
    assert_eq!(result, vec![Token::Illegal, Token::EOF]);
}

#[test]
fn lexer_max_integer() {
    let result = Lexer::lex_tokens("9223372036854775807").unwrap();
    assert_eq!(result, vec![Token::IntLiteral(i64::MAX), Token::EOF]);
}
