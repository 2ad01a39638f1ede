use viskum::lexer::Lexer;
use viskum::token::token_type::TokenType;
use viskum::token::Token;
use viskum::util::general::{is_alphabetic, is_digit};

fn scan_all(source: &str) -> Vec<(TokenType, String, usize)> {
    let mut lexer = Lexer::new(source);
    let mut tokens = Vec::new();
    loop {
        let token = lexer.scan_token();
        let end = token.is(TokenType::TokenEof);
        tokens.push((token.get_token_type().clone(), token.get_lexeme(source), token.get_line()));
        if end {
            return tokens;
        }
    }
}

fn kinds(source: &str) -> Vec<TokenType> {
    scan_all(source).into_iter().map(|t| t.0).collect()
}

fn error(message: &str) -> TokenType {
    TokenType::TokenError(message.to_string())
}

#[test]
fn the_end_of_the_source_comes_again_and_again() {
    let mut lexer = Lexer::new("1");
    assert!(lexer.scan_token().is(TokenType::TokenNumber));
    for _ in 0..3 {
        let token = lexer.scan_token();
        assert_eq!(token, Token::new(TokenType::TokenEof, 1, 0, 1));
    }
    let mut lexer = Lexer::new("");
    assert_eq!(lexer.scan_token(), Token::new(TokenType::TokenEof, 0, 0, 1));
}

#[test]
fn punctuation_and_operators() {
    assert_eq!(
        kinds("( ) { } ; , . - + / * ^ ! != = == < <= > >="),
        vec![
            TokenType::TokenLeftParen,
            TokenType::TokenRightParen,
            TokenType::TokenLeftBrace,
            TokenType::TokenRightBrace,
            TokenType::TokenSemicolon,
            TokenType::TokenComma,
            TokenType::TokenDot,
            TokenType::TokenMinus,
            TokenType::TokenPlus,
            TokenType::TokenSlash,
            TokenType::TokenStar,
            TokenType::TokenPower,
            TokenType::TokenBang,
            TokenType::TokenBangEqual,
            TokenType::TokenEqual,
            TokenType::TokenEqualEqual,
            TokenType::TokenLess,
            TokenType::TokenLessEqual,
            TokenType::TokenGreater,
            TokenType::TokenGreaterEqual,
            TokenType::TokenEof
        ]
    );
}

#[test]
fn keywords_and_names() {
    assert_eq!(
        kinds("and class else false for fn if let mut null or print return this true while"),
        vec![
            TokenType::TokenAnd,
            TokenType::TokenClass,
            TokenType::TokenElse,
            TokenType::TokenFalse,
            TokenType::TokenFor,
            TokenType::TokenFn,
            TokenType::TokenIf,
            TokenType::TokenLet,
            TokenType::TokenMutable,
            TokenType::TokenNull,
            TokenType::TokenOr,
            TokenType::TokenPrint,
            TokenType::TokenReturn,
            TokenType::TokenThis,
            TokenType::TokenTrue,
            TokenType::TokenWhile,
            TokenType::TokenEof
        ]
    );
    assert_eq!(
        kinds("andy an fnord f fo nil _x x1 mute \u{e9}t\u{e9} a\u{e9}"),
        vec![
            TokenType::TokenIdentifier,
            TokenType::TokenIdentifier,
            TokenType::TokenIdentifier,
            TokenType::TokenIdentifier,
            TokenType::TokenIdentifier,
            TokenType::TokenIdentifier,
            TokenType::TokenIdentifier,
            TokenType::TokenIdentifier,
            TokenType::TokenIdentifier,
            TokenType::TokenIdentifier,
            TokenType::TokenIdentifier,
            TokenType::TokenEof
        ]
    );
    let tokens = scan_all("a\u{e9}b c");
    assert_eq!(tokens[0].1, "a\u{e9}b");
    assert_eq!(tokens[1].1, "c");
}

#[test]
fn numbers() {
    let tokens = scan_all("12 3.25 4. .5 6.x");
    let lexemes: Vec<&str> = tokens.iter().map(|t| t.1.as_str()).collect();
    assert_eq!(lexemes, vec!["12", "3.25", "4", ".", ".", "5", "6", ".", "x", ""]);
    assert_eq!(tokens[0].0, TokenType::TokenNumber);
    assert_eq!(tokens[1].0, TokenType::TokenNumber);
    assert_eq!(tokens[3].0, TokenType::TokenDot);
}

#[test]
fn blank_text_and_lines() {
    let tokens = scan_all("1 // one\n\t2 /* two\n /* deep */\n */ 3\r\n4");
    let lines: Vec<usize> = tokens.iter().map(|t| t.2).collect();
    let lexemes: Vec<&str> = tokens.iter().map(|t| t.1.as_str()).collect();
    assert_eq!(lexemes, vec!["1", "2", "3", "4", ""]);
    assert_eq!(lines, vec![1, 2, 3, 4, 4]);
    let tokens = scan_all("/* a\nb\n*/ 1 /* c */ 2");
    let lines: Vec<usize> = tokens.iter().map(|t| t.2).collect();
    assert_eq!(lines, vec![3, 3, 3]);
    assert_eq!(kinds("1 / 2"), vec![
        TokenType::TokenNumber,
        TokenType::TokenSlash,
        TokenType::TokenNumber,
        TokenType::TokenEof
    ]);
}

#[test]
fn lexical_errors() {
    assert_eq!(kinds("@"), vec![error("Invalid character"), TokenType::TokenEof]);
    assert_eq!(kinds("\u{20ac}1"), vec![error("Invalid character"), TokenType::TokenNumber, TokenType::TokenEof]);
    let tokens = scan_all("\u{20ac}");
    assert_eq!(tokens[0].1, "\u{20ac}");
    assert_eq!(kinds("1 /* open"), vec![TokenType::TokenNumber, error("Unterminated block comment"), TokenType::TokenEof]);
    assert_eq!(
        kinds("\"open"),
        vec![TokenType::TokenStringStart, error("Unterminated string"), TokenType::TokenEof]
    );
    assert_eq!(
        kinds("\"a}}b\""),
        vec![
            TokenType::TokenStringStart,
            error("Unmatched '}'. To escape use '}}'"),
            TokenType::TokenString,
            TokenType::TokenStringEnd,
            TokenType::TokenEof
        ]
    );
    assert_eq!(kinds("\"}\"")[1], error("Unmatched '}'. To escape use '}}'"));
    // errors do not stop the scanning
    assert_eq!(kinds("@ 1 # 2").len(), 5);
}

#[test]
fn strings() {
    assert_eq!(kinds("\"\""), vec![TokenType::TokenStringStart, TokenType::TokenStringEnd, TokenType::TokenEof]);
    let tokens = scan_all("\"a b\n// c\" 1");
    assert_eq!(tokens[1].0, TokenType::TokenString);
    assert_eq!(tokens[1].1, "a b\n// c");
    assert_eq!(tokens[2].0, TokenType::TokenStringEnd);
    assert_eq!(tokens[2].2, 2);
    assert_eq!(tokens[3].0, TokenType::TokenNumber);
    let tokens = scan_all("\"a\\\"b\"");
    assert_eq!(tokens[1].1, "a\\\"b");
    let tokens = scan_all("\"a{{b\"");
    assert_eq!(tokens[1].1, "a{{b");
    let tokens = scan_all("\"h\u{e9}{ 1 }\u{20ac}\"");
    let lexemes: Vec<&str> = tokens.iter().map(|t| t.1.as_str()).collect();
    assert_eq!(lexemes, vec!["\"", "h\u{e9}", "{", "1", "}", "\u{20ac}", "\"", ""]);
    assert_eq!(
        tokens.iter().map(|t| t.0.clone()).collect::<Vec<_>>(),
        vec![
            TokenType::TokenStringStart,
            TokenType::TokenString,
            TokenType::TokenInterpolationStart,
            TokenType::TokenNumber,
            TokenType::TokenInterpolationEnd,
            TokenType::TokenString,
            TokenType::TokenStringEnd,
            TokenType::TokenEof
        ]
    );
}

#[test]
fn tokens_and_their_text() {
    let token = Token::new(TokenType::TokenIdentifier, 2, 3, 1);
    assert_eq!(token.get_start(), 2);
    assert_eq!(token.get_length(), 3);
    assert_eq!(token.get_line(), 1);
    assert_eq!(token.get_token_type(), &TokenType::TokenIdentifier);
    assert!(token.is(TokenType::TokenIdentifier));
    assert!(!token.is(TokenType::TokenNumber));
    assert_eq!(token.get_lexeme("a b\u{e9}c"), "b\u{e9}");
    // a span that cuts a character, or leaves the source, has no text
    assert_eq!(Token::new(TokenType::TokenIdentifier, 2, 2, 1).get_lexeme("a b\u{e9}c"), "");
    assert_eq!(Token::new(TokenType::TokenIdentifier, 3, 1, 1).get_lexeme("a b\u{e9}c"), "");
    assert_eq!(Token::new(TokenType::TokenIdentifier, 2, 9, 1).get_lexeme("a b\u{e9}c"), "");
    assert!(Token::new(error("x"), 0, 0, 1).is(error("x")));
    assert!(!Token::new(error("x"), 0, 0, 1).is(error("y")));
    assert_eq!(TokenType::TokenNull.as_str(), "null");
    assert_eq!(error("x").as_str(), "error");
}

#[test]
fn first_characters() {
    assert!(is_digit("0"));
    assert!(is_digit("9x"));
    assert!(!is_digit("a"));
    assert!(!is_digit(""));
    assert!(is_alphabetic("a"));
    assert!(is_alphabetic("_"));
    assert!(is_alphabetic("\u{e9}"));
    assert!(is_alphabetic("\u{4eac}"));
    assert!(is_alphabetic("z"));
    assert!(is_alphabetic("A"));
    assert!(is_alphabetic("Z"));
    assert!(!is_alphabetic("1"));
    assert!(!is_alphabetic("@"));
    assert!(!is_alphabetic("["));
    assert!(!is_alphabetic("`"));
    assert!(!is_alphabetic("{"));
    assert!(!is_alphabetic("+"));
    assert!(!is_alphabetic(" "));
    assert!(!is_alphabetic("\u{7f}"));
    assert!(is_alphabetic("\u{aa}"));
    assert!(!is_alphabetic("\u{d7}"));
    assert!(!is_alphabetic("\u{1f49d}"));
    assert!(!is_alphabetic(""));
}

#[test]
fn the_declaration_operator() {
    assert_eq!(
        kinds("let x = 1; x = 2"),
        vec![
            TokenType::TokenLet,
            TokenType::TokenIdentifier,
            TokenType::TokenDeclaration,
            TokenType::TokenNumber,
            TokenType::TokenSemicolon,
            TokenType::TokenIdentifier,
            TokenType::TokenEqual,
            TokenType::TokenNumber,
            TokenType::TokenEof
        ]
    );
    assert_eq!(
        kinds("mut let x /* the name */ = 1"),
        vec![
            TokenType::TokenMutable,
            TokenType::TokenLet,
            TokenType::TokenIdentifier,
            TokenType::TokenDeclaration,
            TokenType::TokenNumber,
            TokenType::TokenEof
        ]
    );
    assert_eq!(kinds("mut x\n= 1")[2], TokenType::TokenDeclaration);
    assert_eq!(kinds("let x == 1")[2], TokenType::TokenEqualEqual);
    assert_eq!(kinds("let x y = 1")[3], TokenType::TokenEqual);
    assert_eq!(kinds("let 1 = 2")[2], TokenType::TokenEqual);
    assert_eq!(kinds("let = 2")[1], TokenType::TokenEqual);
    assert_eq!(kinds("x = 1")[1], TokenType::TokenEqual);
    assert_eq!(kinds("let x = y = 1")[4], TokenType::TokenEqual);
    let tokens = scan_all("let x = 1");
    assert_eq!(tokens[2].1, "=");
}
