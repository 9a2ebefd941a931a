use bytecode_vm::scanner::{Scanner, Token, TokenType};

fn scan_all(source: &str) -> Vec<Token> {
    let mut scanner = Scanner::init_scanner(source);
    let mut tokens = Vec::new();
    loop {
        let token = scanner.scan_token();
        let done = token.token_type == TokenType::TokenEof;
        tokens.push(token);
        if done {
            return tokens;
        }
    }
}

fn kinds(source: &str) -> Vec<TokenType> {
    scan_all(source).into_iter().map(|t| t.token_type).collect()
}

#[test]
fn scans_punctuation_and_operators() {
    assert_eq!(
        kinds("(){},.;-+/* ! != = == < <= > >="),
        vec![
            TokenType::TokenLeftParen, TokenType::TokenRightParen, TokenType::TokenLeftBrace, TokenType::TokenRightBrace, TokenType::TokenComma, TokenType::TokenDot,
            TokenType::TokenSemicolon, TokenType::TokenMinus, TokenType::TokenPlus, TokenType::TokenSlash, TokenType::TokenStar, TokenType::TokenNot, TokenType::TokenNotEqual,
            TokenType::TokenEqual, TokenType::TokenEqualEqual, TokenType::TokenLess, TokenType::TokenLessEqual, TokenType::TokenGreater, TokenType::TokenGreaterEqual,
            TokenType::TokenEof,
        ]
    );
}

#[test]
fn scans_keywords_and_identifiers() {
    assert_eq!(
        kinds("and class else false for fun if nil or print return super this true var while"),
        vec![
            TokenType::TokenAnd, TokenType::TokenClass, TokenType::TokenElse, TokenType::TokenFalse, TokenType::TokenFor, TokenType::TokenFun, TokenType::TokenIf, TokenType::TokenNil,
            TokenType::TokenOr, TokenType::TokenPrint, TokenType::TokenReturn, TokenType::TokenSuper, TokenType::TokenThis, TokenType::TokenTrue, TokenType::TokenVar, TokenType::TokenWhile,
            TokenType::TokenEof,
        ]
    );
    let tokens = scan_all("whiles _x1 andy");
    assert_eq!(tokens[0].token_type, TokenType::TokenIdentifier);
    assert_eq!(tokens[0].value, b"whiles".to_vec());
    assert_eq!(tokens[1].value, b"_x1".to_vec());
    assert_eq!(tokens[2].token_type, TokenType::TokenIdentifier);
}

#[test]
fn scans_numbers_with_fractions() {
    let tokens = scan_all("12.5 7. 3");
    assert_eq!(tokens[0].token_type, TokenType::TokenNumber);
    assert_eq!(tokens[0].value, b"12.5".to_vec());
    assert_eq!(tokens[0].length, 4);
    assert_eq!(tokens[1].value, b"7".to_vec());
    assert_eq!(tokens[2].token_type, TokenType::TokenDot);
    assert_eq!(tokens[3].value, b"3".to_vec());
}

#[test]
fn scans_strings_and_counts_lines() {
    let tokens = scan_all("\"a\nb\" x");
    assert_eq!(tokens[0].token_type, TokenType::TokenString);
    assert_eq!(tokens[0].value, b"\"a\nb\"".to_vec());
    assert_eq!(tokens[0].line, 2);
    assert_eq!(tokens[1].line, 2);
}

#[test]
fn skips_comments_and_blank_lines() {
    let tokens = scan_all("// note\n\n  x // tail\n\ty");
    assert_eq!(tokens[0].token_type, TokenType::TokenIdentifier);
    assert_eq!(tokens[0].line, 3);
    assert_eq!(tokens[1].value, b"y".to_vec());
    assert_eq!(tokens[1].line, 4);
    assert_eq!(tokens[2].token_type, TokenType::TokenEof);
    assert!(tokens[2].value.is_empty());
}

#[test]
fn reports_errors_as_tokens() {
    let tokens = scan_all("@ \"open");
    assert_eq!(tokens[0].token_type, TokenType::TokenError);
    assert_eq!(tokens[0].value, b"Unknown character.".to_vec());
    assert_eq!(tokens[0].length, 18);
    assert_eq!(tokens[1].token_type, TokenType::TokenError);
    assert_eq!(tokens[1].value, b"Unterminated string.".to_vec());
    assert_eq!(tokens[2].token_type, TokenType::TokenEof);
}

#[test]
fn end_of_input_repeats() {
    let mut scanner = Scanner::init_scanner("");
    assert_eq!(scanner.scan_token().token_type, TokenType::TokenEof);
    let again = scanner.scan_token();
    assert_eq!(again.token_type, TokenType::TokenEof);
    assert_eq!(again.line, 1);
}

#[test]
fn byte_classes() {
    assert!(Scanner::is_digit(b'0') && Scanner::is_digit(b'9'));
    assert!(!Scanner::is_digit(b'a'));
    assert!(Scanner::is_alpha(b'_') && Scanner::is_alpha(b'Z') && Scanner::is_alpha(b'q'));
    assert!(!Scanner::is_alpha(b'1'));
}
