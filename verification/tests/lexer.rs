use std::ops::Range;

use infer::lexer::error::LexError;
use infer::lexer::keywords::Keywords;
use infer::lexer::token::{Token, TokenType};
use infer::lexer::{LexResult, Lexer};

fn assert_token(result: Option<LexResult>, expected_type: TokenType, expected_range: Range<usize>) {
    let t = result
        .expect("Expected Some(Token), got None")
        .expect("Expected Ok(Token), got Err");
    assert_eq!(t.token_type, expected_type, "Token type mismatch");
    assert_eq!(t.range, expected_range, "Token range mismatch");
}

#[test]
fn lexer_lex_equals() {
    let mut lexer = Lexer::new("=", Keywords::new());
    assert_token(lexer.next(), TokenType::Equals, 0..1);
    assert!(lexer.next().is_none());
}

#[test]
fn lexer_lex_semicolon() {
    let mut lexer = Lexer::new(";", Keywords::new());
    assert_token(lexer.next(), TokenType::Semicolon, 0..1);
    assert!(lexer.next().is_none());
}

#[test]
fn lexer_lex_colon() {
    let mut lexer = Lexer::new(":", Keywords::new());
    assert_token(lexer.next(), TokenType::Colon, 0..1);
    assert!(lexer.next().is_none());
}

#[test]
fn lexer_lex_identifier() {
    let mut lexer = Lexer::new("name", Keywords::new());
    assert_token(lexer.next(), TokenType::Identifier, 0..4);
    assert!(lexer.next().is_none());
}

#[test]
fn lexer_lex_identifier_with_underscore() {
    let mut lexer = Lexer::new("first_name", Keywords::new());
    assert_token(lexer.next(), TokenType::Identifier, 0..10);
    assert!(lexer.next().is_none());
}

#[test]
fn lexer_attempt_to_lex_unrecognized_character() {
    let mut lexer = Lexer::new("?", Keywords::new());
    let result = lexer.next().unwrap();
    assert!(matches!(result, Err(LexError::UnrecognizedChar(ch, _)) if ch == '?'));
}

#[test]
fn mod_lex_equals() {
    let mut lexer = Lexer::new("=", Keywords::new());
    assert_token(lexer.next(), TokenType::Equals, 0..1);
    assert!(lexer.next().is_none());
}

#[test]
fn mod_lex_semicolon() {
    let mut lexer = Lexer::new(";", Keywords::new());
    assert_token(lexer.next(), TokenType::Semicolon, 0..1);
    assert!(lexer.next().is_none());
}

#[test]
fn mod_lex_colon() {
    let mut lexer = Lexer::new(":", Keywords::new());
    assert_token(lexer.next(), TokenType::Colon, 0..1);
    assert!(lexer.next().is_none());
}

#[test]
fn lex_bang_operator() {
    let mut lexer = Lexer::new("!", Keywords::new());
    assert_token(lexer.next(), TokenType::Bang, 0..1);
    assert!(lexer.next().is_none());
}

#[test]
fn lex_left_paren() {
    let mut lexer = Lexer::new("(", Keywords::new());
    assert_token(lexer.next(), TokenType::LeftParentheses, 0..1);
    assert!(lexer.next().is_none());
}

#[test]
fn lex_right_paren() {
    let mut lexer = Lexer::new(")", Keywords::new());
    assert_token(lexer.next(), TokenType::RightParentheses, 0..1);
    assert!(lexer.next().is_none());
}

#[test]
fn mod_lex_identifier() {
    let mut lexer = Lexer::new("name", Keywords::new());
    assert_token(lexer.next(), TokenType::Identifier, 0..4);
    assert!(lexer.next().is_none());
}

#[test]
fn mod_lex_identifier_with_underscore() {
    let mut lexer = Lexer::new("first_name", Keywords::new());
    assert_token(lexer.next(), TokenType::Identifier, 0..10);
    assert!(lexer.next().is_none());
}

#[test]
fn lex_identifier_containing_digits() {
    let mut lexer = Lexer::new("i32", Keywords::new());
    assert_token(lexer.next(), TokenType::Identifier, 0..3);
    assert!(lexer.next().is_none());
}

#[test]
fn lex_number_is_not_identifier() {
    let mut lexer = Lexer::new("100", Keywords::new());
    assert_token(lexer.next(), TokenType::WholeNumber, 0..3);
    assert!(lexer.next().is_none());
}

#[test]
fn lex_var_keyword() {
    let mut lexer = Lexer::new("var", Keywords::new());
    assert_token(lexer.next(), TokenType::Var, 0..3);
    assert!(lexer.next().is_none());
}

#[test]
fn lex_if_keyword() {
    let mut lexer = Lexer::new("if", Keywords::new());
    assert_token(lexer.next(), TokenType::If, 0..2);
}

#[test]
fn lex_else_keyword() {
    let mut lexer = Lexer::new("else", Keywords::new());
    assert_token(lexer.next(), TokenType::Else, 0..4);
}

#[test]
fn lex_var_case_sensitive() {
    let mut lexer = Lexer::new("VAR", Keywords::new());
    assert_token(lexer.next(), TokenType::Identifier, 0..3);
    assert!(lexer.next().is_none());
}

#[test]
fn lex_whole_number() {
    let mut lexer = Lexer::new("123212", Keywords::new());
    assert_token(lexer.next(), TokenType::WholeNumber, 0..6);
    assert!(lexer.next().is_none());
}

#[test]
fn lex_string() {
    let mut lexer = Lexer::new("\"john\"", Keywords::new());
    assert_token(lexer.next(), TokenType::StringLiteral, 0..6);
    assert!(lexer.next().is_none());
}

#[test]
fn attempt_to_lex_unterminated_string() {
    let mut lexer = Lexer::new("\"john", Keywords::new());
    let result = lexer.next();

    assert!(result.is_some());
    assert!(
        matches!(result.unwrap().err().unwrap(), LexError::UnterminatedStringLiteral(ref str, 1) if str == "\"john")
    );
}

#[test]
fn attempt_to_lex_unterminated_multiline_string() {
    let mut lexer = Lexer::new("\"john\ndoe", Keywords::new());
    let result = lexer.next();

    assert!(result.is_some());
    assert!(
        matches!(result.unwrap().err().unwrap(), LexError::UnterminatedStringLiteral(ref str, 2) if str == "\"john\ndoe")
    );
}

#[test]
fn mod_attempt_to_lex_unrecognized_character() {
    let mut lexer = Lexer::new("?", Keywords::new());
    let result = lexer.next().unwrap();
    assert!(matches!(result, Err(LexError::UnrecognizedChar(ch, 1)) if ch == '?'));
}

#[test]
fn lex_var_declaration() {
    let mut lexer = Lexer::new("var name = \"john\";", Keywords::new());
    assert_token(lexer.next(), TokenType::Var, 0..3);
    assert_token(lexer.next(), TokenType::Identifier, 4..8);
    assert_token(lexer.next(), TokenType::Equals, 9..10);
    assert_token(lexer.next(), TokenType::StringLiteral, 11..17);
    assert_token(lexer.next(), TokenType::Semicolon, 17..18);
    assert!(lexer.next().is_none());
}

#[test]
fn lex_var_declaration_with_type() {
    let mut lexer = Lexer::new("var name: string = \"john\";", Keywords::new());
    assert_token(lexer.next(), TokenType::Var, 0..3);
    assert_token(lexer.next(), TokenType::Identifier, 4..8);
    assert_token(lexer.next(), TokenType::Colon, 8..9);
    assert_token(lexer.next(), TokenType::Identifier, 10..16);
    assert_token(lexer.next(), TokenType::Equals, 17..18);
    assert_token(lexer.next(), TokenType::StringLiteral, 19..25);
    assert_token(lexer.next(), TokenType::Semicolon, 25..26);
    assert!(lexer.next().is_none());
}

#[test]
fn lex_plus_operator() {
    let mut lexer = Lexer::new("amount + increment", Keywords::new());
    assert_token(lexer.next(), TokenType::Identifier, 0..6);
    assert_token(lexer.next(), TokenType::Plus, 7..8);
    assert_token(lexer.next(), TokenType::Identifier, 9..18);
    assert!(lexer.next().is_none());
}

#[test]
fn lex_minus_operator() {
    let mut lexer = Lexer::new("a - b", Keywords::new());
    assert_token(lexer.next(), TokenType::Identifier, 0..1);
    assert_token(lexer.next(), TokenType::Minus, 2..3);
    assert_token(lexer.next(), TokenType::Identifier, 4..5);
    assert!(lexer.next().is_none());
}

#[test]
fn lex_star_operator() {
    let mut lexer = Lexer::new("amount * factor", Keywords::new());
    assert_token(lexer.next(), TokenType::Identifier, 0..6);
    assert_token(lexer.next(), TokenType::Star, 7..8);
    assert_token(lexer.next(), TokenType::Identifier, 9..15);
    assert!(lexer.next().is_none());
}

#[test]
fn lex_slash_operator() {
    let mut lexer = Lexer::new("a / b", Keywords::new());
    assert_token(lexer.next(), TokenType::Identifier, 0..1);
    assert_token(lexer.next(), TokenType::Slash, 2..3);
    assert_token(lexer.next(), TokenType::Identifier, 4..5);
    assert!(lexer.next().is_none());
}

#[test]
fn lex_equals_equals() {
    let mut lexer = Lexer::new("==", Keywords::new());
    assert_token(lexer.next(), TokenType::EqualsEquals, 0..2);
}

#[test]
fn lex_bang_equals() {
    let mut lexer = Lexer::new("!=", Keywords::new());
    assert_token(lexer.next(), TokenType::BangEquals, 0..2);
}

#[test]
fn lex_greater_than() {
    let mut lexer = Lexer::new(">", Keywords::new());
    assert_token(lexer.next(), TokenType::GreaterThan, 0..1);
}

#[test]
fn lex_greater_than_equals() {
    let mut lexer = Lexer::new(">=", Keywords::new());
    assert_token(lexer.next(), TokenType::GreaterThanEquals, 0..2);
}

#[test]
fn lex_less_than() {
    let mut lexer = Lexer::new("<", Keywords::new());
    assert_token(lexer.next(), TokenType::LessThan, 0..1);
}

#[test]
fn lex_less_than_equals() {
    let mut lexer = Lexer::new("<=", Keywords::new());
    assert_token(lexer.next(), TokenType::LessThanEquals, 0..2);
}

#[test]
fn lex_left_brace() {
    let mut lexer = Lexer::new("{", Keywords::new());
    assert_token(lexer.next(), TokenType::LeftBrace, 0..1);
}

#[test]
fn lex_right_brace() {
    let mut lexer = Lexer::new("}", Keywords::new());
    assert_token(lexer.next(), TokenType::RightBrace, 0..1);
}

#[test]
fn lex_comma_and_lines() {
    let mut lexer = Lexer::new("a,\n  b", Keywords::new());
    assert_token(lexer.next(), TokenType::Identifier, 0..1);
    assert_token(lexer.next(), TokenType::Comma, 1..2);
    let b = lexer.next().unwrap().unwrap();
    assert_eq!(b.token_type, TokenType::Identifier);
    assert_eq!(b.range, 5..6);
    assert_eq!(b.line, 2);
    assert_eq!(b.value(), "b");
    assert!(lexer.next().is_none());
}

#[test]
fn lex_multibyte_text_keeps_byte_ranges() {
    let mut lexer = Lexer::new("\"héllo\" x", Keywords::new());
    let s = lexer.next().unwrap().unwrap();
    assert_eq!(s.token_type, TokenType::StringLiteral);
    assert_eq!(s.range, 0..8);
    assert_eq!(s.string_value(), "héllo");
    assert_token(lexer.next(), TokenType::Identifier, 9..10);
}

#[test]
fn display_unrecognized_char() {
    let err = LexError::UnrecognizedChar('?', 12);
    assert_eq!(err.to_string(), "unrecognized character '?' on line 12");
}

#[test]
fn display_unterminated_string_literal() {
    let err = LexError::UnterminatedStringLiteral("\"hello".to_string(), 45);
    assert_eq!(
        err.to_string(),
        "unterminated string literal starting with '\"hello' on line 45"
    );
}

#[test]
fn display_unsupported_keyword() {
    let err = LexError::UnsupportedKeyword("fn".to_string(), 3);
    assert_eq!(err.to_string(), "unsupported keyword 'fn' on line 3");
}

#[test]
fn is_a_valid_keyword() {
    assert!(Keywords::new().has("var"));
    assert!(Keywords::new().has("and"));
    assert!(Keywords::new().has("or"));
}

#[test]
fn fn_is_a_valid_keyword() {
    assert!(Keywords::new().has("fn"));
}

#[test]
fn is_not_a_keyword() {
    assert!(!Keywords::new().has("while"));
}

#[test]
fn keyword_type_var() {
    assert_eq!(TokenType::keyword_type("var", 1).unwrap(), TokenType::Var);
}

#[test]
fn keyword_type_true() {
    assert_eq!(
        TokenType::keyword_type("true", 1).unwrap(),
        TokenType::BooleanLiteral(true)
    );
}

#[test]
fn keyword_type_false() {
    assert_eq!(
        TokenType::keyword_type("false", 1).unwrap(),
        TokenType::BooleanLiteral(false)
    );
}

#[test]
fn keyword_type_if() {
    assert_eq!(TokenType::keyword_type("if", 1).unwrap(), TokenType::If);
}

#[test]
fn keyword_type_else() {
    assert_eq!(TokenType::keyword_type("else", 1).unwrap(), TokenType::Else);
}

#[test]
fn keyword_type_loop() {
    assert_eq!(TokenType::keyword_type("loop", 1).unwrap(), TokenType::Loop);
}

#[test]
fn keyword_type_break() {
    assert_eq!(
        TokenType::keyword_type("break", 1).unwrap(),
        TokenType::Break
    );
}

#[test]
fn keyword_type_fn() {
    assert_eq!(TokenType::keyword_type("fn", 1).unwrap(), TokenType::Fn);
}

#[test]
fn keyword_type_and() {
    assert_eq!(TokenType::keyword_type("and", 1).unwrap(), TokenType::And);
}

#[test]
fn keyword_type_or() {
    assert_eq!(TokenType::keyword_type("or", 1).unwrap(), TokenType::Or);
}

#[test]
fn keyword_type_return() {
    assert_eq!(
        TokenType::keyword_type("return", 1).unwrap(),
        TokenType::Return
    );
}

#[test]
fn keyword_type_invalid() {
    assert!(matches!(
        TokenType::keyword_type("unknown", 1),
        Err(LexError::UnsupportedKeyword(ref word, 1)) if word == "unknown"
    ));
}

#[test]
fn token_type_names_follow_their_debug_form() {
    assert_eq!(TokenType::LeftParentheses.name(), "LeftParentheses");
    assert_eq!(TokenType::BooleanLiteral(true).name(), "BooleanLiteral(true)");
    assert_eq!(format!("{:?}", TokenType::BangEquals), TokenType::BangEquals.name());
}

fn check_token(token: Token, expected_type: TokenType, expected_range: Range<usize>, line: usize, source: &str) {
    assert_eq!(token.token_type, expected_type);
    assert_eq!(token.range, expected_range);
    assert_eq!(token.line, line);
    assert_eq!(token.source, source);
}

#[test]
fn token_equals() {
    check_token(Token::equals("=", 0, 1), TokenType::Equals, 0..1, 1, "=");
}

#[test]
fn token_semicolon() {
    check_token(Token::semicolon(";", 0, 2), TokenType::Semicolon, 0..1, 2, ";");
}

#[test]
fn token_colon() {
    check_token(Token::colon(":", 0, 1), TokenType::Colon, 0..1, 1, ":");
}

#[test]
fn token_comma() {
    check_token(Token::comma(",", 0, 1), TokenType::Comma, 0..1, 1, ",");
}

#[test]
fn new_token() {
    let token = Token::new(TokenType::Identifier, 4..8, 1, "var name = 10;");
    check_token(token, TokenType::Identifier, 4..8, 1, "var name = 10;");
}

#[test]
fn token_value() {
    let token = Token::new(TokenType::Identifier, 4..8, 1, "var name = 10;");
    assert_eq!(token.value(), "name");
}

#[test]
fn token_owned_value() {
    let token = Token::new(TokenType::Identifier, 4..8, 1, "var name = 10;");
    assert_eq!(token.owned_value(), String::from("name"));
}

#[test]
fn token_string_value() {
    let token = Token::new(TokenType::StringLiteral, 0..7, 1, "\"infer\"");
    assert_eq!(token.string_value(), "infer");

    let token2 = Token::new(TokenType::StringLiteral, 1..6, 1, "\"infer\"");
    assert_eq!(token2.string_value(), "infer");
}

#[test]
fn token_plus() {
    check_token(Token::plus("+", 0, 1), TokenType::Plus, 0..1, 1, "+");
}

#[test]
fn token_minus() {
    check_token(Token::minus("-", 0, 1), TokenType::Minus, 0..1, 1, "-");
}

#[test]
fn token_star() {
    check_token(Token::star("*", 0, 1), TokenType::Star, 0..1, 1, "*");
}

#[test]
fn token_slash() {
    check_token(Token::slash("/", 0, 1), TokenType::Slash, 0..1, 1, "/");
}

#[test]
fn token_bang() {
    check_token(Token::bang("!", 0, 1), TokenType::Bang, 0..1, 1, "!");
}

#[test]
fn token_left_parentheses() {
    check_token(Token::left_parentheses("(", 0, 1), TokenType::LeftParentheses, 0..1, 1, "(");
}

#[test]
fn token_right_parentheses() {
    check_token(Token::right_parentheses(")", 0, 1), TokenType::RightParentheses, 0..1, 1, ")");
}

#[test]
fn token_left_brace() {
    check_token(Token::left_brace("{", 0, 1), TokenType::LeftBrace, 0..1, 1, "{");
}

#[test]
fn token_right_brace() {
    check_token(Token::right_brace("}", 0, 1), TokenType::RightBrace, 0..1, 1, "}");
}

#[test]
fn token_greater_than() {
    check_token(Token::greater_than(">", 0, 1), TokenType::GreaterThan, 0..1, 1, ">");
}

#[test]
fn token_less_than() {
    check_token(Token::less_than("<", 0, 1), TokenType::LessThan, 0..1, 1, "<");
}

#[test]
fn token_greater_than_equals() {
    check_token(Token::greater_than_equals(">=", 0, 1), TokenType::GreaterThanEquals, 0..2, 1, ">=");
}

#[test]
fn token_less_than_equals() {
    check_token(Token::less_than_equals("<=", 0, 1), TokenType::LessThanEquals, 0..2, 1, "<=");
}

#[test]
fn token_equals_equals() {
    check_token(Token::equals_equals("==", 0, 1), TokenType::EqualsEquals, 0..2, 1, "==");
}

#[test]
fn token_bang_equals() {
    check_token(Token::bang_equals("!=", 0, 1), TokenType::BangEquals, 0..2, 1, "!=");
}

#[test]
fn token_lines_never_go_down() {
    let mut lexer = Lexer::new("var a\n=\n\n\"x\ny\" ;\n b", Keywords::new());
    let mut lines = Vec::new();
    while let Some(result) = lexer.next() {
        lines.push(result.unwrap().line);
    }
    assert_eq!(lines, vec![1, 1, 2, 5, 5, 6]);
}
