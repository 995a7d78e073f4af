use rlox::lexer::Lexer;
use rlox::token::{Literal, Token, TokenType};

fn kinds(tokens: &[Token]) -> Vec<TokenType> {
    tokens.iter().map(|t| t.token_type).collect()
}

#[test]
fn scans_a_statement() {
    let mut lexer = Lexer::new();
    let tokens = lexer.parse(&"var answer = 42;".to_string()).unwrap();
    assert_eq!(
        kinds(&tokens),
        vec![
            TokenType::VAR,
            TokenType::IDENTIFIER,
            TokenType::EQUAL,
            TokenType::NUMBER,
            TokenType::SEMICOLON,
            TokenType::EOF
        ]
    );
    assert_eq!(tokens[1].lexeme, "answer");
    assert!(matches!(&tokens[3].literal, Some(Literal::NUM(d)) if d == "42"));
    assert_eq!(tokens[5].line_no, 2);
    assert_eq!(tokens[5].lexeme, "");
}

#[test]
fn numbers_lines_and_ends_with_eof() {
    let mut lexer = Lexer::new();
    let tokens = lexer.parse(&"print 1;\nprint 2;".to_string()).unwrap();
    let lines: Vec<u32> = tokens.iter().map(|t| t.line_no).collect();
    assert_eq!(lines, vec![1, 1, 1, 2, 2, 2, 3]);
    assert_eq!(tokens.last().unwrap().token_type, TokenType::EOF);
    assert_eq!(tokens.iter().filter(|t| t.token_type == TokenType::EOF).count(), 1);
}

#[test]
fn comments_and_blanks_give_no_token() {
    let mut lexer = Lexer::new();
    let tokens = lexer.read_line(&"  // nothing here".to_string()).unwrap();
    assert!(tokens.is_empty());
    let tokens = lexer.read_line(&"x // trailing".to_string()).unwrap();
    assert_eq!(kinds(&tokens), vec![TokenType::IDENTIFIER]);
}

#[test]
fn keyword_wins_over_identifier_of_same_length() {
    let mut lexer = Lexer::new();
    let tokens = lexer.read_line(&"class classy or orchid".to_string()).unwrap();
    assert_eq!(
        kinds(&tokens),
        vec![TokenType::CLASS, TokenType::IDENTIFIER, TokenType::OR, TokenType::IDENTIFIER]
    );
}

#[test]
fn two_character_operators() {
    let mut lexer = Lexer::new();
    let tokens = lexer.read_line(&"!= == <= >= ! = < >".to_string()).unwrap();
    assert_eq!(
        kinds(&tokens),
        vec![
            TokenType::BangEqual,
            TokenType::EqualEqual,
            TokenType::LessEqual,
            TokenType::GreaterEqual,
            TokenType::BANG,
            TokenType::EQUAL,
            TokenType::LESS,
            TokenType::GREATER
        ]
    );
}

#[test]
fn string_literal_drops_quotes() {
    let mut lexer = Lexer::new();
    let tokens = lexer.read_line(&"\"hi there\"".to_string()).unwrap();
    assert_eq!(kinds(&tokens), vec![TokenType::STRING]);
    assert_eq!(tokens[0].lexeme, "\"hi there\"");
    assert!(matches!(&tokens[0].literal, Some(Literal::STRING(s)) if s == "hi there"));
}

#[test]
fn unterminated_string_is_one_error_token_to_end_of_line() {
    let mut lexer = Lexer::new();
    let tokens = lexer.read_line(&"x = \"open ; y".to_string()).unwrap();
    assert_eq!(kinds(&tokens), vec![TokenType::IDENTIFIER, TokenType::EQUAL, TokenType::Error]);
    assert_eq!(tokens[2].lexeme, "\"open ; y");
}

#[test]
fn unknown_character_is_an_error_token() {
    let mut lexer = Lexer::new();
    let tokens = lexer.read_line(&"a @ b".to_string()).unwrap();
    assert_eq!(kinds(&tokens), vec![TokenType::IDENTIFIER, TokenType::Error, TokenType::IDENTIFIER]);
    assert_eq!(tokens[1].lexeme, "@");
}

#[test]
fn booleans_carry_their_value() {
    let mut lexer = Lexer::new();
    let tokens = lexer.read_line(&"true false nil".to_string()).unwrap();
    assert!(matches!(tokens[0].literal, Some(Literal::BOOL(true))));
    assert!(matches!(tokens[1].literal, Some(Literal::BOOL(false))));
    assert!(tokens[2].literal.is_none());
    assert_eq!(tokens[2].token_type, TokenType::NIL);
}

#[test]
fn lexer_continues_line_numbers_across_scripts() {
    let mut lexer = Lexer::new();
    let _ = lexer.parse(&"a\nb".to_string()).unwrap();
    let tokens = lexer.parse(&"c".to_string()).unwrap();
    assert_eq!(tokens[0].line_no, 3);
    assert_eq!(tokens[1].line_no, 4);
}

#[test]
fn one_line_script_scans_as_its_line_then_eof() {
    let line = "fun f(a) { return a >= 1; }".to_string();
    let by_line = Lexer::new().read_line(&line).unwrap();
    let by_script = Lexer::new().parse(&line).unwrap();
    assert_eq!(by_script.len(), by_line.len() + 1);
    for (a, b) in by_line.iter().zip(by_script.iter()) {
        assert_eq!(a.token_type, b.token_type);
        assert_eq!(a.lexeme, b.lexeme);
        assert_eq!(a.line_no, b.line_no);
    }
    assert_eq!(by_script.last().unwrap().token_type, TokenType::EOF);
    assert_eq!(by_script.last().unwrap().line_no, 2);
}

#[test]
fn tokens_come_in_line_order() {
    let tokens = Lexer::new().parse(&"a\n\nb c\n// only a comment\nd".to_string()).unwrap();
    let lines: Vec<u32> = tokens.iter().map(|t| t.line_no).collect();
    assert_eq!(lines, vec![1, 3, 3, 5, 6]);
    assert!(lines.windows(2).all(|w| w[0] <= w[1]));
}
