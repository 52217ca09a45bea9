use lox_scanner::token::{LexError, Literal, Token, TokenKind};
use lox_scanner::token_handler::TokenHandler;

fn scan(source: &str) -> TokenHandler {
    let mut handler = TokenHandler::default();
    handler.scan_token(source);
    handler
}

fn kinds(handler: &TokenHandler) -> Vec<TokenKind> {
    handler.get_tokens().iter().map(|t| t.kind).collect()
}

fn plain(kind: TokenKind, lexeme: &str, line: usize) -> Token {
    Token { kind, lexeme: lexeme.to_string(), literal: Literal::Null, line }
}

fn number(lexeme: &str, value: &str, line: usize) -> Token {
    Token {
        kind: TokenKind::Number,
        lexeme: lexeme.to_string(),
        literal: Literal::Number(value.to_string()),
        line,
    }
}

fn string(lexeme: &str, value: &str, line: usize) -> Token {
    Token {
        kind: TokenKind::String,
        lexeme: lexeme.to_string(),
        literal: Literal::Text(value.to_string()),
        line,
    }
}

fn eof(line: usize) -> Token {
    plain(TokenKind::Eof, "", line)
}

fn shown_value(text: &str) -> String {
    let value: f64 = text.parse().unwrap();
    if value.fract() == 0.0 {
        format!("{:.1}", value)
    } else {
        format!("{}", value)
    }
}

#[test]
fn default_handler_is_fresh() {
    let handler = TokenHandler::default();
    assert_eq!(handler.line_number, 1);
    assert!(!handler.has_error);
    assert!(handler.get_tokens().is_empty());
    assert!(handler.get_errors().is_empty());
    assert_eq!(handler.exit_status(), 0);
}

#[test]
fn empty_input_yields_the_end_token_alone() {
    let handler = scan("");
    assert_eq!(handler.get_tokens(), &vec![eof(1)]);
    assert!(handler.get_errors().is_empty());
    assert!(!handler.has_error);
    assert_eq!(handler.line_number, 1);
}

#[test]
fn scans_every_punctuation_mark() {
    let handler = scan("(){},.;+-*");
    assert_eq!(
        handler.get_tokens(),
        &vec![
            plain(TokenKind::LeftParen, "(", 1),
            plain(TokenKind::RightParen, ")", 1),
            plain(TokenKind::LeftBrace, "{", 1),
            plain(TokenKind::RightBrace, "}", 1),
            plain(TokenKind::Comma, ",", 1),
            plain(TokenKind::Dot, ".", 1),
            plain(TokenKind::Semicolon, ";", 1),
            plain(TokenKind::Plus, "+", 1),
            plain(TokenKind::Minus, "-", 1),
            plain(TokenKind::Star, "*", 1),
            eof(1),
        ]
    );
    assert!(handler.get_errors().is_empty());
    assert!(!handler.has_error);
    assert_eq!(handler.exit_status(), 0);
}

#[test]
fn equal_equal_is_one_token() {
    assert_eq!(scan("==").get_tokens(), &vec![plain(TokenKind::EqualEqual, "==", 1), eof(1)]);
    assert_eq!(scan("=").get_tokens(), &vec![plain(TokenKind::Equal, "=", 1), eof(1)]);
    assert_eq!(scan("!=").get_tokens(), &vec![plain(TokenKind::BangEqual, "!=", 1), eof(1)]);
    assert_eq!(scan("!").get_tokens(), &vec![plain(TokenKind::Bang, "!", 1), eof(1)]);
}

#[test]
fn comparison_operators_take_their_longest_form() {
    assert_eq!(
        kinds(&scan("< <= > >= ! != = ==")),
        vec![
            TokenKind::Less,
            TokenKind::LessEqual,
            TokenKind::Greater,
            TokenKind::GreaterEqual,
            TokenKind::Bang,
            TokenKind::BangEqual,
            TokenKind::Equal,
            TokenKind::EqualEqual,
            TokenKind::Eof,
        ]
    );
    assert_eq!(
        scan("===").get_tokens(),
        &vec![plain(TokenKind::EqualEqual, "==", 1), plain(TokenKind::Equal, "=", 1), eof(1)]
    );
    assert_eq!(
        scan("!==").get_tokens(),
        &vec![plain(TokenKind::BangEqual, "!=", 1), plain(TokenKind::Equal, "=", 1), eof(1)]
    );
    assert_eq!(
        kinds(&scan("<>=!(")),
        vec![
            TokenKind::Less,
            TokenKind::GreaterEqual,
            TokenKind::Bang,
            TokenKind::LeftParen,
            TokenKind::Eof
        ]
    );
}

#[test]
fn pending_operator_is_flushed_at_the_end() {
    assert_eq!(scan("<").get_tokens(), &vec![plain(TokenKind::Less, "<", 1), eof(1)]);
    assert_eq!(scan(">").get_tokens(), &vec![plain(TokenKind::Greater, ">", 1), eof(1)]);
    assert_eq!(scan("/").get_tokens(), &vec![plain(TokenKind::Slash, "/", 1), eof(1)]);
    assert_eq!(
        scan("1=").get_tokens(),
        &vec![number("1", "1", 1), plain(TokenKind::Equal, "=", 1), eof(1)]
    );
}

#[test]
fn character_after_a_short_operator_is_scanned_too() {
    assert_eq!(
        scan("=(").get_tokens(),
        &vec![plain(TokenKind::Equal, "=", 1), plain(TokenKind::LeftParen, "(", 1), eof(1)]
    );
    assert_eq!(
        scan("!\n<").get_tokens(),
        &vec![plain(TokenKind::Bang, "!", 1), plain(TokenKind::Less, "<", 2), eof(2)]
    );
    let handler = scan(">@");
    assert_eq!(handler.get_tokens(), &vec![plain(TokenKind::Greater, ">", 1), eof(1)]);
    assert_eq!(handler.get_errors(), &vec![LexError::UnexpectedCharacter { ch: '@', line: 1 }]);
}

#[test]
fn slash_alone_is_a_token() {
    assert_eq!(
        scan("/=").get_tokens(),
        &vec![plain(TokenKind::Slash, "/", 1), plain(TokenKind::Equal, "=", 1), eof(1)]
    );
    assert_eq!(
        scan("a/b").get_tokens(),
        &vec![
            plain(TokenKind::Identifier, "a", 1),
            plain(TokenKind::Slash, "/", 1),
            plain(TokenKind::Identifier, "b", 1),
            eof(1),
        ]
    );
}

#[test]
fn comment_is_skipped_and_its_line_break_counted() {
    let handler = scan("// comment\n123");
    assert_eq!(handler.get_tokens(), &vec![number("123", "123", 2), eof(2)]);
    assert_eq!(shown_value("123"), "123.0");
    assert!(!handler.has_error);
    assert_eq!(handler.line_number, 2);
}

#[test]
fn comment_may_end_with_the_input() {
    let handler = scan("1 // no line break @ \" =");
    assert_eq!(handler.get_tokens(), &vec![number("1", "1", 1), eof(1)]);
    assert!(handler.get_errors().is_empty());
    assert_eq!(scan("//").get_tokens(), &vec![eof(1)]);
    assert_eq!(scan("///\n/").get_tokens(), &vec![plain(TokenKind::Slash, "/", 2), eof(2)]);
}

#[test]
fn unterminated_string_at_the_end_of_input() {
    let handler = scan("\"abc");
    assert_eq!(handler.get_tokens(), &vec![eof(1)]);
    assert_eq!(handler.get_errors(), &vec![LexError::UnterminatedString { line: 1 }]);
    assert_eq!(handler.get_errors()[0].report(), "[line 1] Error: Unterminated string.");
    assert!(handler.has_error);
    assert_eq!(handler.exit_status(), 65);
}

#[test]
fn string_is_cut_off_by_a_line_break() {
    let handler = scan("x\n\"ab\ncd\"");
    assert_eq!(handler.get_tokens(), &vec![
        plain(TokenKind::Identifier, "x", 1),
        plain(TokenKind::Identifier, "cd", 3),
        eof(3),
    ]);
    assert_eq!(
        handler.get_errors(),
        &vec![LexError::UnterminatedString { line: 2 }, LexError::UnterminatedString { line: 3 }]
    );
    assert_eq!(handler.line_number, 3);
    assert!(handler.has_error);
}

#[test]
fn backslash_at_the_end_leaves_the_string_open() {
    let handler = scan("\"ab\\");
    assert_eq!(handler.get_tokens(), &vec![eof(1)]);
    assert_eq!(handler.get_errors(), &vec![LexError::UnterminatedString { line: 1 }]);
}

#[test]
fn string_literal_keeps_its_lexeme_and_value() {
    let handler = scan("\"hello world\" \"\"");
    assert_eq!(
        handler.get_tokens(),
        &vec![string("\"hello world\"", "hello world", 1), string("\"\"", "", 1), eof(1)]
    );
    assert!(!handler.has_error);
}

#[test]
fn string_escapes_are_resolved() {
    let handler = scan("\"a\\nb\\tc\\\\d\\\"e\\qf\"");
    assert_eq!(
        handler.get_tokens(),
        &vec![string("\"a\\nb\\tc\\\\d\\\"e\\qf\"", "a\nb\tc\\d\"eqf", 1), eof(1)]
    );
    assert!(handler.get_errors().is_empty());
}

#[test]
fn escaped_line_break_stays_in_the_string() {
    let handler = scan("\"a\\\nb\" c");
    assert_eq!(
        handler.get_tokens(),
        &vec![string("\"a\\\nb\"", "a\nb", 1), plain(TokenKind::Identifier, "c", 2), eof(2)]
    );
    assert!(!handler.has_error);
}

#[test]
fn numbers_keep_their_text() {
    let handler = scan("12.5");
    assert_eq!(handler.get_tokens(), &vec![number("12.5", "12.5", 1), eof(1)]);
    assert_eq!(shown_value("12.5"), "12.5");
    let handler = scan("7");
    assert_eq!(handler.get_tokens(), &vec![number("7", "7", 1), eof(1)]);
    assert_eq!(shown_value("7"), "7.0");
}

#[test]
fn number_takes_digits_and_points_greedily() {
    assert_eq!(scan("1.").get_tokens(), &vec![number("1.", "1.", 1), eof(1)]);
    assert_eq!(
        scan("3.14+2").get_tokens(),
        &vec![number("3.14", "3.14", 1), plain(TokenKind::Plus, "+", 1), number("2", "2", 1), eof(1)]
    );
    assert_eq!(
        scan(".5").get_tokens(),
        &vec![plain(TokenKind::Dot, ".", 1), number("5", "5", 1), eof(1)]
    );
    assert_eq!(
        scan("12abc").get_tokens(),
        &vec![number("12", "12", 1), plain(TokenKind::Identifier, "abc", 1), eof(1)]
    );
}

#[test]
fn number_with_two_points_has_the_value_zero() {
    let handler = scan("1.2.3");
    assert_eq!(handler.get_tokens(), &vec![number("1.2.3", "0", 1), eof(1)]);
    assert!(!handler.has_error);
    assert_eq!(scan("1..").get_tokens(), &vec![number("1..", "0", 1), eof(1)]);
    assert_eq!(shown_value("0"), "0.0");
}

#[test]
fn identifiers_and_keywords() {
    let handler = scan("foo_1 and bar");
    assert_eq!(
        handler.get_tokens(),
        &vec![
            plain(TokenKind::Identifier, "foo_1", 1),
            plain(TokenKind::Keyword, "and", 1),
            plain(TokenKind::Identifier, "bar", 1),
            eof(1),
        ]
    );
    assert!(!handler.has_error);
}

#[test]
fn every_reserved_word_is_a_keyword() {
    let words = [
        "and", "class", "else", "false", "for", "fun", "if", "nil", "or", "print", "return",
        "super", "this", "true", "var", "while",
    ];
    for word in words {
        assert_eq!(scan(word).get_tokens(), &vec![plain(TokenKind::Keyword, word, 1), eof(1)]);
    }
}

#[test]
fn keywords_are_matched_exactly() {
    for word in ["And", "NIL", "classy", "fo", "_if", "while1", "printer"] {
        assert_eq!(scan(word).get_tokens(), &vec![plain(TokenKind::Identifier, word, 1), eof(1)]);
    }
}

#[test]
fn identifier_goes_on_over_unicode_letters_and_digits() {
    assert_eq!(
        scan("h\u{e9}llo_\u{661}-w").get_tokens(),
        &vec![
            plain(TokenKind::Identifier, "h\u{e9}llo_\u{661}", 1),
            plain(TokenKind::Minus, "-", 1),
            plain(TokenKind::Identifier, "w", 1),
            eof(1),
        ]
    );
}

#[test]
fn identifier_starts_with_an_ascii_letter_or_underscore() {
    let handler = scan("\u{e9}a _b");
    assert_eq!(
        handler.get_tokens(),
        &vec![
            plain(TokenKind::Identifier, "a", 1),
            plain(TokenKind::Identifier, "_b", 1),
            eof(1),
        ]
    );
    assert_eq!(
        handler.get_errors(),
        &vec![LexError::UnexpectedCharacter { ch: '\u{e9}', line: 1 }]
    );
}

#[test]
fn blank_space_yields_no_token() {
    let handler = scan(" \t\r\n \n");
    assert_eq!(handler.get_tokens(), &vec![eof(3)]);
    assert!(!handler.has_error);
    assert_eq!(handler.line_number, 3);
}

#[test]
fn unexpected_characters_are_reported_and_scanning_goes_on() {
    let handler = scan("a @ b\n# $");
    assert_eq!(
        handler.get_tokens(),
        &vec![
            plain(TokenKind::Identifier, "a", 1),
            plain(TokenKind::Identifier, "b", 1),
            eof(2),
        ]
    );
    assert_eq!(
        handler.get_errors(),
        &vec![
            LexError::UnexpectedCharacter { ch: '@', line: 1 },
            LexError::UnexpectedCharacter { ch: '#', line: 2 },
            LexError::UnexpectedCharacter { ch: '$', line: 2 },
        ]
    );
    assert!(handler.has_error);
    assert_eq!(handler.exit_status(), 65);
}

#[test]
fn error_reports_name_the_line() {
    let error = LexError::UnexpectedCharacter { ch: '@', line: 12 };
    assert_eq!(error.line(), 12);
    assert_eq!(error.message(), "Unexpected character: @");
    assert_eq!(error.report(), "[line 12] Error: Unexpected character: @");
    let error = LexError::UnterminatedString { line: 305 };
    assert_eq!(error.line(), 305);
    assert_eq!(error.message(), "Unterminated string.");
    assert_eq!(error.report(), "[line 305] Error: Unterminated string.");
    let handler = scan("\n\n\n\n\n\n\n\n\n\n\n@");
    assert_eq!(handler.get_errors()[0].report(), "[line 12] Error: Unexpected character: @");
}

#[test]
fn one_end_token_and_lines_in_order() {
    let sources = [
        "",
        "var x = 1;\nprint x;\n",
        "\"open\n@\n// c\n\n\"closed\" 1.5.2 !=\n<",
        "\n\n\n",
        "/",
        "\"a\\\nb\"\n\"",
    ];
    for source in sources {
        let handler = scan(source);
        let tokens = handler.get_tokens();
        assert_eq!(tokens.last().unwrap().kind, TokenKind::Eof);
        assert_eq!(tokens.iter().filter(|t| t.kind == TokenKind::Eof).count(), 1);
        for pair in tokens.windows(2) {
            assert!(pair[0].line <= pair[1].line);
        }
        assert_eq!(handler.has_error, !handler.get_errors().is_empty());
        assert_eq!(handler.line_number, 1 + source.matches('\n').count());
        assert_eq!(tokens.last().unwrap().line, handler.line_number);
    }
}

#[test]
fn two_scans_of_one_text_agree() {
    let source = "fun f(a) { return a >= 1.5; } // done\n\"s\" @ \"open";
    let first = scan(source);
    let second = scan(source);
    assert_eq!(first.get_tokens(), second.get_tokens());
    assert_eq!(first.get_errors(), second.get_errors());
    assert_eq!(first.has_error, second.has_error);
    assert_eq!(first.line_number, second.line_number);
    assert_eq!(first.get_tokens().len(), 14);
    assert_eq!(first.get_errors().len(), 2);
}

#[test]
fn a_scan_drops_what_the_scan_before_left() {
    let mut handler = TokenHandler::default();
    handler.scan_token("@\n\n1");
    assert!(handler.has_error);
    handler.scan_token("2");
    assert_eq!(handler.get_tokens(), &vec![number("2", "2", 1), eof(1)]);
    assert!(handler.get_errors().is_empty());
    assert!(!handler.has_error);
    assert_eq!(handler.line_number, 1);
}

#[test]
fn a_small_program() {
    let handler = scan("var a = (1 + 2) * 3;\nif (a >= 9) { print \"ok\"; }");
    assert_eq!(
        handler.get_tokens(),
        &vec![
            plain(TokenKind::Keyword, "var", 1),
            plain(TokenKind::Identifier, "a", 1),
            plain(TokenKind::Equal, "=", 1),
            plain(TokenKind::LeftParen, "(", 1),
            number("1", "1", 1),
            plain(TokenKind::Plus, "+", 1),
            number("2", "2", 1),
            plain(TokenKind::RightParen, ")", 1),
            plain(TokenKind::Star, "*", 1),
            number("3", "3", 1),
            plain(TokenKind::Semicolon, ";", 1),
            plain(TokenKind::Keyword, "if", 2),
            plain(TokenKind::LeftParen, "(", 2),
            plain(TokenKind::Identifier, "a", 2),
            plain(TokenKind::GreaterEqual, ">=", 2),
            number("9", "9", 2),
            plain(TokenKind::RightParen, ")", 2),
            plain(TokenKind::LeftBrace, "{", 2),
            plain(TokenKind::Keyword, "print", 2),
            string("\"ok\"", "ok", 2),
            plain(TokenKind::Semicolon, ";", 2),
            plain(TokenKind::RightBrace, "}", 2),
            eof(2),
        ]
    );
    assert!(!handler.has_error);
}

#[test]
fn kinds_have_their_printed_names() {
    let names = [
        (TokenKind::LeftParen, "LEFT_PAREN"),
        (TokenKind::RightParen, "RIGHT_PAREN"),
        (TokenKind::LeftBrace, "LEFT_BRACE"),
        (TokenKind::RightBrace, "RIGHT_BRACE"),
        (TokenKind::Star, "STAR"),
        (TokenKind::Plus, "PLUS"),
        (TokenKind::Minus, "MINUS"),
        (TokenKind::Comma, "COMMA"),
        (TokenKind::Dot, "DOT"),
        (TokenKind::Semicolon, "SEMICOLON"),
        (TokenKind::Slash, "SLASH"),
        (TokenKind::Equal, "EQUAL"),
        (TokenKind::EqualEqual, "EQUAL_EQUAL"),
        (TokenKind::Bang, "BANG"),
        (TokenKind::BangEqual, "BANG_EQUAL"),
        (TokenKind::Less, "LESS"),
        (TokenKind::LessEqual, "LESS_EQUAL"),
        (TokenKind::Greater, "GREATER"),
        (TokenKind::GreaterEqual, "GREATER_EQUAL"),
        (TokenKind::Number, "NUMBER"),
        (TokenKind::String, "STRING"),
        (TokenKind::Identifier, "IDENTIFIER"),
        (TokenKind::Keyword, "KEYWORD"),
        (TokenKind::Eof, "EOF"),
    ];
    for (kind, name) in names {
        assert_eq!(kind.name(), name);
    }
}

#[test]
fn output_lines_of_tokens() {
    assert_eq!(plain(TokenKind::LeftParen, "(", 1).output_line(""), "LEFT_PAREN ( null");
    assert_eq!(plain(TokenKind::EqualEqual, "==", 1).output_line("x"), "EQUAL_EQUAL == null");
    assert_eq!(eof(4).output_line(""), "EOF  null");
    assert_eq!(string("\"abc\"", "abc", 1).output_line(""), "STRING \"abc\" abc");
    let handler = scan("12.5 7 foo_1 and bar");
    let lines: Vec<String> = handler
        .get_tokens()
        .iter()
        .map(|t| match &t.literal {
            Literal::Number(text) => t.output_line(&shown_value(text)),
            _ => t.output_line(""),
        })
        .collect();
    assert_eq!(
        lines,
        vec![
            "NUMBER 12.5 12.5",
            "NUMBER 7 7.0",
            "IDENTIFIER foo_1 null",
            "KEYWORD and null",
            "IDENTIFIER bar null",
            "EOF  null",
        ]
    );
}
