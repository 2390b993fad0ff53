use rlox::bytes::{alpha, alphanumeric, digit, member, ByteClass};
use rlox::text::slice;
use rlox::keyword::reserved_word;
use rlox::{scan, ScanError, Scanner, Token, TokenType};

fn kinds<'a>(tokens: &[Token<'a>]) -> Vec<TokenType<'a>> {
    tokens.iter().map(|t| t.typ).collect()
}

fn number(token: &Token) -> f64 {
    assert_eq!(token.typ, TokenType::Number);
    token.lexeme.parse().unwrap()
}

#[test]
fn empty_source_yields_only_eof() {
    let (tokens, errors) = scan("");
    assert_eq!(tokens, vec![Token { typ: TokenType::Eof, lexeme: "", line: 1 }]);
    assert!(errors.is_empty());
}

#[test]
fn last_token_is_the_only_eof() {
    for src in ["", "(", "1 + 2", "\"open", "@@@", "// c\n\n", "var x = \"s\";\nprint x;"] {
        let (tokens, _) = scan(src);
        let last = tokens.last().unwrap();
        assert_eq!(last.typ, TokenType::Eof);
        assert_eq!(last.lexeme, "");
        let eofs = tokens.iter().filter(|t| t.typ == TokenType::Eof).count();
        assert_eq!(eofs, 1);
    }
}

#[test]
fn single_punctuation() {
    let cases = [
        ("(", TokenType::LParen),
        (")", TokenType::RParen),
        ("{", TokenType::LBrace),
        ("}", TokenType::RBrace),
        (",", TokenType::Comma),
        (".", TokenType::Dot),
        ("-", TokenType::Minus),
        ("+", TokenType::Plus),
        (";", TokenType::Semicolon),
        ("*", TokenType::Star),
    ];
    for (src, typ) in cases {
        let (tokens, errors) = scan(src);
        assert_eq!(
            tokens,
            vec![
                Token { typ, lexeme: src, line: 1 },
                Token { typ: TokenType::Eof, lexeme: "", line: 1 },
            ]
        );
        assert!(errors.is_empty());
    }
}

#[test]
fn slash_alone_is_a_token() {
    let (tokens, errors) = scan("/");
    assert_eq!(
        tokens,
        vec![
            Token { typ: TokenType::Slash, lexeme: "/", line: 1 },
            Token { typ: TokenType::Eof, lexeme: "", line: 1 },
        ]
    );
    assert!(errors.is_empty());
}

#[test]
fn maximal_munch_bang_equal() {
    let (tokens, errors) = scan("!=");
    assert_eq!(
        tokens,
        vec![
            Token { typ: TokenType::BangEqual, lexeme: "!=", line: 1 },
            Token { typ: TokenType::Eof, lexeme: "", line: 1 },
        ]
    );
    assert!(errors.is_empty());
}

#[test]
fn bang_alone() {
    let (tokens, errors) = scan("!");
    assert_eq!(
        tokens,
        vec![
            Token { typ: TokenType::Bang, lexeme: "!", line: 1 },
            Token { typ: TokenType::Eof, lexeme: "", line: 1 },
        ]
    );
    assert!(errors.is_empty());
}

#[test]
fn operators_one_and_two_bytes() {
    let (tokens, errors) = scan("! != = == < <= > >=");
    assert_eq!(
        kinds(&tokens),
        vec![
            TokenType::Bang,
            TokenType::BangEqual,
            TokenType::Equal,
            TokenType::EqualEqual,
            TokenType::Less,
            TokenType::LessEqual,
            TokenType::Greater,
            TokenType::GreaterEqual,
            TokenType::Eof,
        ]
    );
    let lexemes: Vec<&str> = tokens.iter().map(|t| t.lexeme).collect();
    assert_eq!(lexemes, vec!["!", "!=", "=", "==", "<", "<=", ">", ">=", ""]);
    assert!(errors.is_empty());
}

#[test]
fn three_equals_are_two_tokens() {
    let (tokens, _) = scan("===");
    assert_eq!(kinds(&tokens), vec![TokenType::EqualEqual, TokenType::Equal, TokenType::Eof]);
}

#[test]
fn line_comment_is_skipped() {
    let (tokens, errors) = scan("1 // comment\n2");
    assert_eq!(tokens.len(), 3);
    assert_eq!(number(&tokens[0]), 1.0);
    assert_eq!(tokens[0].line, 1);
    assert_eq!(number(&tokens[1]), 2.0);
    assert_eq!(tokens[1].line, 2);
    assert_eq!(tokens[2], Token { typ: TokenType::Eof, lexeme: "", line: 2 });
    assert!(errors.is_empty());
}

#[test]
fn comment_runs_to_end_of_input() {
    let (tokens, errors) = scan("+ // no newline behind this");
    assert_eq!(kinds(&tokens), vec![TokenType::Plus, TokenType::Eof]);
    assert_eq!(tokens[1].line, 1);
    assert!(errors.is_empty());
}

#[test]
fn comment_does_not_swallow_the_newline() {
    let (tokens, _) = scan("//\n//\n;");
    assert_eq!(tokens[0], Token { typ: TokenType::Semicolon, lexeme: ";", line: 3 });
}

#[test]
fn string_round_trip() {
    let (tokens, errors) = scan("\"hello\"");
    assert_eq!(
        tokens,
        vec![
            Token { typ: TokenType::Str("hello"), lexeme: "\"hello\"", line: 1 },
            Token { typ: TokenType::Eof, lexeme: "", line: 1 },
        ]
    );
    assert!(errors.is_empty());
}

#[test]
fn empty_string() {
    let (tokens, errors) = scan("\"\"");
    assert_eq!(tokens[0], Token { typ: TokenType::Str(""), lexeme: "\"\"", line: 1 });
    assert_eq!(tokens.len(), 2);
    assert!(errors.is_empty());
}

#[test]
fn unterminated_string() {
    let (tokens, errors) = scan("\"abc");
    assert_eq!(tokens, vec![Token { typ: TokenType::Eof, lexeme: "", line: 1 }]);
    assert_eq!(
        errors,
        vec![ScanError { line: 1, message: "Unterminated string.".to_string() }]
    );
}

#[test]
fn unterminated_string_reports_the_line_where_the_scan_ended() {
    let (tokens, errors) = scan("+\n\"abc\ndef\n");
    assert_eq!(
        tokens,
        vec![
            Token { typ: TokenType::Plus, lexeme: "+", line: 1 },
            Token { typ: TokenType::Eof, lexeme: "", line: 4 },
        ]
    );
    assert_eq!(
        errors,
        vec![ScanError { line: 4, message: "Unterminated string.".to_string() }]
    );
}

#[test]
fn multi_line_string() {
    let (tokens, errors) = scan("\"a\nb\"");
    assert_eq!(
        tokens,
        vec![
            Token { typ: TokenType::Str("a\nb"), lexeme: "\"a\nb\"", line: 2 },
            Token { typ: TokenType::Eof, lexeme: "", line: 2 },
        ]
    );
    assert!(errors.is_empty());
}

#[test]
fn token_after_multi_line_string_reports_the_new_line() {
    let (tokens, _) = scan("\"a\nb\" +");
    assert_eq!(tokens[1], Token { typ: TokenType::Plus, lexeme: "+", line: 2 });
}

#[test]
fn number_with_trailing_dot() {
    let (tokens, errors) = scan("123.");
    assert_eq!(tokens.len(), 3);
    assert_eq!(tokens[0].lexeme, "123");
    assert_eq!(number(&tokens[0]), 123.0);
    assert_eq!(tokens[1], Token { typ: TokenType::Dot, lexeme: ".", line: 1 });
    assert_eq!(tokens[2].typ, TokenType::Eof);
    assert!(errors.is_empty());
}

#[test]
fn number_with_fraction() {
    let (tokens, errors) = scan("123.456");
    assert_eq!(tokens.len(), 2);
    assert_eq!(tokens[0].lexeme, "123.456");
    assert_eq!(number(&tokens[0]), 123.456);
    assert!(errors.is_empty());
}

#[test]
fn number_takes_one_fraction_only() {
    let (tokens, _) = scan("1.2.3");
    assert_eq!(
        kinds(&tokens),
        vec![TokenType::Number, TokenType::Dot, TokenType::Number, TokenType::Eof]
    );
    assert_eq!(tokens[0].lexeme, "1.2");
    assert_eq!(tokens[2].lexeme, "3");
}

#[test]
fn leading_dot_is_not_part_of_a_number() {
    let (tokens, _) = scan(".5");
    assert_eq!(kinds(&tokens), vec![TokenType::Dot, TokenType::Number, TokenType::Eof]);
    assert_eq!(number(&tokens[1]), 5.0);
}

#[test]
fn minus_is_not_part_of_a_number() {
    let (tokens, _) = scan("-7");
    assert_eq!(kinds(&tokens), vec![TokenType::Minus, TokenType::Number, TokenType::Eof]);
    assert_eq!(number(&tokens[1]), 7.0);
}

#[test]
fn number_followed_by_a_method_call() {
    let (tokens, _) = scan("12.abs");
    assert_eq!(
        kinds(&tokens),
        vec![TokenType::Number, TokenType::Dot, TokenType::Ident, TokenType::Eof]
    );
    assert_eq!(tokens[0].lexeme, "12");
    assert_eq!(tokens[2].lexeme, "abs");
}

#[test]
fn scanning_twice_gives_the_same_result() {
    let src = "var a = \"x\";\n@ 1.5 // done\n\"open";
    let mut first = Scanner::new(src);
    let first_tokens = first.scan();
    let mut second = Scanner::new(src);
    let second_tokens = second.scan();
    assert_eq!(first_tokens, second_tokens);
    assert_eq!(first.errors(), second.errors());
    assert_eq!(first_tokens.len(), 7);
    assert_eq!(first.errors().len(), 2);
}

#[test]
fn unrecognized_character() {
    let (tokens, errors) = scan("@");
    assert_eq!(tokens, vec![Token { typ: TokenType::Eof, lexeme: "", line: 1 }]);
    assert_eq!(
        errors,
        vec![ScanError { line: 1, message: "Unexpected character.".to_string() }]
    );
}

#[test]
fn scan_goes_on_after_an_error() {
    let (tokens, errors) = scan("(@)\n#+");
    assert_eq!(
        kinds(&tokens),
        vec![TokenType::LParen, TokenType::RParen, TokenType::Plus, TokenType::Eof]
    );
    assert_eq!(
        errors,
        vec![
            ScanError { line: 1, message: "Unexpected character.".to_string() },
            ScanError { line: 2, message: "Unexpected character.".to_string() },
        ]
    );
}

#[test]
fn every_byte_of_a_wide_character_is_unexpected() {
    let (tokens, errors) = scan("é+");
    assert_eq!(
        tokens,
        vec![
            Token { typ: TokenType::Plus, lexeme: "+", line: 1 },
            Token { typ: TokenType::Eof, lexeme: "", line: 1 },
        ]
    );
    assert_eq!(errors.len(), 2);
}

#[test]
fn wide_characters_inside_a_string() {
    let (tokens, errors) = scan("\"héllo ✓\" ;");
    assert_eq!(
        tokens[0],
        Token { typ: TokenType::Str("héllo ✓"), lexeme: "\"héllo ✓\"", line: 1 }
    );
    assert_eq!(tokens[1].typ, TokenType::Semicolon);
    assert!(errors.is_empty());
}

#[test]
fn wide_characters_inside_a_comment() {
    let (tokens, errors) = scan("// ünïcödé\n*");
    assert_eq!(tokens[0], Token { typ: TokenType::Star, lexeme: "*", line: 2 });
    assert!(errors.is_empty());
}

#[test]
fn blanks_yield_nothing() {
    let (tokens, errors) = scan(" \t\r\n \n");
    assert_eq!(tokens, vec![Token { typ: TokenType::Eof, lexeme: "", line: 3 }]);
    assert!(errors.is_empty());
}

#[test]
fn identifiers() {
    let (tokens, errors) = scan("foo _bar baz9 __ a_b_c");
    let lexemes: Vec<&str> = tokens.iter().map(|t| t.lexeme).collect();
    assert_eq!(lexemes, vec!["foo", "_bar", "baz9", "__", "a_b_c", ""]);
    for token in &tokens[..5] {
        assert_eq!(token.typ, TokenType::Ident);
    }
    assert!(errors.is_empty());
}

#[test]
fn keywords() {
    let src = "and class else false fun for if nil or print return super this true var while";
    let (tokens, errors) = scan(src);
    assert_eq!(
        kinds(&tokens),
        vec![
            TokenType::And,
            TokenType::Class,
            TokenType::Else,
            TokenType::False,
            TokenType::Fun,
            TokenType::For,
            TokenType::If,
            TokenType::Nil,
            TokenType::Or,
            TokenType::Print,
            TokenType::Return,
            TokenType::Super,
            TokenType::This,
            TokenType::True,
            TokenType::Var,
            TokenType::While,
            TokenType::Eof,
        ]
    );
    let words: Vec<&str> = src.split(' ').collect();
    for (token, word) in tokens.iter().zip(words) {
        assert_eq!(token.lexeme, word);
    }
    assert!(errors.is_empty());
}

#[test]
fn keyword_prefix_is_an_identifier() {
    let (tokens, _) = scan("forest");
    assert_eq!(
        tokens,
        vec![
            Token { typ: TokenType::Ident, lexeme: "forest", line: 1 },
            Token { typ: TokenType::Eof, lexeme: "", line: 1 },
        ]
    );
}

#[test]
fn keywords_are_case_sensitive() {
    let (tokens, _) = scan("For IF nil_ 4or");
    assert_eq!(
        kinds(&tokens),
        vec![
            TokenType::Ident,
            TokenType::Ident,
            TokenType::Ident,
            TokenType::Number,
            TokenType::Or,
            TokenType::Eof,
        ]
    );
}

#[test]
fn a_small_program() {
    let src = "fun add(a, b) {\n  return a + b; // sum\n}\nprint add(1, 2.5) >= 3;\n";
    let (tokens, errors) = scan(src);
    assert!(errors.is_empty());
    let expected = vec![
        (TokenType::Fun, "fun", 1),
        (TokenType::Ident, "add", 1),
        (TokenType::LParen, "(", 1),
        (TokenType::Ident, "a", 1),
        (TokenType::Comma, ",", 1),
        (TokenType::Ident, "b", 1),
        (TokenType::RParen, ")", 1),
        (TokenType::LBrace, "{", 1),
        (TokenType::Return, "return", 2),
        (TokenType::Ident, "a", 2),
        (TokenType::Plus, "+", 2),
        (TokenType::Ident, "b", 2),
        (TokenType::Semicolon, ";", 2),
        (TokenType::RBrace, "}", 3),
        (TokenType::Print, "print", 4),
        (TokenType::Ident, "add", 4),
        (TokenType::LParen, "(", 4),
        (TokenType::Number, "1", 4),
        (TokenType::Comma, ",", 4),
        (TokenType::Number, "2.5", 4),
        (TokenType::RParen, ")", 4),
        (TokenType::GreaterEqual, ">=", 4),
        (TokenType::Number, "3", 4),
        (TokenType::Semicolon, ";", 4),
        (TokenType::Eof, "", 5),
    ];
    assert_eq!(tokens.len(), expected.len());
    for (token, (typ, lexeme, line)) in tokens.iter().zip(expected) {
        assert_eq!(*token, Token { typ, lexeme, line });
    }
}

#[test]
fn lexemes_are_slices_of_the_source() {
    let src = "a+\"s\"";
    let (tokens, _) = scan(src);
    assert_eq!(tokens[0].lexeme.as_ptr(), src.as_ptr());
    assert_eq!(tokens[1].lexeme.as_ptr(), src[1..].as_ptr());
    match tokens[2].typ {
        TokenType::Str(text) => assert_eq!(text.as_ptr(), src[3..].as_ptr()),
        _ => panic!("not a string"),
    }
}

#[test]
fn cursor_primitives() {
    let mut scanner = Scanner::new("ab");
    assert_eq!(scanner.peek(), Some(b'a'));
    assert_eq!(scanner.peek_next(), Some(b'b'));
    assert_eq!(scanner.advance(), Some(b'a'));
    assert_eq!(scanner.peek(), Some(b'b'));
    assert_eq!(scanner.peek_next(), None);
    assert!(!scanner.advance_if_match(b'a'));
    assert_eq!(scanner.peek(), Some(b'b'));
    assert!(scanner.advance_if_match(b'b'));
    assert_eq!(scanner.peek(), None);
    assert_eq!(scanner.peek_next(), None);
    assert_eq!(scanner.advance(), None);
    assert!(!scanner.advance_if_match(b'b'));
}

#[test]
fn cursor_primitives_on_empty_source() {
    let mut scanner = Scanner::new("");
    assert_eq!(scanner.peek(), None);
    assert_eq!(scanner.peek_next(), None);
    assert_eq!(scanner.advance(), None);
    assert!(!scanner.advance_if_match(b'x'));
}

#[test]
fn scan_token_reads_one_lexeme() {
    let mut scanner = Scanner::new("<= // c\nx");
    assert_eq!(
        scanner.scan_token(),
        Some(Token { typ: TokenType::LessEqual, lexeme: "<=", line: 1 })
    );
    assert_eq!(scanner.scan_token(), None);
    assert_eq!(scanner.peek(), Some(b'/'));
    assert_eq!(scanner.scan_token(), None);
    assert_eq!(scanner.peek(), Some(b'\n'));
    assert_eq!(scanner.scan_token(), None);
    assert_eq!(
        scanner.scan_token(),
        Some(Token { typ: TokenType::Ident, lexeme: "x", line: 2 })
    );
    assert_eq!(scanner.peek(), None);
    assert!(scanner.errors().is_empty());
}

#[test]
fn scan_continues_from_the_cursor() {
    let mut scanner = Scanner::new("(+)");
    scanner.advance();
    let tokens = scanner.scan();
    assert_eq!(kinds(&tokens), vec![TokenType::Plus, TokenType::RParen, TokenType::Eof]);
    assert_eq!(tokens[0].lexeme, "+");
}

#[test]
fn scan_at_the_end_yields_eof_again() {
    let mut scanner = Scanner::new("@\n");
    let first = scanner.scan();
    let second = scanner.scan();
    assert_eq!(first, vec![Token { typ: TokenType::Eof, lexeme: "", line: 2 }]);
    assert_eq!(second, first);
    assert_eq!(scanner.errors().len(), 1);
}

#[test]
fn sub_scanners_read_the_rest_of_their_lexeme() {
    let mut scanner = Scanner::new("\"s\" 4.25 while_");
    scanner.advance();
    assert_eq!(
        scanner.scan_str(),
        Some(Token { typ: TokenType::Str("s"), lexeme: "\"s\"", line: 1 })
    );
    assert_eq!(scanner.scan_token(), None);
    let mut scanner = Scanner::new("4.25");
    scanner.advance();
    assert_eq!(
        scanner.scan_num(),
        Some(Token { typ: TokenType::Number, lexeme: "4.25", line: 1 })
    );
    let mut scanner = Scanner::new("while_");
    scanner.advance();
    assert_eq!(
        scanner.scan_ident(),
        Some(Token { typ: TokenType::Ident, lexeme: "while_", line: 1 })
    );
}

#[test]
fn make_token_takes_the_current_lexeme() {
    let mut scanner = Scanner::new("abc");
    scanner.advance();
    scanner.advance();
    assert_eq!(
        scanner.make_token(TokenType::Ident),
        Token { typ: TokenType::Ident, lexeme: "ab", line: 1 }
    );
}

#[test]
fn skip_run_stops_at_the_first_byte_outside_the_class() {
    let mut scanner = Scanner::new("123abc\"x\ny");
    scanner.skip_run(ByteClass::Digit);
    assert_eq!(scanner.peek(), Some(b'a'));
    scanner.skip_run(ByteClass::Digit);
    assert_eq!(scanner.peek(), Some(b'a'));
    scanner.skip_run(ByteClass::Word);
    assert_eq!(scanner.peek(), Some(b'"'));
    scanner.advance();
    scanner.skip_run(ByteClass::CommentBody);
    assert_eq!(scanner.peek(), Some(b'\n'));
    scanner.skip_run(ByteClass::StringBody);
    assert_eq!(scanner.peek(), None);
}

#[test]
fn error_report() {
    let error = ScanError { line: 3, message: "Unexpected character.".to_string() };
    assert_eq!(error.report(), "[line 3] Error: Unexpected character.");
    let error = ScanError { line: 120, message: "Unterminated string.".to_string() };
    assert_eq!(error.report(), "[line 120] Error: Unterminated string.");
}

#[test]
fn error_report_writes_the_line_in_decimal() {
    for line in [0, 1, 9, 10, 11, 99, 100, 101, 4096, 1234567890, usize::MAX] {
        let error = ScanError { line, message: String::new() };
        assert_eq!(error.report(), format!("[line {}] Error: ", line));
    }
}

#[test]
fn scanned_errors_report_their_line() {
    let (_, errors) = scan("\n\n#\n\"");
    let reports: Vec<String> = errors.iter().map(|e| e.report()).collect();
    assert_eq!(
        reports,
        vec!["[line 3] Error: Unexpected character.", "[line 4] Error: Unterminated string."]
    );
}

#[test]
fn reserved_words_are_looked_up_whole() {
    assert_eq!(reserved_word("while"), Some(TokenType::While));
    assert_eq!(reserved_word("whil"), None);
    assert_eq!(reserved_word("whilee"), None);
    assert_eq!(reserved_word(""), None);
    assert_eq!(reserved_word("nil"), Some(TokenType::Nil));
    assert_eq!(reserved_word("Nil"), None);
}

#[test]
fn byte_classes() {
    for b in 0..=255u8 {
        assert_eq!(digit(b), b.is_ascii_digit());
        assert_eq!(alpha(b), b.is_ascii_alphabetic() || b == b'_');
        assert_eq!(alphanumeric(b), b.is_ascii_alphanumeric() || b == b'_');
        assert_eq!(member(ByteClass::Digit, b), b.is_ascii_digit());
        assert_eq!(member(ByteClass::Word, b), b.is_ascii_alphanumeric() || b == b'_');
        assert_eq!(member(ByteClass::StringBody, b), b != b'"');
        assert_eq!(member(ByteClass::CommentBody, b), b != b'\n');
    }
}

#[test]
fn slice_takes_the_bytes_between_two_positions() {
    let text = "aé\"b✓c";
    assert_eq!(slice(text, 0, 0), "");
    assert_eq!(slice(text, 0, 1), "a");
    assert_eq!(slice(text, 1, 3), "é");
    assert_eq!(slice(text, 3, 5), "\"b");
    assert_eq!(slice(text, 5, 8), "✓");
    assert_eq!(slice(text, 8, 9), "c");
    assert_eq!(slice(text, 9, 9), "");
    assert_eq!(slice(text, 0, 9), text);
}

#[test]
fn lines_of_tokens_rise() {
    let (tokens, _) = scan("a\nb \"x\ny\" c\n\n// z\nd");
    let lines: Vec<usize> = tokens.iter().map(|t| t.line).collect();
    assert_eq!(lines, vec![1, 2, 3, 3, 6, 6]);
}

#[test]
fn advance_moves_the_cursor_only() {
    let mut scanner = Scanner::new("\n\n+");
    assert_eq!(scanner.advance(), Some(b'\n'));
    assert!(scanner.advance_if_match(b'\n'));
    assert_eq!(
        scanner.scan_token(),
        Some(Token { typ: TokenType::Plus, lexeme: "+", line: 1 })
    );
    assert_eq!(scanner.scan(), vec![Token { typ: TokenType::Eof, lexeme: "", line: 1 }]);
}

#[test]
fn lexemes_count_their_newlines() {
    let mut scanner = Scanner::new("\n\n+ \"a\nb\" \n-");
    assert_eq!(scanner.scan_token(), None);
    assert_eq!(scanner.scan_token(), None);
    assert_eq!(
        scanner.scan_token(),
        Some(Token { typ: TokenType::Plus, lexeme: "+", line: 3 })
    );
    assert_eq!(scanner.scan_token(), None);
    assert_eq!(
        scanner.scan_token(),
        Some(Token { typ: TokenType::Str("a\nb"), lexeme: "\"a\nb\"", line: 4 })
    );
    assert_eq!(
        scanner.scan(),
        vec![
            Token { typ: TokenType::Minus, lexeme: "-", line: 5 },
            Token { typ: TokenType::Eof, lexeme: "", line: 5 },
        ]
    );
    assert!(scanner.errors().is_empty());
}

#[test]
fn skip_run_counts_the_newlines_it_passes() {
    let mut scanner = Scanner::new("a\nb\n\"+");
    scanner.skip_run(ByteClass::CommentBody);
    assert_eq!(scanner.peek(), Some(b'\n'));
    scanner.skip_run(ByteClass::StringBody);
    assert_eq!(scanner.peek(), Some(b'"'));
    scanner.advance();
    assert_eq!(
        scanner.scan_token(),
        Some(Token { typ: TokenType::Plus, lexeme: "+", line: 3 })
    );
}

#[test]
fn a_lexeme_can_be_begun_anywhere() {
    let mut scanner = Scanner::new("+ \"s\" 4.25 nil");
    scanner.advance();
    scanner.advance();
    scanner.begin_lexeme();
    assert_eq!(scanner.advance(), Some(b'"'));
    assert_eq!(
        scanner.scan_str(),
        Some(Token { typ: TokenType::Str("s"), lexeme: "\"s\"", line: 1 })
    );
    scanner.advance();
    scanner.begin_lexeme();
    assert_eq!(scanner.advance(), Some(b'4'));
    assert_eq!(
        scanner.scan_num(),
        Some(Token { typ: TokenType::Number, lexeme: "4.25", line: 1 })
    );
    scanner.advance();
    scanner.begin_lexeme();
    assert_eq!(scanner.advance(), Some(b'n'));
    assert_eq!(
        scanner.scan_ident(),
        Some(Token { typ: TokenType::Nil, lexeme: "nil", line: 1 })
    );
    scanner.begin_lexeme();
    assert_eq!(
        scanner.make_token(TokenType::Eof),
        Token { typ: TokenType::Eof, lexeme: "", line: 1 }
    );
}

#[test]
fn scan_token_at_the_end_reads_nothing() {
    let mut scanner = Scanner::new("x");
    assert_eq!(
        scanner.scan_token(),
        Some(Token { typ: TokenType::Ident, lexeme: "x", line: 1 })
    );
    assert_eq!(scanner.scan_token(), None);
    assert_eq!(scanner.scan_token(), None);
    assert!(scanner.errors().is_empty());
    assert_eq!(scanner.scan(), vec![Token { typ: TokenType::Eof, lexeme: "", line: 1 }]);
    assert!(scanner.into_errors().is_empty());
}

#[test]
fn unterminated_string_after_other_errors() {
    let mut scanner = Scanner::new("#\n\"x\n");
    let tokens = scanner.scan();
    assert_eq!(tokens, vec![Token { typ: TokenType::Eof, lexeme: "", line: 3 }]);
    assert_eq!(
        scanner.into_errors(),
        vec![
            ScanError { line: 1, message: "Unexpected character.".to_string() },
            ScanError { line: 3, message: "Unterminated string.".to_string() },
        ]
    );
}
