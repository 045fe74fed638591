use lexscan::Scanner;
use lexscan::Token;
use lexscan::TokenizationError;

#[test]
fn number_with_dot_test() -> Result<(), TokenizationError> {
    let src = r#"3234.1245"#;
    let mut scanner = Scanner::new(&src);
    let tokens = scanner.scan()?;
    assert_eq!(
        tokens,
        vec![Token::Number {
            line: 0,
            lexeme: "3234.1245"
        }]
    );
    Ok(())
}

#[test]
fn simple_scanner_test() -> Result<(), TokenizationError> {
    let src = "\n            (\n\"test\"\n                \"\u{1F602}\" // hello this is a comment\n                ! // hello this is another comment\n                !=\n                /\n                312455()\n                3234.1245\n                \" multi-line text is \n                also ok\"\n            )\n        //this is the last comment of the file";
    let mut scanner = Scanner::new(&src);
    let tokens = scanner.scan()?;
    assert_eq!(
        tokens,
        vec![
            Token::LeftParen { line: 1 },
            Token::String {
                line: 2,
                lexeme: "test"
            },
            Token::String {
                line: 3,
                lexeme: "\u{1F602}"
            },
            Token::Comment {
                line: 3,
                lexeme: "// hello this is a comment\n"
            },
            Token::Bang { line: 4 },
            Token::Comment {
                line: 4,
                lexeme: "// hello this is another comment\n"
            },
            Token::BangEqual { line: 5 },
            Token::Slash,
            Token::Number {
                line: 7,
                lexeme: "312455"
            },
            Token::LeftParen { line: 7 },
            Token::RightParen { line: 7 },
            Token::Number {
                line: 8,
                lexeme: "3234.1245"
            },
            Token::String {
                line: 10,
                lexeme: " multi-line text is \n                also ok"
            },
            Token::RightParen { line: 11 },
            Token::Comment {
                line: 12,
                lexeme: "//this is the last comment of the file"
            },
        ]
    );
    Ok(())
}

#[test]
fn empty_source_scans_to_no_tokens() {
    let mut scanner = Scanner::new("");
    assert_eq!(scanner.scan(), Ok(vec![]));
}

#[test]
fn whitespace_only_scans_to_no_tokens() {
    let mut scanner = Scanner::new("  \t\r\n \n\t ");
    assert_eq!(scanner.scan(), Ok(vec![]));
}

#[test]
fn string_lexeme_excludes_quotes() {
    let mut scanner = Scanner::new("\"abc\"");
    assert_eq!(
        scanner.scan(),
        Ok(vec![Token::String {
            line: 0,
            lexeme: "abc"
        }])
    );
}

#[test]
fn string_line_is_line_of_closing_quote() {
    let mut scanner = Scanner::new("\"a\nb\"");
    assert_eq!(
        scanner.scan(),
        Ok(vec![Token::String {
            line: 1,
            lexeme: "a\nb"
        }])
    );
}

#[test]
fn unterminated_string_fails() {
    let mut scanner = Scanner::new("\"abc");
    assert_eq!(
        scanner.scan(),
        Err(TokenizationError::NoStringDelimiterFound)
    );
}

#[test]
fn unterminated_string_fails_after_other_tokens() {
    let mut scanner = Scanner::new("() \"abc\ndef");
    assert_eq!(
        scanner.scan(),
        Err(TokenizationError::NoStringDelimiterFound)
    );
}

#[test]
fn comment_lexeme_includes_terminating_newline() {
    let mut scanner = Scanner::new("// hi\n(");
    assert_eq!(
        scanner.scan(),
        Ok(vec![
            Token::Comment {
                line: 0,
                lexeme: "// hi\n"
            },
            Token::LeftParen { line: 1 },
        ])
    );
}

#[test]
fn comment_at_end_of_input_has_no_newline() {
    let mut scanner = Scanner::new("// hi");
    assert_eq!(
        scanner.scan(),
        Ok(vec![Token::Comment {
            line: 0,
            lexeme: "// hi"
        }])
    );
}

#[test]
fn comment_reported_on_its_starting_line() {
    let mut scanner = Scanner::new("(\n// c\n)");
    assert_eq!(
        scanner.scan(),
        Ok(vec![
            Token::LeftParen { line: 0 },
            Token::Comment {
                line: 1,
                lexeme: "// c\n"
            },
            Token::RightParen { line: 2 },
        ])
    );
}

#[test]
fn integer_number_lexeme() {
    let mut scanner = Scanner::new("312455");
    assert_eq!(
        scanner.scan(),
        Ok(vec![Token::Number {
            line: 0,
            lexeme: "312455"
        }])
    );
}

#[test]
fn number_with_trailing_dot_is_one_token() {
    let mut scanner = Scanner::new("3.)");
    assert_eq!(
        scanner.scan(),
        Ok(vec![
            Token::Number {
                line: 0,
                lexeme: "3."
            },
            Token::RightParen { line: 0 },
        ])
    );
}

#[test]
fn bang_alone() {
    let mut scanner = Scanner::new("!");
    assert_eq!(scanner.scan(), Ok(vec![Token::Bang { line: 0 }]));
}

#[test]
fn bang_equal_is_one_token() {
    let mut scanner = Scanner::new("!=");
    assert_eq!(scanner.scan(), Ok(vec![Token::BangEqual { line: 0 }]));
}

#[test]
fn bang_before_other_token_stands_alone() {
    let mut scanner = Scanner::new("!(");
    assert_eq!(
        scanner.scan(),
        Ok(vec![Token::Bang { line: 0 }, Token::LeftParen { line: 0 }])
    );
}

#[test]
fn slash_alone() {
    let mut scanner = Scanner::new("/");
    assert_eq!(scanner.scan(), Ok(vec![Token::Slash]));
}

#[test]
fn third_line_token_carries_line_two() {
    let mut scanner = Scanner::new("(\n)\n!");
    assert_eq!(
        scanner.scan(),
        Ok(vec![
            Token::LeftParen { line: 0 },
            Token::RightParen { line: 1 },
            Token::Bang { line: 2 },
        ])
    );
}

#[test]
fn third_line_error_carries_line_two() {
    let mut scanner = Scanner::new("(\n)\n%");
    assert_eq!(
        scanner.scan(),
        Err(TokenizationError::UnrecognizedToken { line: 2 })
    );
}

#[test]
fn unrecognized_token_on_first_line() {
    let mut scanner = Scanner::new("%");
    assert_eq!(
        scanner.scan(),
        Err(TokenizationError::UnrecognizedToken { line: 0 })
    );
}

#[test]
fn is_digit_accepts_exactly_ascii_digits() {
    assert!(Scanner::is_digit('0'));
    assert!(Scanner::is_digit('5'));
    assert!(Scanner::is_digit('9'));
    assert!(!Scanner::is_digit('/'));
    assert!(!Scanner::is_digit(':'));
    assert!(!Scanner::is_digit('a'));
}

#[test]
fn next_if_char_is_returns_none_on_mismatch() {
    let mut scanner = Scanner::new("!=");
    assert_eq!(scanner.next_if_char_is('='), None);
}

#[test]
fn next_if_char_is_consumes_on_match() {
    let mut scanner = Scanner::new("!=");
    assert_eq!(scanner.next_if_char_is('!'), Some(0));
    assert_eq!(scanner.next_if_char_is('='), Some(1));
}
