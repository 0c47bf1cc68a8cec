use erl_aotc::lexer::{is_atom_char, is_atom_start, is_whitespace, len_utf8, Lexer, LexicalError};
use erl_aotc::token::Token;

fn tokens(input: &str) -> Result<Vec<(usize, Token, usize)>, LexicalError> {
    let mut lexer = Lexer::new(input);
    let mut out = Vec::new();
    loop {
        match lexer.next_token() {
            None => return Ok(out),
            Some(Ok(t)) => out.push(t),
            Some(Err(e)) => return Err(e),
        }
    }
}

fn atom(s: &str) -> Token {
    Token::AtomLiteral(s.to_string())
}

#[test]
fn empty_input_has_no_token() {
    assert_eq!(tokens(""), Ok(vec![]));
    assert_eq!(tokens("  \n\t "), Ok(vec![]));
}

#[test]
fn punctuation_with_places() {
    assert_eq!(
        tokens(",.{}[]()-"),
        Ok(vec![
            (0, Token::Comma, 1),
            (1, Token::Dot, 2),
            (2, Token::LCurlyBracket, 3),
            (3, Token::RCurlyBracket, 4),
            (4, Token::LSquareBracket, 5),
            (5, Token::RSquareBracket, 6),
            (6, Token::LParen, 7),
            (7, Token::RParen, 8),
            (8, Token::Minus, 9),
        ])
    );
}

#[test]
fn bare_atoms_take_the_longest_run() {
    assert_eq!(tokens("abc"), Ok(vec![(0, atom("abc"), 3)]));
    assert_eq!(tokens("_x1Y,b"), Ok(vec![(0, atom("_x1Y"), 4), (4, Token::Comma, 5), (5, atom("b"), 6)]));
    assert_eq!(tokens("  a  b"), Ok(vec![(2, atom("a"), 3), (5, atom("b"), 6)]));
}

#[test]
fn quoted_atoms() {
    assert_eq!(tokens("'a b'"), Ok(vec![(0, atom("a b"), 5)]));
    assert_eq!(tokens("''"), Ok(vec![(0, atom(""), 2)]));
    assert_eq!(tokens("'<='x"), Ok(vec![(0, atom("<="), 4), (4, atom("x"), 5)]));
}

#[test]
fn quoted_atom_closes_on_the_next_unescaped_quote() {
    assert_eq!(tokens(r"'a\'b'"), Ok(vec![(0, atom("a'b"), 6)]));
    assert_eq!(tokens(r"'a\\'"), Ok(vec![(0, atom("a\\"), 5)]));
}

#[test]
fn quoted_atom_ends_with_the_input() {
    assert_eq!(tokens("'abc"), Ok(vec![(0, atom("abc"), 4)]));
}

#[test]
fn strings_and_their_escapes() {
    assert_eq!(tokens(r#""""#), Ok(vec![(0, Token::StringLiteral(String::new()), 2)]));
    assert_eq!(tokens(r#""str""#), Ok(vec![(0, Token::StringLiteral("str".to_string()), 5)]));
    assert_eq!(
        tokens(r#""\'\"\\\/\n\r\t\e\s\v\f\b\d""#),
        Ok(vec![(
            0,
            Token::StringLiteral("'\"\\/\n\r\t\u{1e} \u{b}\u{c}\u{8}\u{7f}".to_string()),
            28
        )])
    );
}

#[test]
fn integers() {
    assert_eq!(tokens("0"), Ok(vec![(0, Token::IntLiteral(0), 1)]));
    assert_eq!(tokens("42"), Ok(vec![(0, Token::IntLiteral(42), 2)]));
    assert_eq!(tokens("007"), Ok(vec![(0, Token::IntLiteral(7), 3)]));
    assert_eq!(tokens("12,3"), Ok(vec![(0, Token::IntLiteral(12), 2), (2, Token::Comma, 3), (3, Token::IntLiteral(3), 4)]));
    assert_eq!(tokens("9223372036854775807"), Ok(vec![(0, Token::IntLiteral(i64::MAX), 19)]));
}

#[test]
fn minus_before_a_digit_begins_a_number() {
    assert_eq!(tokens("-5"), Ok(vec![(0, Token::IntLiteral(-5), 2)]));
    assert_eq!(tokens("-9223372036854775808"), Ok(vec![(0, Token::IntLiteral(i64::MIN), 20)]));
    assert_eq!(tokens("-0"), Ok(vec![(0, Token::IntLiteral(0), 2)]));
}

#[test]
fn minus_before_anything_else_is_a_token() {
    assert_eq!(tokens("-"), Ok(vec![(0, Token::Minus, 1)]));
    assert_eq!(tokens("-a"), Ok(vec![(0, Token::Minus, 1), (1, atom("a"), 2)]));
    assert_eq!(tokens("- 5"), Ok(vec![(0, Token::Minus, 1), (2, Token::IntLiteral(5), 3)]));
}

#[test]
fn number_at_the_end_of_input_is_read_once() {
    let mut lexer = Lexer::new("12");
    assert_eq!(lexer.next_token(), Some(Ok((0, Token::IntLiteral(12), 2))));
    assert_eq!(lexer.next_token(), None);
    assert_eq!(lexer.next_token(), None);
}

#[test]
fn error_unterminated_string() {
    assert_eq!(tokens(r#""abc"#), Err(LexicalError::UnterminatedStringLiteral));
    assert_eq!(tokens(r#"a, ""#), Err(LexicalError::UnterminatedStringLiteral));
}

#[test]
fn error_unexpected_escape_code() {
    assert_eq!(tokens(r#""\q""#), Err(LexicalError::UnexpectedEscapeCode('q')));
    assert_eq!(tokens(r#""\x20""#), Err(LexicalError::UnexpectedEscapeCode('x')));
    assert_eq!(tokens(r"'\z'"), Err(LexicalError::UnexpectedEscapeCode('z')));
}

#[test]
fn error_unexpected_end_of_file() {
    assert_eq!(tokens("\"abc\\"), Err(LexicalError::UnexpectedEndOfFile));
    assert_eq!(tokens("'abc\\"), Err(LexicalError::UnexpectedEndOfFile));
}

#[test]
fn error_unexpected_character() {
    assert_eq!(tokens("%"), Err(LexicalError::Unexpected('%')));
    assert_eq!(tokens("a Abc"), Err(LexicalError::Unexpected('A')));
    assert_eq!(tokens("a @"), Err(LexicalError::Unexpected('@')));
}

#[test]
fn error_invalid_integer() {
    assert_eq!(tokens("12ab"), Err(LexicalError::InvalidIntLiteral));
    assert_eq!(tokens("1_000"), Err(LexicalError::InvalidIntLiteral));
    assert_eq!(tokens("9223372036854775808"), Err(LexicalError::InvalidIntLiteral));
    assert_eq!(tokens("-9223372036854775809"), Err(LexicalError::InvalidIntLiteral));
    assert_eq!(tokens("99999999999999999999999999"), Err(LexicalError::InvalidIntLiteral));
}

#[test]
fn a_full_stop_ends_a_number() {
    assert_eq!(
        tokens("1.5"),
        Ok(vec![(0, Token::IntLiteral(1), 1), (1, Token::Dot, 2), (2, Token::IntLiteral(5), 3)])
    );
}

#[test]
fn places_count_bytes() {
    assert_eq!(tokens("'é' x"), Ok(vec![(0, atom("é"), 4), (5, atom("x"), 6)]));
    assert_eq!(
        tokens("'é' x \"日本\" 'a😀'"),
        Ok(vec![
            (0, atom("é"), 4),
            (5, atom("x"), 6),
            (7, Token::StringLiteral("日本".to_string()), 15),
            (16, atom("a😀"), 23),
        ])
    );
}

#[test]
fn places_are_those_of_char_indices() {
    let text = "\u{a0}ab,\u{2003}'é😀' 12 \"ü\"\u{3000}[-7]";
    let starts: Vec<usize> = text.char_indices().map(|(i, _)| i).collect();
    let mut lexer = Lexer::new(text);
    let mut count = 0;
    while let Some(r) = lexer.next_token() {
        let (start, _, end) = r.unwrap();
        assert!(starts.contains(&start), "{}", start);
        assert!(end == text.len() || starts.contains(&end), "{}", end);
        assert!(start < end);
        count += 1;
    }
    assert_eq!(count, 8);
}

#[test]
fn utf8_lengths() {
    let mut code: u32 = 0;
    while code <= 0x10ffff {
        if let Some(ch) = char::from_u32(code) {
            assert_eq!(len_utf8(ch), ch.len_utf8());
        }
        code += 1;
    }
}

#[test]
fn white_space_is_what_std_calls_white_space() {
    let mut code: u32 = 0;
    while code <= 0x10ffff {
        if let Some(ch) = char::from_u32(code) {
            assert_eq!(is_whitespace(ch), ch.is_whitespace(), "code {}", code);
        }
        code += 1;
    }
}

#[test]
fn character_classes() {
    let mut code: u32 = 0;
    while code <= 0x10ffff {
        if let Some(ch) = char::from_u32(code) {
            assert_eq!(is_atom_start(ch), ch.is_ascii_lowercase() || ch == '_');
            assert_eq!(is_atom_char(ch), ch.is_ascii_alphanumeric() || ch == '_');
        }
        code += 1;
    }
}

#[test]
fn unicode_white_space_is_skipped() {
    assert_eq!(tokens("\u{a0}a\u{2003}"), Ok(vec![(2, atom("a"), 3)]));
}

#[test]
fn a_failure_ends_the_reading() {
    for text in ["a % b", "a \"open", "a 12x b", "a \"\\q\" b", "a Big b"] {
        let mut lexer = Lexer::new(text);
        assert_eq!(lexer.next_token(), Some(Ok((0, atom("a"), 1))));
        assert!(matches!(lexer.next_token(), Some(Err(_))), "{:?}", text);
        assert_eq!(lexer.next_token(), None, "{:?}", text);
        assert_eq!(lexer.next_token(), None, "{:?}", text);
    }
}

#[test]
fn consume_hands_out_each_character_with_its_byte_offset() {
    for text in ["", "abc", "'é' x", "a😀b\u{a0}日本\n", "\u{7f}\u{80}\u{7ff}\u{800}\u{ffff}\u{10000}\u{10ffff}"] {
        let mut lexer = Lexer::new(text);
        for want in text.char_indices() {
            assert_eq!(lexer.look_ahead(), Some(want));
            assert_eq!(lexer.consume(), Some(want));
        }
        assert_eq!(lexer.look_ahead(), None);
        assert_eq!(lexer.consume(), None);
        assert_eq!(lexer.consume(), None);
    }
}

#[test]
fn un_consume_steps_back_over_one_character() {
    let text = "aé😀";
    let mut lexer = Lexer::new(text);
    lexer.un_consume();
    assert_eq!(lexer.consume(), Some((0, 'a')));
    assert_eq!(lexer.consume(), Some((1, 'é')));
    lexer.un_consume();
    assert_eq!(lexer.consume(), Some((1, 'é')));
    assert_eq!(lexer.consume(), Some((3, '😀')));
    assert_eq!(lexer.consume(), None);
    lexer.un_consume();
    assert_eq!(lexer.consume(), Some((3, '😀')));
    lexer.un_consume();
    lexer.un_consume();
    assert_eq!(lexer.consume(), Some((1, 'é')));
}

#[test]
fn digits_ahead() {
    let mut lexer = Lexer::new("a1");
    assert!(!lexer.is_digit_ahead());
    lexer.consume();
    assert!(lexer.is_digit_ahead());
    lexer.consume();
    assert!(!lexer.is_digit_ahead());
}

#[test]
fn escape_codes() {
    let table = [
        ('\'', '\''), ('"', '"'), ('\\', '\\'), ('/', '/'), ('n', '\n'), ('r', '\r'), ('t', '\t'),
        ('e', '\u{1e}'), ('s', ' '), ('v', '\u{b}'), ('f', '\u{c}'), ('b', '\u{8}'), ('d', '\u{7f}'),
    ];
    for (code, want) in table {
        let mut lexer = Lexer::new(&code.to_string());
        assert_eq!(lexer.escape_code(), Ok(want));
        assert_eq!(lexer.consume(), None);
    }
    let mut lexer = Lexer::new("x");
    assert_eq!(lexer.escape_code(), Err(LexicalError::UnexpectedEscapeCode('x')));
    let mut lexer = Lexer::new("");
    assert_eq!(lexer.escape_code(), Err(LexicalError::UnexpectedEndOfFile));
}
