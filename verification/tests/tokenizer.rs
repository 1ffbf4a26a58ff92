use repl_framework::{parse, ParseError};

#[test]
fn test_parse() {
    assert_eq!(
        parse(String::from(r#""hello world" world"#)).unwrap(),
        vec!["hello world", "world"]
    );
    assert_eq!(
        parse(String::from(r#"hello world"#)).unwrap(),
        vec!["hello", "world"]
    );
    assert_eq!(
        parse(String::from(r#""hello\"" world"#)).unwrap(),
        vec!["hello\"", "world"]
    );
    assert!(parse(String::from(r#"\hello"#)).is_err());
}

#[test]
fn empty_line_gives_one_empty_token() {
    assert_eq!(parse(String::new()).unwrap(), vec![""]);
}

#[test]
fn whitespace_only_line_gives_one_empty_token() {
    assert_eq!(parse(String::from("   ")).unwrap(), vec![""]);
}

#[test]
fn splits_at_spaces_and_collapses_runs() {
    assert_eq!(parse(String::from("a  b")).unwrap(), vec!["a", "b"]);
    assert_eq!(parse(String::from("one two three")).unwrap(), vec!["one", "two", "three"]);
}

#[test]
fn trailing_space_appends_final_empty_token() {
    assert_eq!(parse(String::from("a ")).unwrap(), vec!["a", ""]);
}

#[test]
fn quoted_region_keeps_spaces() {
    assert_eq!(
        parse(String::from(r#""hello world" world"#)).unwrap(),
        vec!["hello world", "world"]
    );
}

#[test]
fn single_quotes_work_like_double_quotes() {
    assert_eq!(
        parse(String::from("'hello world' world")).unwrap(),
        vec!["hello world", "world"]
    );
}

#[test]
fn other_quote_style_is_verbatim_inside_quotes() {
    assert_eq!(parse(String::from(r#""a'b""#)).unwrap(), vec!["a'b", ""]);
}

#[test]
fn escaped_quote_inside_quotes() {
    assert_eq!(
        parse(String::from(r#""hello\"" world"#)).unwrap(),
        vec!["hello\"", "world"]
    );
}

#[test]
fn adjacent_quoted_segments_stay_separate() {
    // The flush on quote open and close keeps `a` and `b` apart; the
    // mandatory flush at end of input appends one final empty token.
    assert_eq!(parse(String::from("'a'\"b\"")).unwrap(), vec!["a", "b", ""]);
}

#[test]
fn quote_after_word_flushes_pending_token() {
    assert_eq!(parse(String::from(r#""ab"cd"#)).unwrap(), vec!["ab", "cd"]);
}

#[test]
fn recognized_escapes_outside_quotes() {
    assert_eq!(parse(String::from(r"a\tb")).unwrap(), vec!["a\tb"]);
    assert_eq!(parse(String::from(r"a\nb")).unwrap(), vec!["a\nb"]);
    assert_eq!(parse(String::from(r"a\\")).unwrap(), vec!["a\\"]);
    assert_eq!(parse(String::from(r#"a\"b"#)).unwrap(), vec!["a\"b"]);
    assert_eq!(parse(String::from(r"a\'b")).unwrap(), vec!["a'b"]);
}

#[test]
fn an_escaped_backslash_still_escapes_the_next_character() {
    // Whether a character is escaped goes by the character just before
    // it alone, so the backslash that `\\` stands for escapes the `t`.
    assert_eq!(parse(String::from(r"\\t")).unwrap(), vec!["\\\t"]);
    assert_eq!(
        parse(String::from(r"a\\b")).unwrap_err(),
        ParseError::UnknownEscape
    );
}

#[test]
fn recognized_escapes_inside_quotes() {
    assert_eq!(parse(String::from(r#""a\tb""#)).unwrap(), vec!["a\tb", ""]);
    assert_eq!(parse(String::from(r#"'a\nb'"#)).unwrap(), vec!["a\nb", ""]);
}

#[test]
fn unknown_escape_is_an_error() {
    assert_eq!(
        parse(String::from(r"\hello")).unwrap_err(),
        ParseError::UnknownEscape
    );
    assert_eq!(
        parse(String::from(r#""a\qb""#)).unwrap_err(),
        ParseError::UnknownEscape
    );
}

#[test]
fn unterminated_quote_is_an_error() {
    assert_eq!(
        parse(String::from(r#""hello"#)).unwrap_err(),
        ParseError::UnterminatedQuote
    );
    assert_eq!(
        parse(String::from("'oops")).unwrap_err(),
        ParseError::UnterminatedQuote
    );
}

#[test]
fn unknown_escape_wins_over_unterminated_quote() {
    assert_eq!(
        parse(String::from(r#""a\q"#)).unwrap_err(),
        ParseError::UnknownEscape
    );
}

#[test]
fn error_messages_name_the_failure() {
    assert_eq!(
        ParseError::UnknownEscape.message(),
        "unknown escape character in input"
    );
    assert_eq!(
        ParseError::UnterminatedQuote.message(),
        "non matching quote characters found!"
    );
}
