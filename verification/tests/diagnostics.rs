use printing_press::diagnostic::CompileError;
use printing_press::error::{Error, Span};
use printing_press::text::source_lines;

fn lines_of(v: &[&str]) -> Vec<String> {
    v.iter().map(|s| s.to_string()).collect()
}

#[test]
fn test_error_messages() {
    assert_eq!(Error::UnexpectedToken("}".to_string()).message(), "Unexpected token: }");
    assert_eq!(
        Error::ExpectedToken { expected: "identifier".to_string(), found: "=".to_string() }.message(),
        "Expected identifier but found ="
    );
    assert_eq!(Error::UnterminatedString.message(), "Unterminated string");
    assert_eq!(Error::Parse("bad".to_string()).message(), "Parse error: bad");
    assert_eq!(Error::Lexer("odd char".to_string()).message(), "Lexer error: odd char");
    assert_eq!(Error::Compile("no".to_string()).message(), "Compilation error: no");
}

#[test]
fn test_display_other() {
    let e = CompileError::Other("boom".to_string());
    assert_eq!(e.display(), "error: boom");
    assert_eq!(e.message(), "boom");
}

#[test]
fn test_display_parsing_with_context() {
    let e = CompileError::Parsing {
        message: "Unexpected token: =".to_string(),
        span: Span { line: 2, column: 5 },
        source_lines: lines_of(&["let x = 5", "let = 3"]),
    };
    assert_eq!(e.display(), "error: Unexpected token: =\n  2 | let = 3\n    |     ^");
    assert_eq!(e.message(), "Unexpected token: =");
}

#[test]
fn test_display_parsing_wide_line_number() {
    let mut src: Vec<String> = Vec::new();
    for i in 0..12 {
        src.push(format!("line{}", i + 1));
    }
    let e = CompileError::Parsing {
        message: "m".to_string(),
        span: Span { line: 12, column: 1 },
        source_lines: src,
    };
    assert_eq!(e.display(), "error: m\n  12 | line12\n     | ^");
}

#[test]
fn test_display_parsing_line_out_of_range() {
    let e = CompileError::Parsing {
        message: "m".to_string(),
        span: Span { line: 3, column: 1 },
        source_lines: lines_of(&["only one"]),
    };
    assert_eq!(e.display(), "error: m");
}

#[test]
fn test_display_parsing_line_and_column_zero() {
    // Line 0 shows the first source line; column 0 puts the caret first.
    let e = CompileError::Parsing {
        message: "m".to_string(),
        span: Span { line: 0, column: 0 },
        source_lines: lines_of(&["abc"]),
    };
    assert_eq!(e.display(), "error: m\n  0 | abc\n    | ^");
}

#[test]
fn test_from_parse_error_default_span() {
    let e = CompileError::from_parse_error(&Error::UnterminatedString, None, "let s = \"abc\nnext");
    match e {
        CompileError::Parsing { message, span, source_lines } => {
            assert_eq!(message, "Unterminated string");
            assert_eq!(span, Span { line: 1, column: 1 });
            assert_eq!(source_lines, lines_of(&["let s = \"abc", "next"]));
        }
        CompileError::Other(_) => panic!("expected a parse failure"),
    }
}

#[test]
fn test_from_parse_error_given_span() {
    let at = Span { line: 2, column: 4 };
    let e = CompileError::from_parse_error(&Error::Parse("x".to_string()), Some(at), "a\nbcd\n");
    assert_eq!(e.display(), "error: Parse error: x\n  2 | bcd\n    |    ^");
}

#[test]
fn test_source_lines_matches_str_lines() {
    let samples = [
        "", "a", "a\n", "\n", "\n\n", "a\nb", "a\r\nb\r\n", "a\rb", "a\r", "a\r\r\n", "\r\n",
        "x\n\ny", "é\nü\r\nß", "trailing\n\n",
    ];
    for s in samples.iter() {
        let expected: Vec<String> = s.lines().map(|l| l.to_string()).collect();
        assert_eq!(source_lines(s), expected, "lines of {:?}", s);
    }
}

#[test]
fn test_final_line_ending_is_optional() {
    for s in ["a", "x\ny", "a\r\nb", "tab\t"] {
        assert_eq!(source_lines(&format!("{}\n", s)), source_lines(s));
        assert_eq!(source_lines(&format!("{}\r\n", s)), source_lines(s));
    }
    // Not so for an empty text, nor for one that ends in a carriage return.
    assert_eq!(source_lines("\n"), vec![String::new()]);
    assert!(source_lines("").is_empty());
    assert_eq!(source_lines("a\r\n"), vec!["a".to_string()]);
    assert_eq!(source_lines("a\r"), vec!["a\r".to_string()]);
}

#[test]
fn test_lines_hold_no_line_feed() {
    let text = "one\ntwo\r\n\nthree\rfour\n";
    for line in source_lines(text) {
        assert!(!line.contains('\n'));
    }
}
