use inline_python::diagnostic::diagnostic;
use inline_python::report::{compile_error_msg, Frame, PythonError};
use inline_python::spans::{for_all_spans, spans_for_line};
use inline_python::token::{Delimiter, Group, Ident, Punct, Spacing, Span, Token};

fn ident(text: &str, line: usize, col: usize) -> Token {
    Token::Ident(Ident {
        text: text.to_string(),
        span: Span::new(line, col, line, col + text.chars().count()),
    })
}

/// `a (b [c]) d` on line 4 with tokens at columns 2, 5 and 9, the middle one
/// nested two groups deep, and `e` on line 5.
fn nested() -> Vec<Token> {
    vec![
        ident("a", 4, 2),
        Token::Group(Group {
            delimiter: Delimiter::Parenthesis,
            open: Span::new(4, 4, 4, 5),
            close: Span::new(4, 8, 4, 9),
            stream: vec![Token::Group(Group {
                delimiter: Delimiter::Bracket,
                open: Span::new(4, 5, 4, 6),
                close: Span::new(4, 7, 4, 8),
                stream: vec![ident("b", 4, 6)],
            })],
        }),
        ident("d", 4, 9),
        ident("e", 5, 2),
    ]
}

#[test]
fn first_and_last_span_of_a_line() {
    let toks = vec![ident("x", 7, 2), ident("y", 7, 5), ident("z", 7, 9)];
    let (first, last) = spans_for_line(&toks, 7).unwrap();
    assert_eq!(first.start.column, 2);
    assert_eq!(last.start.column, 9);
}

#[test]
fn nested_groups_do_not_change_first_and_last() {
    let (first, last) = spans_for_line(&nested(), 4).unwrap();
    assert_eq!(first, Span::new(4, 2, 4, 3));
    assert_eq!(last, Span::new(4, 9, 4, 10));
}

#[test]
fn line_without_tokens_has_no_spans() {
    assert_eq!(spans_for_line(&nested(), 6), None);
    assert_eq!(spans_for_line(&Vec::new(), 1), None);
}

#[test]
fn single_token_line_gives_same_span_twice() {
    let s = Span::new(5, 2, 5, 3);
    assert_eq!(spans_for_line(&nested(), 5), Some((s, s)));
}

#[test]
fn spans_in_document_order() {
    let mut out = Vec::new();
    for_all_spans(&nested(), &mut out);
    let cols: Vec<usize> = out.iter().map(|s| s.start.column).collect();
    assert_eq!(cols, vec![2, 4, 5, 6, 7, 8, 9, 2]);
}

#[test]
fn syntax_error_is_anchored_at_its_line() {
    let err = PythonError::Compile { line: 4, message: "invalid syntax".to_string() };
    let d = compile_error_msg(&err, &nested(), "lib.rs");
    assert_eq!(d.spans, Some((Span::new(4, 2, 4, 3), Span::new(4, 9, 4, 10))));
    assert_eq!(d.message, "python: invalid syntax");
}

#[test]
fn syntax_error_on_empty_line_is_unanchored() {
    let err = PythonError::Compile { line: 9, message: "unexpected EOF".to_string() };
    let d = compile_error_msg(&err, &nested(), "lib.rs");
    assert_eq!(d.spans, None);
    assert_eq!(d.message, "python: unexpected EOF");
}

#[test]
fn runtime_error_uses_first_frame_of_host_file() {
    let err = PythonError::Runtime {
        traceback: vec![
            Frame { file: "<string>".to_string(), line: 4 },
            Frame { file: "lib.rs".to_string(), line: 5 },
            Frame { file: "lib.rs".to_string(), line: 4 },
        ],
        message: "ZeroDivisionError: division by zero".to_string(),
    };
    let d = compile_error_msg(&err, &nested(), "lib.rs");
    let s = Span::new(5, 2, 5, 3);
    assert_eq!(d.spans, Some((s, s)));
    assert_eq!(d.message, "python: ZeroDivisionError: division by zero");
}

#[test]
fn runtime_error_from_other_file_is_unanchored() {
    let err = PythonError::Runtime {
        traceback: vec![Frame { file: "other.rs".to_string(), line: 4 }],
        message: "boom".to_string(),
    };
    let d = compile_error_msg(&err, &nested(), "lib.rs");
    assert_eq!(d.spans, None);
    assert_eq!(d.message, "python: boom");
}

#[test]
fn runtime_error_without_traceback_is_unanchored() {
    let err = PythonError::Runtime { traceback: Vec::new(), message: "KeyboardInterrupt".to_string() };
    let d = compile_error_msg(&err, &nested(), "lib.rs");
    assert_eq!(d.spans, None);
}

#[test]
fn diagnostic_message_is_prefixed() {
    let d = diagnostic(None, "produced invalid Rust code");
    assert_eq!(d.message, "python: produced invalid Rust code");
    assert_eq!(d.spans, None);
}

#[test]
fn punct_span_counts_on_its_line() {
    let toks = vec![Token::Punct(Punct { ch: ':', spacing: Spacing::Alone, span: Span::new(2, 0, 2, 1) })];
    let s = Span::new(2, 0, 2, 1);
    assert_eq!(spans_for_line(&toks, 2), Some((s, s)));
}
