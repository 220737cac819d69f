use inline_python::report::{compile_error_msg, Frame, PythonError};
use inline_python::source::python_from_macro;
use inline_python::token::{Delimiter, Group, Ident, Literal, Punct, Spacing, Span, Token};

fn ident(text: &str, line: usize, col: usize) -> Token {
    Token::Ident(Ident {
        text: text.to_string(),
        span: Span::new(line, col, line, col + text.chars().count()),
    })
}

fn literal(text: &str, line: usize, col: usize) -> Token {
    Token::Literal(Literal {
        text: text.to_string(),
        span: Span::new(line, col, line, col + text.chars().count()),
    })
}

fn punct(ch: char, spacing: Spacing, line: usize, col: usize) -> Token {
    Token::Punct(Punct { ch, spacing, span: Span::new(line, col, line, col + 1) })
}

fn group(delimiter: Delimiter, open: (usize, usize), close: (usize, usize), stream: Vec<Token>) -> Token {
    Token::Group(Group {
        delimiter,
        open: Span::new(open.0, open.1, open.0, open.1 + 1),
        close: Span::new(close.0, close.1, close.0, close.1 + 1),
        stream,
    })
}

/// `for i in range('n):` on line 2 from column 4, `print(i)` on line 3 from column 8.
fn loop_block() -> Vec<Token> {
    vec![
        ident("for", 2, 4),
        ident("i", 2, 8),
        ident("in", 2, 10),
        ident("range", 2, 13),
        group(
            Delimiter::Parenthesis,
            (2, 18),
            (2, 21),
            vec![punct('\'', Spacing::Joint, 2, 19), ident("n", 2, 20)],
        ),
        punct(':', Spacing::Alone, 2, 22),
        ident("print", 3, 8),
        group(Delimiter::Parenthesis, (3, 13), (3, 15), vec![ident("i", 3, 14)]),
    ]
}

#[test]
fn single_line_round_trip() {
    let toks = vec![
        ident("x", 1, 0),
        punct('=', Spacing::Alone, 1, 2),
        ident("foo", 1, 4),
        punct('+', Spacing::Alone, 1, 8),
        literal("42", 1, 10),
    ];
    let r = python_from_macro(&toks, true).unwrap();
    assert_eq!(r.python, "x = foo + 42");
    assert!(r.variables.entries.is_empty());
}

#[test]
fn reconstruct_twice_is_identical() {
    let toks = loop_block();
    let a = python_from_macro(&toks, true).unwrap();
    let b = python_from_macro(&toks, true).unwrap();
    assert_eq!(a.python, b.python);
    assert_eq!(a.variables.entries.len(), b.variables.entries.len());
    for (x, y) in a.variables.entries.iter().zip(b.variables.entries.iter()) {
        assert_eq!(x.0, y.0);
        assert_eq!(x.1.text, y.1.text);
        assert_eq!(x.1.span, y.1.span);
    }
}

#[test]
fn dedent_below_first_line_is_an_error() {
    let toks = vec![ident("a", 2, 8), ident("b", 3, 4)];
    let e = python_from_macro(&toks, true).unwrap_err();
    assert_eq!(e.message, "python: invalid indent");
    let s = Span::new(3, 4, 3, 5);
    assert_eq!(e.spans, Some((s, s)));
}

#[test]
fn deeper_indent_is_kept_relative() {
    let toks = vec![ident("a", 2, 8), ident("b", 3, 12), ident("c", 5, 8)];
    let r = python_from_macro(&toks, false).unwrap();
    assert_eq!(r.python, "\na\n    b\n\nc");
}

#[test]
fn same_capture_twice_gives_one_entry() {
    let toks = vec![
        punct('\'', Spacing::Joint, 1, 0),
        ident("n", 1, 1),
        punct('+', Spacing::Alone, 1, 3),
        punct('\'', Spacing::Joint, 1, 5),
        ident("n", 1, 6),
    ];
    let r = python_from_macro(&toks, true).unwrap();
    assert_eq!(r.python, "_RUST_n + _RUST_n");
    assert_eq!(r.variables.entries.len(), 1);
    assert_eq!(r.variables.entries[0].0, "_RUST_n");
    assert_eq!(r.variables.entries[0].1.span, Span::new(1, 1, 1, 2));
}

#[test]
fn captures_are_listed_by_name() {
    let toks = vec![
        punct('\'', Spacing::Joint, 1, 0),
        ident("zeta", 1, 1),
        punct('\'', Spacing::Joint, 1, 6),
        ident("alpha", 1, 7),
        punct('\'', Spacing::Joint, 1, 13),
        ident("mid", 1, 14),
    ];
    let r = python_from_macro(&toks, true).unwrap();
    assert_eq!(r.python, "_RUST_zeta _RUST_alpha _RUST_mid");
    let names: Vec<&str> = r.variables.entries.iter().map(|e| e.0.as_str()).collect();
    assert_eq!(names, vec!["_RUST_alpha", "_RUST_mid", "_RUST_zeta"]);
}

#[test]
fn double_hash_becomes_floor_division() {
    let toks = vec![
        ident("a", 1, 0),
        punct('#', Spacing::Joint, 1, 2),
        punct('#', Spacing::Alone, 1, 3),
        ident("b", 1, 5),
    ];
    let r = python_from_macro(&toks, true).unwrap();
    assert_eq!(r.python, "a // b");
}

#[test]
fn hash_before_other_mark_is_unchanged() {
    let toks = vec![punct('#', Spacing::Joint, 1, 0), punct('x', Spacing::Alone, 1, 1)];
    let r = python_from_macro(&toks, true).unwrap();
    assert_eq!(r.python, "#x");
}

#[test]
fn capture_marker_becomes_placeholder() {
    let toks = vec![punct('\'', Spacing::Joint, 1, 0), ident("n", 1, 1)];
    let r = python_from_macro(&toks, true).unwrap();
    assert_eq!(r.python, "_RUST_n");
    assert_eq!(r.variables.entries.len(), 1);
    assert_eq!(r.variables.entries[0].0, "_RUST_n");
    assert_eq!(r.variables.entries[0].1.text, "n");
    assert_eq!(r.variables.entries[0].1.span, Span::new(1, 1, 1, 2));
}

#[test]
fn capture_marker_without_capturing_is_kept() {
    let toks = vec![punct('\'', Spacing::Joint, 1, 0), ident("n", 1, 1)];
    let r = python_from_macro(&toks, false).unwrap();
    assert_eq!(r.python, "'n");
    assert!(r.variables.entries.is_empty());
}

#[test]
fn string_prefix_space_is_dropped() {
    let toks = vec![ident("f", 1, 0), literal("\"{x}\"", 1, 2)];
    let r = python_from_macro(&toks, true).unwrap();
    assert_eq!(r.python, "f\"{x}\"");
}

#[test]
fn space_before_string_after_punct_is_kept() {
    let toks = vec![punct('=', Spacing::Alone, 1, 0), literal("\"a\"", 1, 2)];
    let r = python_from_macro(&toks, true).unwrap();
    assert_eq!(r.python, "= \"a\"");
}

#[test]
fn brackets_and_invisible_groups() {
    let toks = vec![
        group(Delimiter::Bracket, (1, 0), (1, 2), vec![ident("a", 1, 1)]),
        group(Delimiter::Brace, (1, 4), (1, 6), vec![ident("b", 1, 5)]),
        group(Delimiter::Invisible, (1, 8), (1, 9), vec![ident("c", 1, 8)]),
    ];
    let r = python_from_macro(&toks, true).unwrap();
    assert_eq!(r.python, "[a] {b} c");
}

#[test]
fn multi_line_literal_moves_cursor_to_its_end() {
    let toks = vec![
        Token::Literal(Literal { text: "\"\"\"a\nb\"\"\"".to_string(), span: Span::new(2, 4, 3, 4) }),
        ident("x", 3, 5),
    ];
    let r = python_from_macro(&toks, true).unwrap();
    assert_eq!(r.python, "\n\"\"\"a\nb\"\"\" x");
}

#[test]
fn empty_input_gives_empty_source() {
    let r = python_from_macro(&Vec::new(), true).unwrap();
    assert_eq!(r.python, "");
    assert!(r.variables.entries.is_empty());
}

#[test]
fn loop_block_reconstructs_with_relative_indent() {
    let r = python_from_macro(&loop_block(), true).unwrap();
    assert_eq!(r.python, "\nfor i in range(_RUST_n):\n    print(i)");
    assert_eq!(r.variables.entries.len(), 1);
    assert_eq!(r.variables.entries[0].0, "_RUST_n");
    assert_eq!(r.variables.entries[0].1.text, "n");
}

#[test]
fn loop_block_error_maps_to_print_line() {
    let toks = loop_block();
    let err = PythonError::Runtime {
        traceback: vec![Frame { file: "src/main.rs".to_string(), line: 3 }],
        message: "NameError: name 'x' is not defined".to_string(),
    };
    let d = compile_error_msg(&err, &toks, "src/main.rs");
    assert_eq!(d.spans, Some((Span::new(3, 8, 3, 13), Span::new(3, 15, 3, 16))));
    assert_eq!(d.message, "python: NameError: name 'x' is not defined");
}
