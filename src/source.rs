use vstd::prelude::*;

use crate::capture::{register, Captures};
use crate::diagnostic::{diagnostic, prefixed, Diagnostic};
use crate::text::{push_str, string_of};
use crate::token::{Delimiter, Ident, Punct, Span, Spacing, Token};

verus! {

broadcast use {vstd::seq::group_seq_axioms, vstd::std_specs::vec::group_vec_axioms};

/// The prefix of the name that stands for a captured host variable.
pub open spec fn placeholder_prefix() -> Seq<char> {
    "_RUST_"@
}

/// The position reached in the host file while emitting, and the column of the
/// first line that started a new line, which counts as indentation zero.
#[derive(Clone, Copy, Debug, PartialEq, Eq)]
pub struct Location {
    pub first_indent: Option<usize>,
    pub line: usize,
    pub column: usize,
}

/// The state of an emission: the text so far, the cursor, and the captures so far.
pub struct Emitted {
    pub text: Seq<char>,
    pub loc: Location,
    pub captures: Map<Seq<char>, (Seq<char>, Span)>,
}

/// `n` copies of `c`.
pub open spec fn repeat(c: char, n: nat) -> Seq<char> {
    Seq::new(n, |_i: int| c)
}

/// `column` moved on by `n`, stopping at the largest column.
pub open spec fn advance(column: usize, n: nat) -> usize {
    if column + n > usize::MAX {
        usize::MAX
    } else {
        (column + n) as usize
    }
}

/// The whitespace step before a token that starts where `span` starts.
/// On a later line: one newline per line advanced, then the indentation relative
/// to the first indentation (set here if not yet set); an indentation below it
/// is an error at `span`. On the same line: spaces up to the token's column.
pub open spec fn spaced(e: Emitted, span: Span) -> Result<Emitted, Span> {
    let line = span.start.line;
    let column = span.start.column;
    if line > e.loc.line {
        let first = match e.loc.first_indent {
            Some(f) => f,
            None => column,
        };
        if column < first {
            Err(span)
        } else {
            Ok(
                Emitted {
                    text: e.text + repeat('\n', (line - e.loc.line) as nat) + repeat(
                        ' ',
                        (column - first) as nat,
                    ),
                    loc: Location { first_indent: Some(first), line, column },
                    captures: e.captures,
                },
            )
        }
    } else if line == e.loc.line && column > e.loc.column {
        Ok(
            Emitted {
                text: e.text + repeat(' ', (column - e.loc.column) as nat),
                loc: Location { column, ..e.loc },
                captures: e.captures,
            },
        )
    } else {
        Ok(e)
    }
}

/// `s` appended, and the column moved on by `width`.
pub open spec fn put(e: Emitted, s: Seq<char>, width: nat) -> Emitted {
    Emitted {
        text: e.text + s,
        loc: Location { column: advance(e.loc.column, width), ..e.loc },
        captures: e.captures,
    }
}

/// The visible brackets of a delimiter.
pub open spec fn brackets(d: Delimiter) -> (Seq<char>, Seq<char>) {
    match d {
        Delimiter::Parenthesis => (seq!['('], seq![')']),
        Delimiter::Brace => (seq!['{'], seq!['}']),
        Delimiter::Bracket => (seq!['['], seq![']']),
        Delimiter::Invisible => (Seq::empty(), Seq::empty()),
    }
}

pub open spec fn is_ascii_alpha(c: char) -> bool {
    ('a' <= c && c <= 'z') || ('A' <= c && c <= 'Z')
}

/// The text ends with one space that follows a letter: the space between a
/// string prefix and its string, which the host tokenizer forces.
pub open spec fn prefix_gap(text: Seq<char>) -> bool {
    text.len() >= 2 && text.last() == ' ' && is_ascii_alpha(text[text.len() - 2])
}

/// `s` appended to the text, and the cursor moved to the end of `span`.
pub open spec fn put_at_end(e: Emitted, text: Seq<char>, s: Seq<char>, span: Span) -> Emitted {
    Emitted {
        text: text + s,
        loc: Location { line: span.end.line, column: span.end.column, ..e.loc },
        captures: e.captures,
    }
}

/// Whether `toks` starts with a capture marker followed by an identifier.
pub open spec fn starts_capture(toks: Seq<Token>, capture: bool) -> bool {
    &&& capture
    &&& toks.len() > 1
    &&& toks[0] matches Token::Punct(p) && p.ch == '\'' && p.spacing == Spacing::Joint
    &&& toks[1] is Ident
}

/// Whether `toks` starts with a joint `#` followed by another punctuation mark.
pub open spec fn starts_escape(toks: Seq<Token>) -> bool {
    &&& toks.len() > 1
    &&& toks[0] matches Token::Punct(p) && p.ch == '#' && p.spacing == Spacing::Joint
    &&& toks[1] is Punct
}

/// Emission of a token stream, from state `e`: each token is preceded by the
/// whitespace step and followed by its text. A capture marker and the identifier
/// after it become the placeholder name and are registered under it (first
/// occurrence wins); a joint `#` and the punctuation mark after it become `//`
/// when that mark is `#`, and stay as written otherwise.
pub open spec fn emit_stream(toks: Seq<Token>, e: Emitted, capture: bool) -> Result<
    Emitted,
    Span,
>
    decreases toks,
{
    if toks.len() == 0 {
        Ok(e)
    } else {
        match spaced(e, toks[0].spec_span()) {
            Err(s) => Err(s),
            Ok(e1) => match toks[0] {
                Token::Group(g) => match spaced(e1, g.open) {
                    Err(s) => Err(s),
                    Ok(e2) => {
                        let (open, close) = brackets(g.delimiter);
                        match emit_stream(g.stream@, put(e2, open, open.len()), capture) {
                            Err(s) => Err(s),
                            Ok(e3) => match spaced(e3, g.close) {
                                Err(s) => Err(s),
                                Ok(e4) => emit_stream(
                                    toks.drop_first(),
                                    put(e4, close, close.len()),
                                    capture,
                                ),
                            },
                        }
                    },
                },
                Token::Punct(p) => if starts_capture(toks, capture) {
                    let id = toks[1]->Ident_0;
                    let name = placeholder_prefix() + id.text@;
                    let e2 = put(e1, name, id.text@.len() + 1);
                    let caps = register(e2.captures, name, id@);
                    emit_stream(
                        toks.subrange(2, toks.len() as int),
                        Emitted { captures: caps, ..e2 },
                        capture,
                    )
                } else if starts_escape(toks) {
                    let q = toks[1]->Punct_0;
                    let s = if q.ch == '#' {
                        seq!['/', '/']
                    } else {
                        seq![p.ch, q.ch]
                    };
                    emit_stream(toks.subrange(2, toks.len() as int), put(e1, s, 2), capture)
                } else {
                    emit_stream(toks.drop_first(), put(e1, seq![p.ch], 1), capture)
                },
                Token::Ident(i) => emit_stream(
                    toks.drop_first(),
                    put_at_end(e1, e1.text, i.text@, i.span),
                    capture,
                ),
                Token::Literal(l) => {
                    let text = if l.text@.len() > 0 && l.text@[0] == '"' && prefix_gap(e1.text) {
                        e1.text.drop_last()
                    } else {
                        e1.text
                    };
                    emit_stream(toks.drop_first(), put_at_end(e1, text, l.text@, l.span), capture)
                },
            },
        }
    }
}

/// The state that emission starts from: nothing emitted, at line 1, column 0.
pub open spec fn start() -> Emitted {
    Emitted {
        text: Seq::empty(),
        loc: Location { first_indent: None, line: 1, column: 0 },
        captures: Map::empty(),
    }
}

/// The embedded-language source for `toks` and its captures, or the span of the
/// first token indented below the first indentation.
pub open spec fn reconstruct(toks: Seq<Token>, capture: bool) -> Result<Emitted, Span> {
    emit_stream(toks, start(), capture)
}

/// Appends `n` copies of `c`.
fn push_repeat(buf: &mut Vec<char>, c: char, n: usize)
    ensures
        final(buf)@ == old(buf)@ + repeat(c, n as nat),
{
    let mut k: usize = 0;
    while k < n
        invariant
            k <= n,
            buf@ == old(buf)@ + repeat(c, k as nat),
        decreases n - k,
    {
        buf.push(c);
        k = k + 1;
        assert(buf@ =~= old(buf)@ + repeat(c, k as nat));
    }
}

/// The whitespace step of `spaced`, on the text and cursor.
fn add_whitespace(
    python: &mut Vec<char>,
    loc: &mut Location,
    span: Span,
    Ghost(caps): Ghost<Map<Seq<char>, (Seq<char>, Span)>>,
) -> (r: Result<(), Span>)
    ensures
        match spaced(Emitted { text: old(python)@, loc: *old(loc), captures: caps }, span) {
            Ok(e) => r is Ok && final(python)@ == e.text && *final(loc) == e.loc,
            Err(s) => r == Err::<(), Span>(s),
        },
{
    let line = span.start.line;
    let column = span.start.column;
    if line > loc.line {
        let first = match loc.first_indent {
            Some(f) => f,
            None => column,
        };
        if column < first {
            return Err(span);
        }
        push_repeat(python, '\n', line - loc.line);
        push_repeat(python, ' ', column - first);
        *loc = Location { first_indent: Some(first), line, column };
    } else if line == loc.line && column > loc.column {
        push_repeat(python, ' ', column - loc.column);
        loc.column = column;
    }
    Ok(())
}

/// Appends the opening or closing bracket of `d` and moves the column past it.
fn push_bracket(python: &mut Vec<char>, loc: &mut Location, d: Delimiter, close: bool)
    ensures
        ({
            let b = if close {
                brackets(d).1
            } else {
                brackets(d).0
            };
            &&& final(python)@ == old(python)@ + b
            &&& *final(loc) == Location { column: advance(old(loc).column, b.len()), ..*old(loc) }
        }),
{
    let c = match d {
        Delimiter::Parenthesis => if close {
            ')'
        } else {
            '('
        },
        Delimiter::Brace => if close {
            '}'
        } else {
            '{'
        },
        Delimiter::Bracket => if close {
            ']'
        } else {
            '['
        },
        Delimiter::Invisible => {
            assert(old(python)@ + Seq::<char>::empty() =~= old(python)@);
            return ;
        },
    };
    python.push(c);
    loc.column = loc.column.saturating_add(1);
}

/// The identifier that follows a capture marker at position `i`, if one does.
fn capture_at(input: &Vec<Token>, i: usize, capture: bool) -> (r: Option<&Ident>)
    requires
        i < input@.len(),
    ensures
        starts_capture(input@.subrange(i as int, input@.len() as int), capture) <==> r is Some,
        r is Some ==> input@[i + 1] == Token::Ident(*r->0),
{
    let ghost toks = input@.subrange(i as int, input@.len() as int);
    assert(toks[0] == input@[i as int]);
    if capture && i < input.len() - 1 {
        assert(toks[1] == input@[i + 1]);
        if let Token::Punct(p) = &input[i] {
            if p.ch == '\'' && p.spacing == Spacing::Joint {
                if let Token::Ident(id) = &input[i + 1] {
                    return Some(id);
                }
            }
        }
    }
    None
}

/// The punctuation mark that follows a joint `#` at position `i`, if one does.
fn escape_at(input: &Vec<Token>, i: usize) -> (r: Option<Punct>)
    requires
        i < input@.len(),
    ensures
        starts_escape(input@.subrange(i as int, input@.len() as int)) <==> r is Some,
        r is Some ==> input@[i + 1] == Token::Punct(r->0),
{
    let ghost toks = input@.subrange(i as int, input@.len() as int);
    assert(toks[0] == input@[i as int]);
    if i < input.len() - 1 {
        assert(toks[1] == input@[i + 1]);
        if let Token::Punct(p) = &input[i] {
            if p.ch == '#' && p.spacing == Spacing::Joint {
                if let Token::Punct(q) = &input[i + 1] {
                    return Some(*q);
                }
            }
        }
    }
    None
}

fn is_ascii_letter(c: char) -> (r: bool)
    ensures
        r == is_ascii_alpha(c),
{
    ('a' <= c && c <= 'z') || ('A' <= c && c <= 'Z')
}

/// Emits the tokens of `input`, as `emit_stream` describes, onto the text,
/// the cursor and the captures.
fn add_tokens(
    python: &mut Vec<char>,
    loc: &mut Location,
    input: &Vec<Token>,
    capture: bool,
    variables: &mut Captures,
) -> (r: Result<(), Span>)
    requires
        old(variables).wf(),
    ensures
        final(variables).wf(),
        match emit_stream(
            input@,
            Emitted { text: old(python)@, loc: *old(loc), captures: old(variables).view() },
            capture,
        ) {
            Ok(e) => r is Ok && final(python)@ == e.text && *final(loc) == e.loc
                && final(variables).view() == e.captures,
            Err(s) => r == Err::<(), Span>(s),
        },
    decreases input@,
{
    let n = input.len();
    let ghost goal = emit_stream(
        input@,
        Emitted { text: python@, loc: *loc, captures: variables.view() },
        capture,
    );
    assert(input@.subrange(0, n as int) =~= input@);
    let mut i: usize = 0;
    while i < n
        invariant
            n == input@.len(),
            i <= n,
            variables.wf(),
            goal == emit_stream(
                input@,
                Emitted { text: old(python)@, loc: *old(loc), captures: old(variables).view() },
                capture,
            ),
            emit_stream(
                input@.subrange(i as int, n as int),
                Emitted { text: python@, loc: *loc, captures: variables.view() },
                capture,
            ) == goal,
        decreases n - i,
    {
        let ghost toks = input@.subrange(i as int, n as int);
        let ghost caps = variables.view();
        assert(toks[0] == input@[i as int]);
        let ghost e0 = Emitted { text: python@, loc: *loc, captures: caps };
        let token = &input[i];
        let span = token.span();
        match add_whitespace(python, loc, span, Ghost(caps)) {
            Err(s) => {
                return Err(s);
            },
            Ok(()) => {},
        }
        let ghost e1 = Emitted { text: python@, loc: *loc, captures: caps };
        assert(spaced(e0, span) == Ok::<Emitted, Span>(e1));
        match token {
            Token::Group(g) => {
                assert(decreases_to!(input@ => g.stream@)) by {
                    assert(decreases_to!(input@ => input@[i as int]));
                }
                match add_whitespace(python, loc, g.open, Ghost(caps)) {
                    Err(s) => {
                        return Err(s);
                    },
                    Ok(()) => {},
                }
                let ghost e2 = Emitted { text: python@, loc: *loc, captures: caps };
                assert(spaced(e1, g.open) == Ok::<Emitted, Span>(e2));
                push_bracket(python, loc, g.delimiter, false);
                assert(Emitted { text: python@, loc: *loc, captures: caps } == put(
                    e2,
                    brackets(g.delimiter).0,
                    brackets(g.delimiter).0.len(),
                ));
                match add_tokens(python, loc, &g.stream, capture, variables) {
                    Err(s) => {
                        return Err(s);
                    },
                    Ok(()) => {},
                }
                let ghost e3 = Emitted { text: python@, loc: *loc, captures: variables.view() };
                match add_whitespace(python, loc, g.close, Ghost(variables.view())) {
                    Err(s) => {
                        return Err(s);
                    },
                    Ok(()) => {},
                }
                let ghost e4 = Emitted { text: python@, loc: *loc, captures: variables.view() };
                assert(spaced(e3, g.close) == Ok::<Emitted, Span>(e4));
                push_bracket(python, loc, g.delimiter, true);
                assert(Emitted { text: python@, loc: *loc, captures: variables.view() } == put(
                    e4,
                    brackets(g.delimiter).1,
                    brackets(g.delimiter).1.len(),
                ));
                assert(toks.drop_first() =~= input@.subrange(i + 1, n as int));
                i = i + 1;
            },
            Token::Punct(x) => {
                match capture_at(input, i, capture) {
                    Some(id) => {
                        let mut name: Vec<char> = vec!['_', 'R', 'U', 'S', 'T', '_'];
                        assert(name@ =~= placeholder_prefix()) by {
                            reveal_strlit("_RUST_");
                        }
                        push_str(&mut name, id.text.as_str());
                        let name_str = string_of(&name);
                        push_str(python, name_str.as_str());
                        loc.column = loc.column.saturating_add(name.len() - 5);
                        let ghost e2 = Emitted { text: python@, loc: *loc, captures: caps };
                        assert(e2 == put(e1, name@, id.text@.len() + 1));
                        variables.insert(name_str, id.duplicate());
                        assert(toks.subrange(2, toks.len() as int) =~= input@.subrange(
                            i + 2,
                            n as int,
                        ));
                        i = i + 2;
                    },
                    None => {
                        match escape_at(input, i) {
                            Some(q) => {
                                if q.ch == '#' {
                                    python.push('/');
                                    python.push('/');
                                    assert(python@ =~= e1.text + seq!['/', '/']);
                                } else {
                                    python.push(x.ch);
                                    python.push(q.ch);
                                    assert(python@ =~= e1.text + seq![x.ch, q.ch]);
                                }
                                loc.column = loc.column.saturating_add(2);
                                assert(toks.subrange(2, toks.len() as int) =~= input@.subrange(
                                    i + 2,
                                    n as int,
                                ));
                                i = i + 2;
                            },
                            None => {
                                python.push(x.ch);
                                loc.column = loc.column.saturating_add(1);
                                assert(python@ =~= e1.text + seq![x.ch]);
                                assert(toks.drop_first() =~= input@.subrange(i + 1, n as int));
                                i = i + 1;
                            },
                        }
                    },
                }
            },
            Token::Ident(x) => {
                push_str(python, x.text.as_str());
                loc.line = x.span.end.line;
                loc.column = x.span.end.column;
                assert(toks.drop_first() =~= input@.subrange(i + 1, n as int));
                i = i + 1;
            },
            Token::Literal(x) => {
                let s = x.text.as_str();
                if s.unicode_len() > 0 && s.get_char(0) == '"' && python.len() >= 2 && python[python.len() - 1] == ' '
                    && is_ascii_letter(python[python.len() - 2]) {
                    python.pop();
                    assert(python@ =~= e1.text.drop_last());
                }
                push_str(python, s);
                loc.line = x.span.end.line;
                loc.column = x.span.end.column;
                assert(toks.drop_first() =~= input@.subrange(i + 1, n as int));
                i = i + 1;
            },
        }
    }
    assert(input@.subrange(n as int, n as int) =~= Seq::<Token>::empty());
    Ok(())
}

/// What reconstruction hands back: the embedded-language source and the
/// identifiers it captures.
#[derive(Debug)]
pub struct Reconstruction {
    pub python: String,
    pub variables: Captures,
}

/// Turns the tokens into embedded-language source with the whitespace of the
/// host file reconstructed. Where `capture` is set, a marked identifier (`'var`)
/// becomes `_RUST_var` and is registered under that name.
pub fn python_from_macro(input: &Vec<Token>, capture: bool) -> (r: Result<
    Reconstruction,
    Diagnostic,
>)
    ensures
        match reconstruct(input@, capture) {
            Ok(e) => r is Ok && r->Ok_0.python@ == e.text && r->Ok_0.variables.view()
                == e.captures && r->Ok_0.variables.wf(),
            Err(s) => r is Err && r->Err_0.spans == Some((s, s)) && r->Err_0.message@
                == prefixed("invalid indent"@),
        },
{
    let mut python: Vec<char> = Vec::new();
    let mut loc = Location { first_indent: None, line: 1, column: 0 };
    let mut variables = Captures::new();
    assert(Emitted { text: python@, loc, captures: variables.view() } == start());
    match add_tokens(&mut python, &mut loc, input, capture, &mut variables) {
        Ok(()) => Ok(Reconstruction { python: string_of(&python), variables }),
        Err(s) => Err(diagnostic(Some((s, s)), "invalid indent")),
    }
}

} // verus!
