use vstd::prelude::*;

use crate::capture::{lemma_same_view_same_order, register};
use crate::source::{
    emit_stream, put, reconstruct, repeat, spaced, start, Emitted, Location, Reconstruction,
};
use crate::token::{Span, Spacing, Token};

verus! {

broadcast use vstd::seq::group_seq_axioms;

/// The text a token shows in the source.
pub open spec fn token_text(t: Token) -> Seq<char> {
    match t {
        Token::Group(_) => Seq::empty(),
        Token::Punct(p) => seq![p.ch],
        Token::Ident(i) => i.text@,
        Token::Literal(l) => l.text@,
    }
}

/// A token emitted exactly as written: an identifier, a literal that is not a
/// quoted string, or a punctuation mark followed by space.
pub open spec fn plain(t: Token) -> bool {
    match t {
        Token::Group(_) => false,
        Token::Punct(p) => p.spacing == Spacing::Alone,
        Token::Ident(_) => true,
        Token::Literal(l) => !(l.text@.len() > 0 && l.text@[0] == '"'),
    }
}

/// Plain tokens on `line`, the first at column `col`, each as wide as its text
/// and one space after the one before.
pub open spec fn single_spaced(toks: Seq<Token>, line: usize, col: int) -> bool
    decreases toks.len(),
{
    toks.len() == 0 || {
        let t = toks[0];
        let w = token_text(t).len();
        &&& plain(t)
        &&& t.spec_span().start.line == line
        &&& t.spec_span().start.column == col
        &&& t.spec_span().end.line == line
        &&& t.spec_span().end.column == col + w
        &&& single_spaced(toks.drop_first(), line, col + w + 1)
    }
}

/// Each token's text preceded by one space.
pub open spec fn space_led(toks: Seq<Token>) -> Seq<char>
    decreases toks.len(),
{
    if toks.len() == 0 {
        Seq::empty()
    } else {
        seq![' '] + token_text(toks[0]) + space_led(toks.drop_first())
    }
}

/// The texts of the tokens joined by single spaces.
pub open spec fn joined(toks: Seq<Token>) -> Seq<char> {
    if toks.len() == 0 {
        Seq::empty()
    } else {
        token_text(toks[0]) + space_led(toks.drop_first())
    }
}

/// Emitting one plain token at the cursor's line, at or after its column.
proof fn lemma_plain_token(toks: Seq<Token>, e: Emitted, capture: bool, gap: nat)
    requires
        toks.len() > 0,
        plain(toks[0]),
        toks[0].spec_span().start.line == e.loc.line,
        toks[0].spec_span().start.column == e.loc.column + gap,
        toks[0].spec_span().end.line == e.loc.line,
        toks[0].spec_span().end.column == e.loc.column + gap + token_text(toks[0]).len(),
    ensures
        ({
            let e2 = Emitted {
                text: e.text + repeat(' ', gap) + token_text(toks[0]),
                loc: Location {
                    column: toks[0].spec_span().end.column,
                    ..e.loc
                },
                captures: e.captures,
            };
            emit_stream(toks, e, capture) == emit_stream(toks.drop_first(), e2, capture)
        }),
{
    let t = toks[0];
    let e1 = Emitted {
        text: e.text + repeat(' ', gap),
        loc: Location { column: t.spec_span().start.column, ..e.loc },
        captures: e.captures,
    };
    if gap == 0 {
        assert(e.text + repeat(' ', gap) =~= e.text);
        assert(spaced(e, t.spec_span()) == Ok::<Emitted, Span>(e1));
    } else {
        assert(spaced(e, t.spec_span()) == Ok::<Emitted, Span>(e1));
    }
    match t {
        Token::Punct(p) => {
            assert(put(e1, seq![p.ch], 1).text == e.text + repeat(' ', gap) + token_text(t));
        },
        _ => {},
    }
}

/// Single-spaced tokens after the cursor's column, one space apart.
proof fn lemma_single_spaced(toks: Seq<Token>, e: Emitted, col: int, capture: bool)
    requires
        single_spaced(toks, e.loc.line, col),
        col == e.loc.column + 1,
    ensures
        emit_stream(toks, e, capture) is Ok,
        emit_stream(toks, e, capture)->Ok_0.text == e.text + space_led(toks),
    decreases toks.len(),
{
    if toks.len() == 0 {
        assert(e.text + space_led(toks) =~= e.text);
    } else {
        let t = toks[0];
        lemma_plain_token(toks, e, capture, 1);
        let e2 = Emitted {
            text: e.text + repeat(' ', 1) + token_text(t),
            loc: Location { column: t.spec_span().end.column, ..e.loc },
            captures: e.captures,
        };
        lemma_single_spaced(toks.drop_first(), e2, (col + token_text(t).len() + 1) as int, capture);
        assert(repeat(' ', 1) =~= seq![' ']);
        assert(e2.text + space_led(toks.drop_first()) =~= e.text + space_led(toks));
    }
}

/// Round-trip fidelity: tokens laid out on the first line from column 0, one
/// space apart, each emitted as written, come back as their texts joined by
/// single spaces.
pub proof fn lemma_single_line_round_trip(toks: Seq<Token>, capture: bool)
    requires
        single_spaced(toks, 1, 0),
    ensures
        reconstruct(toks, capture) is Ok,
        reconstruct(toks, capture)->Ok_0.text == joined(toks),
{
    if toks.len() == 0 {
    } else {
        let t = toks[0];
        let e = start();
        lemma_plain_token(toks, e, capture, 0);
        let e2 = Emitted {
            text: e.text + repeat(' ', 0) + token_text(t),
            loc: Location { column: t.spec_span().end.column, ..e.loc },
            captures: e.captures,
        };
        lemma_single_spaced(toks.drop_first(), e2, (token_text(t).len() + 1) as int, capture);
        assert(e2.text + space_led(toks.drop_first()) =~= joined(toks));
    }
}

/// A token that starts a new line is indented by its column less the first
/// indentation; where that would be negative the step fails at the token's
/// span, and never clamps.
pub proof fn lemma_indent_never_clamped(e: Emitted, span: Span)
    requires
        span.start.line > e.loc.line,
    ensures
        match spaced(e, span) {
            Ok(e2) => {
                &&& e2.loc.first_indent is Some
                &&& e2.loc.first_indent->0 <= span.start.column
                &&& e2.text == e.text + repeat('\n', (span.start.line - e.loc.line) as nat) + repeat(
                    ' ',
                    (span.start.column - e2.loc.first_indent->0) as nat,
                )
            },
            Err(s) => {
                &&& s == span
                &&& e.loc.first_indent is Some
                &&& span.start.column < e.loc.first_indent->0
            },
        },
{
}

/// Idempotence: two reconstructions of the same tokens, each as
/// `python_from_macro` returns it, hold the same text and list the same
/// captures in the same order.
pub proof fn lemma_reconstruct_twice(
    toks: Seq<Token>,
    capture: bool,
    a: &Reconstruction,
    b: &Reconstruction,
)
    requires
        reconstruct(toks, capture) is Ok,
        a.python@ == reconstruct(toks, capture)->Ok_0.text,
        a.variables.view() == reconstruct(toks, capture)->Ok_0.captures,
        a.variables.wf(),
        b.python@ == reconstruct(toks, capture)->Ok_0.text,
        b.variables.view() == reconstruct(toks, capture)->Ok_0.captures,
        b.variables.wf(),
    ensures
        a.python@ == b.python@,
        a.variables.entries@.len() == b.variables.entries@.len(),
        forall|i: int|
            0 <= i < a.variables.entries@.len() ==> a.variables.entries@[i].0@
                == b.variables.entries@[i].0@ && a.variables.entries@[i].1@
                == b.variables.entries@[i].1@,
{
    lemma_same_view_same_order(&a.variables, &b.variables);
}

/// Capture idempotence: a second capture under a name already registered
/// changes nothing; the name keeps the identifier of its first occurrence.
pub proof fn lemma_capture_twice(
    m: Map<Seq<char>, (Seq<char>, Span)>,
    name: Seq<char>,
    first: (Seq<char>, Span),
    second: (Seq<char>, Span),
)
    ensures
        register(register(m, name, first), name, second) == register(m, name, first),
        register(register(m, name, first), name, second).contains_key(name),
        !m.contains_key(name) ==> register(register(m, name, first), name, second)[name] == first,
{
}

} // verus!
