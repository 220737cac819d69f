use vstd::prelude::*;

verus! {

broadcast use {vstd::seq::group_seq_axioms, vstd::std_specs::vec::group_vec_axioms};

/// A line and column in the host file: lines count from 1, columns from 0.
#[derive(Clone, Copy, Debug, PartialEq, Eq, Structural)]
pub struct LineColumn {
    pub line: usize,
    pub column: usize,
}

/// The region of the host file that one token covers.
#[derive(Clone, Copy, Debug, PartialEq, Eq, Structural)]
pub struct Span {
    pub start: LineColumn,
    pub end: LineColumn,
}

impl Span {
    /// A span that starts at `start` and ends at `end`.
    pub fn new(start_line: usize, start_column: usize, end_line: usize, end_column: usize) -> (r:
        Span)
        ensures
            r.start == (LineColumn { line: start_line, column: start_column }),
            r.end == (LineColumn { line: end_line, column: end_column }),
    {
        Span {
            start: LineColumn { line: start_line, column: start_column },
            end: LineColumn { line: end_line, column: end_column },
        }
    }
}

/// The bracket pair around a group of tokens.
#[derive(Clone, Copy, Debug, PartialEq, Eq, Structural)]
pub enum Delimiter {
    Parenthesis,
    Brace,
    Bracket,
    /// A group with no visible brackets.
    Invisible,
}

/// Whether a punctuation mark is written directly against the next token.
#[derive(Clone, Copy, Debug, PartialEq, Eq, Structural)]
pub enum Spacing {
    Joint,
    Alone,
}

/// A delimited group: its brackets and the tokens between them.
#[derive(Debug)]
pub struct Group {
    pub delimiter: Delimiter,
    pub open: Span,
    pub close: Span,
    pub stream: Vec<Token>,
}

/// A single punctuation character.
#[derive(Clone, Copy, Debug, PartialEq, Eq, Structural)]
pub struct Punct {
    pub ch: char,
    pub spacing: Spacing,
    pub span: Span,
}

/// An identifier or keyword.
#[derive(Debug)]
pub struct Ident {
    pub text: String,
    pub span: Span,
}

impl View for Ident {
    type V = (Seq<char>, Span);

    open spec fn view(&self) -> (Seq<char>, Span) {
        (self.text@, self.span)
    }
}

impl Ident {
    /// An identifier with the same text and span.
    pub fn duplicate(&self) -> (r: Ident)
        ensures
            r@ == self@,
    {
        Ident { text: self.text.clone(), span: self.span }
    }
}

/// A literal, as written in the host source (quotes and prefixes included).
#[derive(Debug)]
pub struct Literal {
    pub text: String,
    pub span: Span,
}

/// One node of the token tree captured from the host macro invocation.
#[derive(Debug)]
pub enum Token {
    Group(Group),
    Punct(Punct),
    Ident(Ident),
    Literal(Literal),
}

impl Token {
    /// The region covered by the token; a group covers its brackets and all in between.
    pub open spec fn spec_span(self) -> Span {
        match self {
            Token::Group(g) => Span { start: g.open.start, end: g.close.end },
            Token::Punct(p) => p.span,
            Token::Ident(i) => i.span,
            Token::Literal(l) => l.span,
        }
    }

    pub fn span(&self) -> (r: Span)
        ensures
            r == self.spec_span(),
    {
        match self {
            Token::Group(g) => Span { start: g.open.start, end: g.close.end },
            Token::Punct(p) => p.span,
            Token::Ident(i) => i.span,
            Token::Literal(l) => l.span,
        }
    }
}

/// Every span of a token stream in document order: a group gives its opening
/// bracket, then the spans inside it, then its closing bracket.
pub open spec fn all_spans(toks: Seq<Token>) -> Seq<Span>
    decreases toks,
{
    if toks.len() == 0 {
        Seq::empty()
    } else {
        let rest = all_spans(toks.drop_first());
        match toks[0] {
            Token::Group(g) => seq![g.open] + all_spans(g.stream@) + seq![g.close] + rest,
            Token::Punct(p) => seq![p.span] + rest,
            Token::Ident(i) => seq![i.span] + rest,
            Token::Literal(l) => seq![l.span] + rest,
        }
    }
}

} // verus!
