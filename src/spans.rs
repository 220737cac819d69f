use vstd::prelude::*;

use crate::token::{all_spans, Span, Token};

verus! {

broadcast use {vstd::seq::group_seq_axioms, vstd::std_specs::vec::group_vec_axioms};

/// Appends every span of `input` to `out`, in document order.
pub fn for_all_spans(input: &Vec<Token>, out: &mut Vec<Span>)
    ensures
        final(out)@ == old(out)@ + all_spans(input@),
    decreases input@,
{
    let n = input.len();
    let mut i: usize = 0;
    assert(input@.subrange(0, n as int) =~= input@);
    while i < n
        invariant
            n == input@.len(),
            i <= n,
            out@ + all_spans(input@.subrange(i as int, n as int)) == old(out)@ + all_spans(input@),
        decreases n - i,
    {
        let ghost before = out@;
        let ghost rest = input@.subrange(i as int, n as int);
        assert(rest.drop_first() =~= input@.subrange(i + 1, n as int));
        assert(rest[0] == input@[i as int]);
        match &input[i] {
            Token::Group(g) => {
                assert(decreases_to!(input@ => g.stream@)) by {
                    assert(decreases_to!(input@ => input@[i as int]));
                }
                out.push(g.open);
                for_all_spans(&g.stream, out);
                out.push(g.close);
                assert(out@ =~= before + (seq![g.open] + all_spans(g.stream@) + seq![g.close]));
            },
            Token::Punct(p) => {
                out.push(p.span);
            },
            Token::Ident(x) => {
                out.push(x.span);
            },
            Token::Literal(l) => {
                out.push(l.span);
            },
        }
        i = i + 1;
        assert(out@ + all_spans(input@.subrange(i as int, n as int)) =~= before + all_spans(rest));
    }
    assert(input@.subrange(0, n as int) =~= input@);
    assert(input@.subrange(n as int, n as int) =~= Seq::<Token>::empty());
    assert(out@ + Seq::<Span>::empty() =~= out@);
}

/// Whether a span starts on the given line.
pub open spec fn starts_on(s: Span, line: usize) -> bool {
    s.start.line == line
}

/// The first and last span of the stream that start on `line`, in document order,
/// or `None` where no span starts there.
pub open spec fn line_bounds(spans: Seq<Span>, line: usize) -> Option<(Span, Span)> {
    if exists|k: int| 0 <= k < spans.len() && starts_on(spans[k], line) {
        let i = choose|i: int|
            0 <= i < spans.len() && starts_on(spans[i], line) && forall|k: int|
                0 <= k < i ==> !starts_on(spans[k], line);
        let j = choose|j: int|
            0 <= j < spans.len() && starts_on(spans[j], line) && forall|k: int|
                j < k < spans.len() ==> !starts_on(spans[k], line);
        Some((spans[i], spans[j]))
    } else {
        None
    }
}

/// The first and last token spans on `line`: the leftmost and rightmost tokens
/// that start there, with group brackets counted as tokens of their own.
pub fn spans_for_line(input: &Vec<Token>, line: usize) -> (r: Option<(Span, Span)>)
    ensures
        r == line_bounds(all_spans(input@), line),
        r is None <==> forall|k: int|
            0 <= k < all_spans(input@).len() ==> !starts_on(#[trigger] all_spans(input@)[k], line),
{
    let mut all: Vec<Span> = Vec::new();
    for_all_spans(input, &mut all);
    assert(all@ =~= all_spans(input@));
    let n = all.len();
    let mut found: Option<(Span, Span)> = None;
    let ghost mut fi: int = 0;
    let ghost mut la: int = 0;
    let mut i: usize = 0;
    while i < n
        invariant
            n == all@.len(),
            i <= n,
            found is None ==> forall|k: int| 0 <= k < i ==> !starts_on(all@[k], line),
            found is Some ==> {
                &&& 0 <= fi <= la < i
                &&& found->0 == (all@[fi], all@[la])
                &&& starts_on(all@[fi], line)
                &&& starts_on(all@[la], line)
                &&& forall|k: int| 0 <= k < fi ==> !starts_on(all@[k], line)
                &&& forall|k: int| la < k < i ==> !starts_on(all@[k], line)
            },
        decreases n - i,
    {
        let s = all[i];
        if s.start.line == line {
            match found {
                None => {
                    found = Some((s, s));
                    proof {
                        fi = i as int;
                        la = i as int;
                    }
                },
                Some((a, _)) => {
                    found = Some((a, s));
                    proof {
                        la = i as int;
                    }
                },
            }
        }
        i = i + 1;
    }
    let ghost spans = all@;
    match found {
        None => {},
        Some(_) => {
            assert(starts_on(spans[fi], line));
            let ghost ci = choose|i: int|
                0 <= i < spans.len() && starts_on(spans[i], line) && forall|k: int|
                    0 <= k < i ==> !starts_on(spans[k], line);
            let ghost cj = choose|j: int|
                0 <= j < spans.len() && starts_on(spans[j], line) && forall|k: int|
                    j < k < spans.len() ==> !starts_on(spans[k], line);
            assert(ci == fi) by {
                if ci < fi {
                } else if ci > fi {
                }
            }
            assert(cj == la) by {
                if cj < la {
                } else if cj > la {
                }
            }
        },
    }
    found
}

} // verus!
