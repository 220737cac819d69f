use vstd::prelude::*;

use crate::diagnostic::{diagnostic, prefixed, Diagnostic};
use crate::spans::{line_bounds, spans_for_line};
use crate::token::{all_spans, Span, Token};

verus! {

/// One frame of a traceback: the file its code came from and the line it was at.
#[derive(Debug)]
pub struct Frame {
    pub file: String,
    pub line: usize,
}

/// A failure reported by the embedded-language service.
#[derive(Debug)]
pub enum PythonError {
    /// The source did not compile; `line` is a line of the submitted source.
    Compile { line: usize, message: String },
    /// Running the code raised an exception; `traceback` lists its frames,
    /// outermost first.
    Runtime { traceback: Vec<Frame>, message: String },
}

impl PythonError {
    pub open spec fn spec_message(&self) -> Seq<char> {
        match self {
            PythonError::Compile { message, .. } => message@,
            PythonError::Runtime { message, .. } => message@,
        }
    }
}

/// The line of the first frame whose file is `file`, if there is one.
pub open spec fn first_frame_line(frames: Seq<Frame>, file: Seq<char>) -> Option<usize>
    decreases frames.len(),
{
    if frames.len() == 0 {
        None
    } else if frames[0].file@ == file {
        Some(frames[0].line)
    } else {
        first_frame_line(frames.drop_first(), file)
    }
}

/// Where an error is anchored in the host file: a compile error at the tokens of
/// its line; a runtime error at the tokens of the line of its first frame in the
/// host file; nowhere when there is no such frame or no token on that line.
pub open spec fn error_anchor(error: PythonError, toks: Seq<Token>, host_file: Seq<char>) -> Option<
    (Span, Span),
> {
    match error {
        PythonError::Compile { line, .. } => line_bounds(all_spans(toks), line),
        PythonError::Runtime { traceback, .. } => match first_frame_line(traceback@, host_file) {
            Some(line) => line_bounds(all_spans(toks), line),
            None => None,
        },
    }
}

/// The line of the first frame that comes from `file`.
fn frame_line(frames: &Vec<Frame>, host_file: &str) -> (r: Option<usize>)
    ensures
        r == first_frame_line(frames@, host_file@),
{
    let n = frames.len();
    let file = String::from_str(host_file);
    let mut i: usize = 0;
    assert(frames@.subrange(0, n as int) =~= frames@);
    while i < n
        invariant
            n == frames@.len(),
            i <= n,
            first_frame_line(frames@, host_file@) == first_frame_line(
                frames@.subrange(i as int, n as int),
                file@,
            ),
            file@ == host_file@,
        decreases n - i,
    {
        let ghost rest = frames@.subrange(i as int, n as int);
        assert(rest[0] == frames@[i as int]);
        if frames[i].file == file {
            return Some(frames[i].line);
        }
        assert(rest.drop_first() =~= frames@.subrange(i + 1, n as int));
        i = i + 1;
    }
    None
}

/// The diagnostic for an error of the embedded language: its message, marked as
/// coming from the embedded language, anchored at the tokens of the line it
/// names in `tokens` where `error_anchor` finds them, and unanchored otherwise.
/// `host_file` is the name under which the source was submitted.
pub fn compile_error_msg(error: &PythonError, tokens: &Vec<Token>, host_file: &str) -> (r:
    Diagnostic)
    ensures
        r.spans == error_anchor(*error, tokens@, host_file@),
        r.message@ == prefixed(error.spec_message()),
{
    match error {
        PythonError::Compile { line, message } => {
            let spans = spans_for_line(tokens, *line);
            diagnostic(spans, message.as_str())
        },
        PythonError::Runtime { traceback, message } => {
            let spans = match frame_line(traceback, host_file) {
                Some(line) => spans_for_line(tokens, line),
                None => None,
            };
            diagnostic(spans, message.as_str())
        },
    }
}

} // verus!
