//! Errors that end a compilation, and how they are shown to a user.

use vstd::prelude::*;

use crate::error::{Error, Span};
use crate::text::{decimal, decimal_width, lines, push_decimal, push_spaces, source_lines, spaces, string_views};

verus! {

/// Compile error types.
#[derive(Debug)]
pub enum CompileError {
    /// The source did not parse; `span` locates the failure and
    /// `source_lines` holds the source text split into lines.
    Parsing { message: String, span: Span, source_lines: Vec<String> },
    /// Any other failure, described by its message.
    Other(String),
}

/// `n - 1`, or 0 when `n` is 0.
pub open spec fn saturating_dec(n: usize) -> nat {
    if n >= 1 {
        (n - 1) as nat
    } else {
        0
    }
}

/// The two lines that show where a failure is: the line number and the
/// source line, then a caret under the failing column.
pub open spec fn source_context(span: Span, source_line: Seq<char>) -> Seq<char> {
    let number = decimal(span.line as nat);
    "\n  "@ + number + " | "@ + source_line + "\n  "@ + spaces(number.len()) + " | "@
        + spaces(saturating_dec(span.column)) + "^"@
}

/// The span reported when the parser names no position: line 1, column 1.
pub open spec fn default_span() -> Span {
    Span { line: 1, column: 1 }
}

impl CompileError {
    /// The error's message, as its `Display` form reads.
    pub open spec fn spec_message(&self) -> Seq<char> {
        match self {
            CompileError::Parsing { message, .. } => message@,
            CompileError::Other(msg) => msg@,
        }
    }

    /// The error rendered with its source context: `error: ` and the message,
    /// and for a parse failure whose line exists in the source, that line and
    /// a caret under the failing column.
    pub open spec fn spec_display(&self) -> Seq<char> {
        match self {
            CompileError::Parsing { message, span, source_lines } => {
                let line_idx = saturating_dec(span.line);
                if line_idx < source_lines@.len() {
                    "error: "@ + message@ + source_context(*span, source_lines@[line_idx as int]@)
                } else {
                    "error: "@ + message@
                }
            },
            CompileError::Other(msg) => "error: "@ + msg@,
        }
    }

    /// The rendered error is `error: `, then the message, then (for a parse
    /// failure whose line exists) the source context.
    pub proof fn lemma_display_begins_with_message(&self)
        ensures
            exists|context: Seq<char>| self.spec_display() == "error: "@ + self.spec_message() + context,
    {
        match self {
            CompileError::Parsing { message, span, source_lines } => {
                let line_idx = saturating_dec(span.line);
                if line_idx < source_lines@.len() {
                    let context = source_context(*span, source_lines@[line_idx as int]@);
                    assert(self.spec_display() == "error: "@ + self.spec_message() + context);
                } else {
                    assert(self.spec_display() =~= "error: "@ + self.spec_message() + Seq::<
                        char,
                    >::empty());
                }
            },
            CompileError::Other(msg) => {
                assert(self.spec_display() =~= "error: "@ + self.spec_message() + Seq::<
                    char,
                >::empty());
            },
        }
    }

    /// For a parse failure whose line exists, the rendering ends with a caret
    /// that stands `column - 1` spaces (none for column 0) after the `| `
    /// that closes the gutter, and the line feed before that last line
    /// closes a line that ends with the source line itself.
    pub proof fn lemma_display_caret(&self)
        requires
            self matches CompileError::Parsing { span, source_lines, .. } && saturating_dec(
                span.line,
            ) < source_lines@.len(),
        ensures
            self matches CompileError::Parsing { span, source_lines, .. } && ({
                let d = self.spec_display();
                let c = saturating_dec(span.column) as int;
                let w = decimal(span.line as nat).len() as int;
                let line = source_lines@[saturating_dec(span.line) as int]@;
                &&& d.last() == '^'
                &&& forall|i: int| d.len() - 1 - c <= i < d.len() - 1 ==> #[trigger] d[i] == ' '
                &&& d[d.len() - 2 - c] == ' '
                &&& d[d.len() - 3 - c] == '|'
                &&& forall|i: int| d.len() - 4 - c - w <= i < d.len() - 3 - c ==> #[trigger] d[i]
                    == ' '
                &&& d[d.len() - 7 - c - w] == '\n'
                &&& d.subrange(d.len() - 7 - c - w - line.len(), d.len() - 7 - c - w) == line
            }),
    {
        reveal_strlit("\n  ");
        reveal_strlit(" | ");
        reveal_strlit("^");
        if let CompileError::Parsing { message, span, source_lines } = self {
            let d = self.spec_display();
            let c = saturating_dec(span.column) as int;
            let w = decimal(span.line as nat).len() as int;
            let line = source_lines@[saturating_dec(span.line) as int]@;
            let tail = "\n  "@ + spaces(w as nat) + " | "@ + spaces(c as nat) + "^"@;
            let head = "error: "@ + message@ + "\n  "@ + decimal(span.line as nat) + " | "@ + line;
            assert(d =~= head + tail);
            assert(tail.len() == 7 + w + c);
            assert forall|i: int| d.len() - 1 - c <= i < d.len() - 1 implies #[trigger] d[i]
                == ' ' by {
                assert(d[i] == tail[i - head.len()]);
            }
            assert forall|i: int| d.len() - 4 - c - w <= i < d.len() - 3 - c implies #[trigger] d[i]
                == ' ' by {
                assert(d[i] == tail[i - head.len()]);
            }
            assert(d[d.len() - 2 - c] == tail[tail.len() - 2 - c]);
            assert(d[d.len() - 3 - c] == tail[tail.len() - 3 - c]);
            assert(d[d.len() - 7 - c - w] == tail[0]);
            assert(d.subrange(d.len() - 7 - c - w - line.len(), d.len() - 7 - c - w) =~= line);
        }
    }

    /// Returns the error's message (its `Display` form).
    pub fn message(&self) -> (text: String)
        ensures
            text@ == self.spec_message(),
    {
        match self {
            CompileError::Parsing { message, .. } => message.clone(),
            CompileError::Other(msg) => msg.clone(),
        }
    }

    /// Render the error with source context (line + caret).
    pub fn display(&self) -> (text: String)
        ensures
            text@ == self.spec_display(),
    {
        match self {
            CompileError::Parsing { message, span, source_lines } => {
                let mut out = String::from_str("error: ");
                out.append(message.as_str());
                let line_idx = span.line.saturating_sub(1);
                if line_idx < source_lines.len() {
                    let source_line = &source_lines[line_idx];
                    let width = decimal_width(span.line);
                    out.append("\n  ");
                    push_decimal(&mut out, span.line);
                    out.append(" | ");
                    out.append(source_line.as_str());
                    out.append("\n  ");
                    push_spaces(&mut out, width);
                    out.append(" | ");
                    push_spaces(&mut out, span.column.saturating_sub(1));
                    out.append("^");
                }
                out
            },
            CompileError::Other(msg) => {
                let mut out = String::from_str("error: ");
                out.append(msg.as_str());
                out
            },
        }
    }

    /// `self` is the error for `source` failing to parse with `error` at `span`.
    pub open spec fn is_parse_failure(
        &self,
        error: Error,
        span: Option<Span>,
        source: Seq<char>,
    ) -> bool {
        self matches CompileError::Parsing { message, span: at, source_lines } && {
            &&& message@ == error.spec_message()
            &&& at == (match span {
                Some(s) => s,
                None => default_span(),
            })
            &&& string_views(source_lines@) == lines(source)
        }
    }

    /// The error for a source that failed to parse with `error`, located at
    /// `span` when the parser names a position and at line 1, column 1 when
    /// it does not; the source is kept split into lines for rendering.
    pub fn from_parse_error(error: &Error, span: Option<Span>, source: &str) -> (result:
        CompileError)
        ensures
            result.is_parse_failure(*error, span, source@),
    {
        let source_lines = source_lines(source);
        let at = match span {
            Some(s) => s,
            None => Span { line: 1, column: 1 },
        };
        CompileError::Parsing { message: error.message(), span: at, source_lines }
    }
}

} // verus!
