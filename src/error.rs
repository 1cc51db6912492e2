use vstd::prelude::*;
use crate::span::Span;
use crate::render::{
    append_repeated, column, decimal, decimal_text, line_end, locate_in, newlines, paint_bright_blue,
    paint_red, repeated, right_aligned,
};

verus! {

/// A diagnostic from one of the front-end passes, or a file-access failure of the driver.
#[derive(Clone, Debug)]
pub enum BlazeError {
    SyntaxError(String, Span),
    ParseError(String, Span),
    TypeError(String, Span),
    RuntimeError(String, Span),
    /// A file could not be read; holds the reason.
    IOError(String),
}

/// The span of a diagnostic; file-access failures have none.
pub open spec fn error_span(e: BlazeError) -> Span
    recommends
        !(e is IOError),
{
    match e {
        BlazeError::SyntaxError(_, s) => s,
        BlazeError::ParseError(_, s) => s,
        BlazeError::TypeError(_, s) => s,
        BlazeError::RuntimeError(_, s) => s,
        BlazeError::IOError(_) => arbitrary(),
    }
}

/// The name of a diagnostic's kind, as printed before its message.
pub open spec fn label(e: BlazeError) -> Seq<char> {
    match e {
        BlazeError::SyntaxError(_, _) => "SyntaxError: "@,
        BlazeError::ParseError(_, _) => "ParseError: "@,
        BlazeError::TypeError(_, _) => "TypeError: "@,
        BlazeError::RuntimeError(_, _) => "RuntimeError: "@,
        BlazeError::IOError(_) => "IOError: "@,
    }
}

/// The message of a diagnostic.
pub open spec fn message_of(e: BlazeError) -> Seq<char> {
    match e {
        BlazeError::SyntaxError(m, _) => m@,
        BlazeError::ParseError(m, _) => m@,
        BlazeError::TypeError(m, _) => m@,
        BlazeError::RuntimeError(m, _) => m@,
        BlazeError::IOError(m) => m@,
    }
}

/// Where a diagnostic's span starts in `contents`, positions past the end counting as the end.
pub open spec fn anchor(e: BlazeError, contents: Seq<char>) -> int {
    if error_span(e).start < contents.len() {
        error_span(e).start as int
    } else {
        contents.len() as int
    }
}

/// The line (from 1) of a diagnostic.
pub open spec fn line_of(e: BlazeError, contents: Seq<char>) -> nat {
    newlines(contents.subrange(0, anchor(e, contents))) + 1
}

/// The column (from 1) of a diagnostic.
pub open spec fn column_of(e: BlazeError, contents: Seq<char>) -> nat {
    column(contents.subrange(0, anchor(e, contents)))
}

/// `[file:line:column] Kind: message`, then a line break.
pub open spec fn header_line(e: BlazeError, contents: Seq<char>) -> Seq<char> {
    "["@ + error_span(e).filename@ + ":"@ + decimal(line_of(e, contents)) + ":"@ + decimal(
        column_of(e, contents),
    ) + "] "@ + label(e) + message_of(e) + "\n"@
}

/// The line the diagnostic points into, after its number in a blue gutter.
pub open spec fn source_line(e: BlazeError, contents: Seq<char>) -> Seq<char> {
    let p = anchor(e, contents);
    let text = contents.subrange(p - (column_of(e, contents) - 1), line_end(contents, p));
    "\x1b[94m"@ + right_aligned(decimal(line_of(e, contents))) + " | "@ + "\x1b[39m"@ + text
        + "\n"@
}

/// A blank blue gutter, then in red a caret under each character of the span, and the message.
pub open spec fn marker_line(e: BlazeError, contents: Seq<char>) -> Seq<char> {
    let sp = error_span(e);
    let width: nat = if sp.end > sp.start {
        (sp.end - sp.start) as nat
    } else {
        0
    };
    "\x1b[94m"@ + "      | "@ + "\x1b[39m"@ + ("\x1b[31m"@ + repeated(
        ' ',
        (column_of(e, contents) - 1) as nat,
    ) + repeated('^', width) + "- "@ + message_of(e) + "\x1b[39m"@) + "\n"@
}

/// A diagnostic as printed against the text of its file: a header, the line it points into,
/// and a line of carets under its span.
pub open spec fn rendered(e: BlazeError, contents: Seq<char>) -> Seq<char> {
    header_line(e, contents) + source_line(e, contents) + marker_line(e, contents)
}

impl BlazeError {
    /// A copy of this diagnostic.
    pub fn duplicate(&self) -> (r: BlazeError)
        ensures
            r == *self,
    {
        match self {
            BlazeError::SyntaxError(m, s) => BlazeError::SyntaxError(m.clone(), s.duplicate()),
            BlazeError::ParseError(m, s) => BlazeError::ParseError(m.clone(), s.duplicate()),
            BlazeError::TypeError(m, s) => BlazeError::TypeError(m.clone(), s.duplicate()),
            BlazeError::RuntimeError(m, s) => BlazeError::RuntimeError(m.clone(), s.duplicate()),
            BlazeError::IOError(m) => BlazeError::IOError(m.clone()),
        }
    }

    /// The span of this diagnostic.
    pub fn span(&self) -> (r: Span)
        requires
            !(*self is IOError),
        ensures
            r == error_span(*self),
    {
        match self {
            BlazeError::SyntaxError(_, s) => s.duplicate(),
            BlazeError::ParseError(_, s) => s.duplicate(),
            BlazeError::TypeError(_, s) => s.duplicate(),
            BlazeError::RuntimeError(_, s) => s.duplicate(),
            BlazeError::IOError(_) => {
                proof {
                    assert(false);
                }
                Span { filename: String::new(), start: 0, end: 0 }
            },
        }
    }
}


impl BlazeError {
    /// The message, after the kind's name when `show_type` is set.
    fn message(&self, show_type: bool) -> (r: String)
        ensures
            r@ == if show_type {
                label(*self) + message_of(*self)
            } else {
                message_of(*self)
            },
    {
        let (kind, text) = match self {
            BlazeError::SyntaxError(m, _) => ("SyntaxError: ", m),
            BlazeError::ParseError(m, _) => ("ParseError: ", m),
            BlazeError::TypeError(m, _) => ("TypeError: ", m),
            BlazeError::RuntimeError(m, _) => ("RuntimeError: ", m),
            BlazeError::IOError(m) => ("IOError: ", m),
        };
        if show_type {
            String::from_str(kind).concat(text.as_str())
        } else {
            text.clone()
        }
    }

    /// This diagnostic as printed against `contents`, the text of its file (see `rendered`).
    pub fn to_string(&self, contents: &String) -> (r: String)
        requires
            !(*self is IOError),
        ensures
            r@ == rendered(*self, contents@),
    {
        let span = self.span();
        let (line, col, text) = locate_in(contents, span.start);
        let mut out = self.header(contents, line, col);
        out.append(self.source(contents, line, col, &text).as_str());
        out.append(self.marker(contents, col).as_str());
        proof {
            assert(out@ =~= rendered(*self, contents@));
        }
        out
    }

    fn header(&self, contents: &String, line: u128, col: u128) -> (r: String)
        requires
            !(*self is IOError),
            line == line_of(*self, contents@),
            col == column_of(*self, contents@),
        ensures
            r@ == header_line(*self, contents@),
    {
        let span = self.span();
        let mut out = String::from_str("[");
        out.append(span.filename.as_str());
        out.append(":");
        out.append(decimal_text(line).as_str());
        out.append(":");
        out.append(decimal_text(col).as_str());
        out.append("] ");
        out.append(self.message(true).as_str());
        out.append("\n");
        proof {
            assert(out@ =~= header_line(*self, contents@));
        }
        out
    }

    fn source(&self, contents: &String, line: u128, col: u128, text: &String) -> (r: String)
        requires
            !(*self is IOError),
            line == line_of(*self, contents@),
            col == column_of(*self, contents@),
            1 <= col <= anchor(*self, contents@) + 1,
            text@ == contents@.subrange(
                anchor(*self, contents@) - (col - 1),
                line_end(contents@, anchor(*self, contents@)),
            ),
        ensures
            r@ == source_line(*self, contents@),
    {
        let line_digits = decimal_text(line);
        let mut gutter = String::new();
        let digits = line_digits.as_str().unicode_len();
        if digits < 5 {
            append_repeated(&mut gutter, ' ', 5 - digits);
        }
        gutter.append(line_digits.as_str());
        gutter.append(" | ");
        proof {
            assert(gutter@ =~= right_aligned(decimal(line as nat)) + " | "@);
        }
        let mut out = paint_bright_blue(gutter.as_str());
        out.append(text.as_str());
        out.append("\n");
        proof {
            assert(out@ =~= source_line(*self, contents@));
        }
        out
    }

    fn marker(&self, contents: &String, col: u128) -> (r: String)
        requires
            !(*self is IOError),
            col == column_of(*self, contents@),
            1 <= col <= anchor(*self, contents@) + 1,
        ensures
            r@ == marker_line(*self, contents@),
    {
        let span = self.span();
        let mut marks = String::new();
        append_repeated(&mut marks, ' ', (col - 1) as usize);
        let width: usize = if span.end > span.start {
            span.end - span.start
        } else {
            0
        };
        append_repeated(&mut marks, '^', width);
        marks.append("- ");
        marks.append(self.message(false).as_str());
        let mut out = paint_bright_blue("      | ");
        out.append(paint_red(marks.as_str()).as_str());
        out.append("\n");
        proof {
            assert(out@ =~= marker_line(*self, contents@));
        }
        out
    }
}

} // verus!
