//! The error value that every stage returns, and how it is shown.

use vstd::prelude::*;
use vstd::string::*;
use crate::text::joined;

verus! {

/// Which stage or event an error comes from.
#[derive(Clone, Copy, Debug, PartialEq, Eq, Structural)]
pub enum ErrorKind {
    /// A lexical or bracket-matching failure.
    Reader,
    /// A macro defined twice, a malformed definition, or one that is not at
    /// the top level.
    Expansion,
    /// A malformed `lambda` or `if`.
    Transform,
    /// A failure while a program runs.
    Evaluation,
    /// Raised by the program itself.
    UserPanic,
    /// The interpreter cannot go on.
    Fatal,
}

/// An error: its kind, its message, the file it arose in if one is known,
/// and the calls it passed through, oldest first.
#[derive(Debug)]
pub struct Error {
    kind: ErrorKind,
    filename: Option<String>,
    message: String,
    stack_trace: Vec<String>,
}

/// What an `Error` holds, as mathematical values.
pub struct ErrorView {
    pub kind: ErrorKind,
    pub filename: Option<Seq<char>>,
    pub message: Seq<char>,
    pub stack_trace: Seq<Seq<char>>,
}

/// The line that a call through the function `name` adds to a stack trace.
pub open spec fn named_frame(name: Seq<char>) -> Seq<char> {
    "-> in function '"@ + name + "'"@
}

/// The line that a call through an unnamed function adds to a stack trace.
pub open spec fn lambda_frame() -> Seq<char> {
    "-> in lambda function"@
}

/// The frames that are shown: all of them, or the four newest.
pub open spec fn shown_frames(trace: Seq<Seq<char>>, full_trace: bool) -> Seq<Seq<char>> {
    if full_trace || trace.len() <= 4 {
        trace
    } else {
        trace.subrange(trace.len() - 4, trace.len() as int)
    }
}

/// The frames `frames[..n]`, newest first, each on a line of its own.
pub open spec fn frame_lines(frames: Seq<Seq<char>>, n: int) -> Seq<char>
    decreases n,
{
    if n <= 0 || n > frames.len() {
        Seq::empty()
    } else {
        "\n"@ + frames[n - 1] + frame_lines(frames, n - 1)
    }
}

/// The text shown for an error.
pub open spec fn rendered(e: ErrorView, full_trace: bool) -> Seq<char> {
    let head = "Liszp: "@ + e.message;
    let place = match e.filename {
        Some(f) => "\nin '"@ + f + "'"@,
        None => Seq::empty(),
    };
    let frames = shown_frames(e.stack_trace, full_trace);
    let trace = if frames.len() == 0 {
        Seq::empty()
    } else {
        "\nstack trace:"@ + frame_lines(frames, frames.len() as int)
    };
    head + place + trace
}

impl ErrorView {
    /// An error as it arises: it names no file and has passed through no
    /// call.
    pub open spec fn is_plain(self) -> bool {
        self.filename is None && self.stack_trace.len() == 0
    }
}

/// A failure as contracts speak of it: its kind and what it says.
pub struct Failure {
    pub kind: ErrorKind,
    pub message: Seq<char>,
}

/// Whether a result is the plain error of the failure: of its kind, with
/// its message, naming no file and with no trace.
pub open spec fn fails_with<T>(r: Result<T, Error>, failure: Failure) -> bool {
    r is Err && r->Err_0@.kind == failure.kind && r->Err_0@.message == failure.message
        && r->Err_0@.is_plain()
}

impl View for Error {
    type V = ErrorView;

    open spec fn view(&self) -> ErrorView {
        ErrorView {
            kind: self.kind(),
            filename: self.filename(),
            message: self.message(),
            stack_trace: self.stack_trace(),
        }
    }
}

impl Error {
    /// The kind of the error.
    pub closed spec fn kind(&self) -> ErrorKind {
        self.kind
    }

    /// The file the error arose in, if one is known.
    pub closed spec fn filename(&self) -> Option<Seq<char>> {
        match self.filename {
            Some(f) => Some(f@),
            None => None,
        }
    }

    /// What went wrong.
    pub closed spec fn message(&self) -> Seq<char> {
        self.message@
    }

    /// The calls the error passed through, oldest first.
    pub closed spec fn stack_trace(&self) -> Seq<Seq<char>> {
        self.stack_trace.deep_view()
    }

    /// An evaluation error with the given message, no file and no trace.
    pub fn new(message: &str) -> (e: Error)
        ensures
            e@ == (ErrorView {
                kind: ErrorKind::Evaluation,
                filename: None,
                message: message@,
                stack_trace: Seq::empty(),
            }),
    {
        Error::of_kind(ErrorKind::Evaluation, message)
    }

    /// An error of the given kind with the given message, no file and no trace.
    pub fn of_kind(kind: ErrorKind, message: &str) -> (e: Error)
        ensures
            e@ == (ErrorView {
                kind: kind,
                filename: None,
                message: message@,
                stack_trace: Seq::empty(),
            }),
    {
        let e = Error {
            kind,
            filename: None,
            message: String::from_str(message),
            stack_trace: Vec::new(),
        };
        assert(e.stack_trace.deep_view() =~= Seq::empty());
        e
    }

    /// The kind of this error.
    pub fn get_kind(&self) -> (k: ErrorKind)
        ensures
            k == self@.kind,
    {
        self.kind
    }

    /// The message of this error.
    pub fn get_message(&self) -> (m: String)
        ensures
            m@ == self@.message,
    {
        self.message.clone()
    }

    fn copy_trace(&self) -> (t: Vec<String>)
        ensures
            t.deep_view() == self.stack_trace(),
    {
        let mut t: Vec<String> = Vec::new();
        let mut i: usize = 0;
        while i < self.stack_trace.len()
            invariant
                i <= self.stack_trace@.len(),
                t@.len() == i,
                forall|j: int| 0 <= j < i ==> t@[j]@ == self.stack_trace@[j]@,
            decreases self.stack_trace@.len() - i,
        {
            t.push(self.stack_trace[i].clone());
            i = i + 1;
        }
        t
    }

    /// The same error, said to have arisen in `filename`.
    pub fn add_filename(&self, filename: &str) -> (e: Error)
        ensures
            e@ == (ErrorView { filename: Some(filename@), ..self@ }),
    {
        Error {
            kind: self.kind,
            filename: Some(String::from_str(filename)),
            message: self.message.clone(),
            stack_trace: self.copy_trace(),
        }
    }

    /// The same error with one more frame at the newest end of its trace:
    /// the named function, or a lambda where there is no name.
    pub fn add_stack_trace_step(&self, function_name: Option<&str>) -> (e: Error)
        ensures
            e@ == (ErrorView {
                stack_trace: self@.stack_trace.push(
                    match function_name {
                        Some(name) => named_frame(name@),
                        None => lambda_frame(),
                    },
                ),
                ..self@
            }),
    {
        let mut stack_trace = self.copy_trace();
        let frame = match function_name {
            Some(name) => {
                let mut f = joined("-> in function '", name);
                f.append("'");
                f
            },
            None => String::from_str("-> in lambda function"),
        };
        stack_trace.push(frame);
        let filename = match &self.filename {
            Some(f) => Some(f.clone()),
            None => None,
        };
        let e = Error { kind: self.kind, filename, message: self.message.clone(), stack_trace };
        assert(e.stack_trace.deep_view() =~= self.stack_trace.deep_view().push(
            match function_name {
                Some(name) => named_frame(name@),
                None => lambda_frame(),
            },
        ));
        e
    }

    /// The text shown to the user: the message, the file if one is known,
    /// and the newest frames of the trace, all of them or four.
    pub fn display(&self, full_trace: bool) -> (text: String)
        ensures
            text@ == rendered(self@, full_trace),
    {
        let mut text = joined("Liszp: ", self.message.as_str());
        match &self.filename {
            Some(f) => {
                text.append("\nin '");
                text.append(f.as_str());
                text.append("'");
            },
            None => {},
        }
        let len = self.stack_trace.len();
        let first: usize = if full_trace || len <= 4 {
            0
        } else {
            len - 4
        };
        let ghost frames = shown_frames(self@.stack_trace, full_trace);
        if len > 0 {
            text.append("\nstack trace:");
            let ghost start = text@;
            let mut i: usize = len;
            while i > first
                invariant
                    first <= i <= len,
                    len == self.stack_trace@.len(),
                    frames == self@.stack_trace.subrange(first as int, len as int),
                    frames.len() == len - first,
                    text@ + frame_lines(frames, i - first) == start + frame_lines(
                        frames,
                        frames.len() as int,
                    ),
                decreases i,
            {
                i = i - 1;
                text.append("\n");
                text.append(self.stack_trace[i].as_str());
            }
        }
        text
    }
}

} // verus!
