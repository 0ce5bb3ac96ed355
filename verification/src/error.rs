//! The one error type of the engine: a kind, a message and, once a parser
//! with a live input has seen it, the place in the source.

use crate::input::{Input, InputView};
use crate::text::{concat, push_nat, nat_text};
use vstd::prelude::*;
use vstd::string::*;

verus! {

/// The categories of failure.
#[derive(Clone, Copy, Debug, PartialEq, Eq, Structural)]
pub enum ErrorKind {
    /// A file or directory could not be opened or read.
    IoFailure,
    /// The source ended inside a tag, a block or a comment.
    UnexpectedEof,
    UnexpectedCharacter,
    UnknownTag,
    UnexpectedTag,
    UnknownEndTag,
    UnexpectedEndTag,
    /// A text that had to be an integer is none, or a result does not fit.
    BadNumber,
    BadUtf8,
    AssertionFailed,
    OverflowInPow,
    /// An internal invariant is broken.
    BadState,
    /// A call of a function that was never defined.
    UnknownFunction,
    /// A value was needed where the variable is unbound.
    MissingValue,
    /// Blocks, calls or files are nested deeper than the engine follows.
    TooDeep,
    /// The snapshot of the file system does not say what stands at a path;
    /// the message is that path.
    UnresolvedPath,
    /// The snapshot does not say what a path canonicalises to; the message
    /// is that path.
    UnresolvedCanonical,
}

/// A place in a source: the file, the line, the index in the line and the
/// text of the line.
#[derive(Debug)]
pub struct ErrorPosition {
    file: String,
    index: usize,
    line: usize,
    hint: String,
}

pub struct PositionView {
    pub file: Seq<char>,
    pub index: nat,
    pub line: nat,
    pub hint: Seq<char>,
}

impl View for ErrorPosition {
    type V = PositionView;

    closed spec fn view(&self) -> PositionView {
        PositionView {
            file: self.file@,
            index: self.index as nat,
            line: self.line as nat,
            hint: self.hint@,
        }
    }
}

impl ErrorPosition {
    pub fn new(file: String, index: usize, line: usize, hint: String) -> (r: Self)
        ensures
            r@ == (PositionView { file: file@, index: index as nat, line: line as nat, hint: hint@ }),
    {
        Self { file, index, line, hint }
    }

    /// The place at which an input stands.
    pub fn from_input(input: &Input) -> (r: Self)
        requires
            input.wf(),
        ensures
            r@ == input@.position(),
    {
        Self::new(input.path().clone(), input.index(), input.line_no(), input.line())
    }

    pub fn file(&self) -> (r: &String)
        ensures
            r@ == self@.file,
    {
        &self.file
    }

    pub fn index(&self) -> (r: usize)
        ensures
            r == self@.index,
    {
        self.index
    }

    pub fn line(&self) -> (r: usize)
        ensures
            r == self@.line,
    {
        self.line
    }

    pub fn hint(&self) -> (r: &String)
        ensures
            r@ == self@.hint,
    {
        &self.hint
    }
}

#[derive(Debug)]
pub struct InternalError {
    kind: ErrorKind,
    position: Option<ErrorPosition>,
    message: String,
}

pub struct ErrorView {
    pub kind: ErrorKind,
    pub message: Seq<char>,
    pub position: Option<PositionView>,
}

pub open spec fn position_view(position: Option<ErrorPosition>) -> Option<PositionView> {
    match position {
        Some(p) => Some(p@),
        None => None,
    }
}

impl ErrorView {
    /// An error that no parser has placed yet.
    pub open spec fn new(kind: ErrorKind, message: Seq<char>) -> ErrorView {
        ErrorView { kind, message, position: None }
    }

    /// The error with the place of `input`, unless it has a place already.
    pub open spec fn upgrade(self, input: InputView) -> ErrorView {
        if self.position is Some {
            self
        } else {
            ErrorView { position: Some(input.position()), ..self }
        }
    }

    /// The text that shows the error to a user.
    pub open spec fn display(self) -> Seq<char> {
        match self.position {
            Some(p) => "Error '"@ + self.message + "'\nIn '"@ + p.file + "'\nOccured on line "@
                + nat_text(p.line) + ":"@ + nat_text(p.index) + "\nNear '"@ + p.hint + "'"@,
            None => "Error '"@ + self.message + "'\nPosition unknown (internal failure)"@,
        }
    }
}

impl View for InternalError {
    type V = ErrorView;

    closed spec fn view(&self) -> ErrorView {
        ErrorView {
            kind: self.kind,
            message: self.message@,
            position: position_view(self.position),
        }
    }
}

impl DeepView for InternalError {
    type V = ErrorView;

    open spec fn deep_view(&self) -> ErrorView {
        self@
    }
}

impl InternalError {
    pub fn new(kind: ErrorKind, msg: &str) -> (r: Self)
        ensures
            r@ == ErrorView::new(kind, msg@),
    {
        Self { kind, position: None, message: msg.to_owned() }
    }

    /// An error whose message is `head` followed by `tail`.
    pub fn with_detail(kind: ErrorKind, head: &str, tail: &str) -> (r: Self)
        ensures
            r@ == ErrorView::new(kind, head@ + tail@),
    {
        Self { kind, position: None, message: concat(head, tail) }
    }

    /// Gives the error the place of `input`, unless it has a place already.
    pub fn upgrade_from_input(&mut self, input: &Input)
        requires
            input.wf(),
        ensures
            final(self)@ == old(self)@.upgrade(input@),
    {
        if self.position.is_some() {
            return ;
        }
        self.position = Some(ErrorPosition::from_input(input));
    }

    pub fn kind(&self) -> (r: ErrorKind)
        ensures
            r == self@.kind,
    {
        self.kind
    }

    pub fn message(&self) -> (r: &str)
        ensures
            r@ == self@.message,
    {
        self.message.as_str()
    }

    pub fn position(&self) -> (r: Option<&ErrorPosition>)
        ensures
            match r {
                Some(p) => self@.position == Some(p@),
                None => self@.position is None,
            },
    {
        self.position.as_ref()
    }

    /// The text that shows the error to a user: the message and, where the
    /// place is known, the file, the line, the index and the line's text.
    pub fn to_string(&self) -> (r: String)
        ensures
            r@ == self@.display(),
    {
        let mut out = String::new();
        out.append("Error '");
        out.append(self.message.as_str());
        match &self.position {
            Some(p) => {
                out.append("'\nIn '");
                out.append(p.file.as_str());
                out.append("'\nOccured on line ");
                push_nat(&mut out, p.line as u64);
                out.append(":");
                push_nat(&mut out, p.index as u64);
                out.append("\nNear '");
                out.append(p.hint.as_str());
                out.append("'");
                assert(out@ =~= self@.display());
            },
            None => {
                out.append("'\nPosition unknown (internal failure)");
                assert(out@ =~= self@.display());
            },
        }
        out
    }
}

pub type InternalResult<T> = Result<T, InternalError>;

/// The model of a result: the value by its deep view, the error by its view.
pub open spec fn result_view<T: DeepView>(r: InternalResult<T>) -> Result<T::V, ErrorView> {
    match r {
        Ok(v) => Ok(v.deep_view()),
        Err(e) => Err(e@),
    }
}

} // verus!
