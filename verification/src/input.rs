//! The source of a parse: the characters of a template, the file they came
//! from, and a cursor that knows its line and its index in the line.

use crate::error::{ErrorKind, ErrorView, InternalError, InternalResult, PositionView};
use crate::files::{Files, FilesView, Known, Node, NodeView};
use crate::path::{is_absolute, join, directory, path_directory, path_is_absolute, path_join};
use crate::text::{decode, string_of, to_chars};
use vstd::prelude::*;
use vstd::utf8::{decode_utf8, valid_utf8};

verus! {

#[derive(Debug)]
pub struct Input {
    path: String,
    text: Vec<char>,
    pos: usize,
    line: usize,
    index: usize,
}

pub struct InputView {
    pub path: Seq<char>,
    pub text: Seq<char>,
    pub pos: nat,
    pub line: nat,
    pub index: nat,
}

/// The end of the line that holds index `i`: just behind its line feed, or
/// the end of the text.
pub open spec fn line_end(text: Seq<char>, i: int) -> int
    decreases text.len() + 1 - i,
{
    if i < 0 || i >= text.len() {
        text.len() as int
    } else if text[i] == '\n' {
        i + 1
    } else {
        line_end(text, i + 1)
    }
}

impl InputView {
    pub open spec fn wf(self) -> bool {
        self.pos <= self.text.len() && self.index <= self.pos && self.line <= self.pos + 1
    }

    /// An input at its first character. Lines count from one; an empty
    /// source has no line.
    pub open spec fn start(path: Seq<char>, text: Seq<char>) -> InputView {
        InputView {
            path,
            text,
            pos: 0,
            index: 0,
            line: if text.len() == 0 {
                0
            } else {
                1
            },
        }
    }

    /// The character under the cursor; none once the source is consumed.
    pub open spec fn current(self) -> Option<char> {
        if self.pos < self.text.len() {
            Some(self.text[self.pos as int])
        } else {
            None
        }
    }

    pub open spec fn is_end(self) -> bool {
        self.pos >= self.text.len()
    }

    /// How many characters are still to come.
    pub open spec fn remaining(self) -> nat {
        if self.pos <= self.text.len() {
            (self.text.len() - self.pos) as nat
        } else {
            0
        }
    }

    /// The input one character on. Behind a line feed that is not the last
    /// character a new line starts, with index zero.
    pub open spec fn step(self) -> InputView {
        if self.pos >= self.text.len() {
            self
        } else if self.pos + 1 < self.text.len() && self.text[self.pos as int] == '\n' {
            InputView { pos: self.pos + 1, index: 0, line: self.line + 1, ..self }
        } else {
            InputView { pos: self.pos + 1, index: self.index + 1, ..self }
        }
    }

    /// The text of the line under the cursor, its line feed included; empty
    /// at the end of the source.
    pub open spec fn line_text(self) -> Seq<char> {
        if self.pos >= self.text.len() || self.index > self.pos {
            Seq::empty()
        } else {
            self.text.subrange(self.pos - self.index, line_end(self.text, self.pos as int))
        }
    }

    pub open spec fn position(self) -> PositionView {
        PositionView {
            file: self.path,
            index: self.index,
            line: self.line,
            hint: self.line_text(),
        }
    }

    pub open spec fn set_path(self, path: Seq<char>) -> InputView {
        InputView { path, ..self }
    }

    /// A path as this source means it: an absolute one as it is, a relative
    /// one against the directory of the source's file (against the
    /// source's path itself where that is a directory).
    pub open spec fn join_path(self, p: Seq<char>, files: FilesView) -> Known<Seq<char>> {
        if path_is_absolute(p) {
            Known::Known(p)
        } else {
            match files.is_directory(self.path) {
                Known::Unknown => Known::Unknown,
                Known::Known(true) => Known::Known(path_join(self.path, p)),
                Known::Known(false) => Known::Known(path_join(path_directory(self.path), p)),
            }
        }
    }
}

/// The error of a path of which the snapshot knows nothing.
pub open spec fn unresolved_path(path: Seq<char>) -> ErrorView {
    ErrorView::new(ErrorKind::UnresolvedPath, path)
}

/// The error of a template file that cannot be opened.
pub open spec fn cannot_open(path: Seq<char>) -> ErrorView {
    ErrorView::new(ErrorKind::IoFailure, "Failed to open file at "@ + path)
}

/// The error of a template file that is not UTF-8.
pub open spec fn cannot_read() -> ErrorView {
    ErrorView::new(ErrorKind::BadUtf8, "Failed to read line"@)
}

/// The input that a file of the snapshot gives. A source is decoded as a
/// whole when it is opened: a file that is not UTF-8 fails here, before any
/// of it is read, and not at the line that holds the bytes.
pub open spec fn open_input(path: Seq<char>, files: FilesView) -> Result<InputView, ErrorView> {
    match files.node(path) {
        Known::Unknown => Err(unresolved_path(path)),
        Known::Known(NodeView::File(bytes)) => if valid_utf8(bytes) {
            Ok(InputView::start(path, decode_utf8(bytes)))
        } else {
            Err(cannot_read())
        },
        Known::Known(_) => Err(cannot_open(path)),
    }
}

impl View for Input {
    type V = InputView;

    closed spec fn view(&self) -> InputView {
        InputView {
            path: self.path@,
            text: self.text@,
            pos: self.pos as nat,
            line: self.line as nat,
            index: self.index as nat,
        }
    }
}

impl DeepView for Input {
    type V = InputView;

    open spec fn deep_view(&self) -> InputView {
        self@
    }
}

impl Input {
    pub open spec fn wf(&self) -> bool {
        self@.wf()
    }

    /// An input over `text` that belongs to the file `path`, at its first
    /// character.
    pub fn new(path: &str, text: &str) -> (r: Self)
        ensures
            r.wf(),
            r@ == InputView::start(path@, text@),
    {
        let chars = to_chars(text);
        let line: usize = if chars.len() == 0 {
            0
        } else {
            1
        };
        Input { path: path.to_owned(), text: chars, pos: 0, line, index: 0 }
    }

    /// The input over a file of the snapshot.
    pub fn open(path: &str, files: &Files) -> (r: InternalResult<Self>)
        requires
            files.wf(),
        ensures
            match r {
                Ok(input) => input.wf() && open_input(path@, files@) == Ok::<InputView, ErrorView>(
                    input@,
                ),
                Err(e) => open_input(path@, files@) == Err::<InputView, ErrorView>(e@),
            },
    {
        match files.node(path) {
            Known::Unknown => Err(InternalError::new(ErrorKind::UnresolvedPath, path)),
            Known::Known(node) => match node {
                Node::File(bytes) => match decode(bytes.as_slice()) {
                    Some(text) => Ok(Input::new(path, text.as_str())),
                    None => Err(InternalError::new(ErrorKind::BadUtf8, "Failed to read line")),
                },
                _ => Err(
                    InternalError::with_detail(ErrorKind::IoFailure, "Failed to open file at ", path),
                ),
            },
        }
    }

    pub fn join_path(&self, p: &str, files: &Files) -> (r: InternalResult<String>)
        requires
            self.wf(),
            files.wf(),
        ensures
            match self@.join_path(p@, files@) {
                Known::Known(joined) => r is Ok && r->Ok_0@ == joined,
                Known::Unknown => r is Err && r->Err_0@ == unresolved_path(self@.path),
            },
    {
        if is_absolute(p) {
            return Ok(p.to_owned());
        }
        match files.is_directory(self.path.as_str()) {
            Known::Unknown => Err(
                InternalError::new(ErrorKind::UnresolvedPath, self.path.as_str()),
            ),
            Known::Known(is_dir) => {
                if is_dir {
                    Ok(join(self.path.as_str(), p))
                } else {
                    let base = directory(self.path.as_str());
                    Ok(join(base.as_str(), p))
                }
            },
        }
    }

    pub fn index(&self) -> (r: usize)
        ensures
            r == self@.index,
    {
        self.index
    }

    pub fn line_no(&self) -> (r: usize)
        ensures
            r == self@.line,
    {
        self.line
    }

    /// The text of the line under the cursor.
    pub fn line(&self) -> (r: String)
        requires
            self.wf(),
        ensures
            r@ == self@.line_text(),
    {
        if self.pos >= self.text.len() {
            return String::new();
        }
        let start: usize = self.pos - self.index;
        let mut end: usize = self.pos;
        while end < self.text.len() && self.text[end] != '\n'
            invariant
                self.pos <= end <= self.text.len(),
                line_end(self.text@, self.pos as int) == line_end(self.text@, end as int),
            decreases self.text.len() - end,
        {
            end += 1;
        }
        if end < self.text.len() {
            end += 1;
        }
        string_of(&self.text, start, end)
    }

    pub fn current(&self) -> (r: Option<&char>)
        requires
            self.wf(),
        ensures
            match r {
                Some(c) => self@.current() == Some(*c),
                None => self@.current() is None,
            },
    {
        if self.pos < self.text.len() {
            Some(&self.text[self.pos])
        } else {
            None
        }
    }

    pub fn path(&self) -> (r: &String)
        ensures
            r@ == self@.path,
    {
        &self.path
    }

    pub fn set_path(&mut self, path: &str)
        ensures
            final(self)@ == old(self)@.set_path(path@),
    {
        self.path = path.to_owned();
    }

    /// Moves the cursor one character on; at the end it stays.
    pub fn step(&mut self) -> (r: InternalResult<()>)
        requires
            old(self).wf(),
        ensures
            r is Ok,
            final(self).wf(),
            final(self)@ == old(self)@.step(),
    {
        if self.pos >= self.text.len() {
            return Ok(());
        }
        let c = self.text[self.pos];
        if self.pos + 1 < self.text.len() && c == '\n' {
            self.index = 0;
            self.line = self.line + 1;
        } else {
            self.index = self.index + 1;
        }
        self.pos = self.pos + 1;
        Ok(())
    }

    pub fn is_end(&self) -> (r: bool)
        ensures
            r == self@.is_end(),
    {
        self.pos >= self.text.len()
    }

    /// Whether `seq` stands in the source at the cursor.
    pub fn starts_with(&self, seq: &[char]) -> (r: bool)
        requires
            self.wf(),
        ensures
            r == (self@.pos + seq@.len() <= self@.text.len() && self@.text.subrange(
                self@.pos as int,
                (self@.pos + seq@.len()) as int,
            ) == seq@),
    {
        if seq.len() > self.text.len() - self.pos {
            return false;
        }
        let n = self.text.len();
        let mut k: usize = 0;
        while k < seq.len()
            invariant
                k <= seq@.len(),
                n == self.text@.len(),
                self.pos + seq@.len() <= self.text@.len(),
                forall|j: int| 0 <= j < k ==> self.text@[self.pos + j] == seq@[j],
            decreases seq@.len() - k,
        {
            if self.text[self.pos + k] != seq[k] {
                assert(self.text@.subrange(self.pos as int, self.pos + seq@.len())[k as int]
                    != seq@[k as int]);
                return false;
            }
            k += 1;
        }
        assert(self.text@.subrange(self.pos as int, self.pos + seq@.len()) =~= seq@);
        true
    }

    /// How many characters are still to come.
    pub fn remaining(&self) -> (r: usize)
        ensures
            r == self@.remaining(),
    {
        if self.pos <= self.text.len() {
            self.text.len() - self.pos
        } else {
            0
        }
    }
}

/// The name of a template file, to tell it from a template's text.
pub struct FilePath {
    pub path: String,
}

impl FilePath {
    pub fn new(path: &str) -> (r: Self)
        ensures
            r.path@ == path@,
    {
        FilePath { path: path.to_owned() }
    }
}

/// What can be made the input of a parse: a template's text, the name of a
/// template file, or an input.
pub trait TryIntoInput: Sized {
    /// The input that the value stands for.
    spec fn input_of(self, files: FilesView) -> Result<InputView, ErrorView>;

    fn try_into_input(self, files: &Files) -> (r: InternalResult<Input>)
        requires
            files.wf(),
        ensures
            match r {
                Ok(input) => input.wf() && self.input_of(files@) == Ok::<InputView, ErrorView>(
                    input@,
                ),
                Err(e) => self.input_of(files@) == Err::<InputView, ErrorView>(e@),
            },
    ;
}

impl TryIntoInput for Input {
    open spec fn input_of(self, files: FilesView) -> Result<InputView, ErrorView> {
        if self.wf() {
            Ok(self@)
        } else {
            Err(ErrorView::new(ErrorKind::BadState, "Input is not well formed"@))
        }
    }

    fn try_into_input(self, files: &Files) -> (r: InternalResult<Input>) {
        if self.pos <= self.text.len() && self.index <= self.pos && (self.line <= self.pos
            || self.line - self.pos == 1) {
            Ok(self)
        } else {
            Err(InternalError::new(ErrorKind::BadState, "Input is not well formed"))
        }
    }
}

impl<'a> TryIntoInput for &'a str {
    /// A template's text is its own input; it belongs to no file.
    open spec fn input_of(self, files: FilesView) -> Result<InputView, ErrorView> {
        Ok(InputView::start(Seq::empty(), self@))
    }

    fn try_into_input(self, files: &Files) -> (r: InternalResult<Input>) {
        let input = Input::new("", self);
        proof {
            reveal_strlit("");
            assert(""@ =~= Seq::<char>::empty());
        }
        Ok(input)
    }
}

/// The error of bytes that are not UTF-8.
pub open spec fn not_text() -> ErrorView {
    ErrorView::new(ErrorKind::BadUtf8, "Failed to read line"@)
}

impl<'a> TryIntoInput for &'a [u8] {
    /// Bytes are the input that their text is, where they are UTF-8.
    open spec fn input_of(self, files: FilesView) -> Result<InputView, ErrorView> {
        if valid_utf8(self@) {
            Ok(InputView::start(Seq::empty(), decode_utf8(self@)))
        } else {
            Err(not_text())
        }
    }

    fn try_into_input(self, files: &Files) -> (r: InternalResult<Input>) {
        match decode(self) {
            Some(text) => {
                let input = Input::new("", text.as_str());
                proof {
                    reveal_strlit("");
                    assert(""@ =~= Seq::<char>::empty());
                }
                Ok(input)
            },
            None => Err(InternalError::new(ErrorKind::BadUtf8, "Failed to read line")),
        }
    }
}

impl TryIntoInput for FilePath {
    open spec fn input_of(self, files: FilesView) -> Result<InputView, ErrorView> {
        open_input(self.path@, files)
    }

    fn try_into_input(self, files: &Files) -> (r: InternalResult<Input>) {
        Input::open(self.path.as_str(), files)
    }
}

} // verus!
