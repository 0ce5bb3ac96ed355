//! The three tiers of output: a scratch buffer for the tag being read, the
//! content collected so far, and the destination that receives the content
//! once the whole parse is done.

use crate::error::{ErrorKind, ErrorView, InternalError, InternalResult};
use crate::text::{decode, to_chars};
use vstd::prelude::*;
use vstd::string::*;
use vstd::utf8::{decode_utf8, encode_utf8, valid_utf8};

verus! {

#[derive(Debug)]
pub struct Output {
    buffer: String,
    content: String,
    destination: Vec<u8>,
}

pub struct OutputView {
    pub buffer: Seq<char>,
    pub content: Seq<char>,
    pub destination: Seq<u8>,
}

/// The lines of a text from index `i` on, joined by single line feeds: every
/// line ending (`\n` or `\r\n`) becomes `\n`, but the last line keeps no
/// ending.
pub open spec fn joined_lines(text: Seq<char>, i: int) -> Seq<char>
    decreases text.len() + 1 - i,
{
    if i < 0 || i >= text.len() {
        Seq::empty()
    } else if text[i] == '\r' && i + 1 < text.len() && text[i + 1] == '\n' {
        if i + 2 >= text.len() {
            Seq::empty()
        } else {
            seq!['\n'] + joined_lines(text, i + 2)
        }
    } else if text[i] == '\n' {
        if i + 1 >= text.len() {
            Seq::empty()
        } else {
            seq!['\n'] + joined_lines(text, i + 1)
        }
    } else {
        seq![text[i]] + joined_lines(text, i + 1)
    }
}

/// The error of bytes that are not UTF-8.
pub open spec fn bad_bytes() -> ErrorView {
    ErrorView::new(ErrorKind::BadUtf8, "Invalid utf8 in bytes"@)
}

/// The error of an included file that is not UTF-8.
pub open spec fn bad_line() -> ErrorView {
    ErrorView::new(ErrorKind::BadUtf8, "Failed to read next line"@)
}

impl OutputView {
    pub open spec fn new(destination: Seq<u8>) -> OutputView {
        OutputView { buffer: Seq::empty(), content: Seq::empty(), destination }
    }

    pub open spec fn write_char(self, c: char) -> OutputView {
        OutputView { buffer: self.buffer.push(c), ..self }
    }

    pub open spec fn write_str(self, s: Seq<char>) -> OutputView {
        OutputView { buffer: self.buffer + s, ..self }
    }

    /// The text of bytes goes to the buffer; bytes that are not UTF-8 are
    /// refused.
    pub open spec fn write_bytes_to_buffer(self, bytes: Seq<u8>) -> (OutputView, Result<(), ErrorView>) {
        if valid_utf8(bytes) {
            (self.write_str(decode_utf8(bytes)), Ok(()))
        } else {
            (self, Err(bad_bytes()))
        }
    }

    pub open spec fn flush_buffer_to_content(self) -> OutputView {
        OutputView { buffer: Seq::empty(), content: self.content + self.buffer, ..self }
    }

    pub open spec fn clear_buffer(self) -> OutputView {
        OutputView { buffer: Seq::empty(), ..self }
    }

    pub open spec fn take_buffer(self) -> OutputView {
        OutputView { buffer: Seq::empty(), ..self }
    }

    pub open spec fn take_content(self) -> OutputView {
        OutputView { content: Seq::empty(), ..self }
    }

    /// The same buffer and content in front of another destination.
    pub open spec fn with_destination(self, destination: Seq<u8>) -> OutputView {
        OutputView { destination, ..self }
    }

    /// The content goes to the destination as UTF-8 and is then empty.
    pub open spec fn write_content_to_destination(self) -> OutputView {
        OutputView {
            content: Seq::empty(),
            destination: self.destination + encode_utf8(self.content),
            ..self
        }
    }

    /// The buffer goes to the content, and behind it the lines of a file.
    pub open spec fn flush_buffer_and_file(self, file: Seq<u8>) -> (OutputView, Result<(), ErrorView>) {
        let flushed = self.flush_buffer_to_content();
        if valid_utf8(file) {
            (
                OutputView {
                    content: flushed.content + joined_lines(decode_utf8(file), 0),
                    ..flushed
                },
                Ok(()),
            )
        } else {
            (flushed, Err(bad_line()))
        }
    }
}

impl View for Output {
    type V = OutputView;

    closed spec fn view(&self) -> OutputView {
        OutputView {
            buffer: self.buffer@,
            content: self.content@,
            destination: self.destination@,
        }
    }
}

impl Output {
    /// An output with nothing buffered, in front of `destination`.
    pub fn new(destination: Vec<u8>) -> (r: Self)
        ensures
            r@ == OutputView::new(destination@),
    {
        Output { buffer: String::new(), content: String::new(), destination }
    }

    pub fn write_char(&mut self, c: char)
        ensures
            final(self)@ == old(self)@.write_char(c),
    {
        self.buffer.push(c);
    }

    pub fn write_str(&mut self, s: &str)
        ensures
            final(self)@ == old(self)@.write_str(s@),
    {
        self.buffer.append(s);
    }

    pub fn write_bytes_to_buffer(&mut self, bytes: Vec<u8>) -> (r: InternalResult<()>)
        ensures
            final(self)@ == old(self)@.write_bytes_to_buffer(bytes@).0,
            match r {
                Ok(_) => old(self)@.write_bytes_to_buffer(bytes@).1 is Ok,
                Err(e) => old(self)@.write_bytes_to_buffer(bytes@).1 == Err::<(), ErrorView>(e@),
            },
    {
        match decode(bytes.as_slice()) {
            Some(text) => {
                self.buffer.append(text.as_str());
                Ok(())
            },
            None => Err(InternalError::new(ErrorKind::BadUtf8, "Invalid utf8 in bytes")),
        }
    }

    pub fn flush_buffer_to_content(&mut self)
        ensures
            final(self)@ == old(self)@.flush_buffer_to_content(),
    {
        let mut taken = String::new();
        core::mem::swap(&mut self.buffer, &mut taken);
        self.content.append(taken.as_str());
    }

    /// Flushes the buffer, then appends the lines of a file to the content,
    /// joined by line feeds, the last line as it is.
    pub fn flush_buffer_and_file(&mut self, file: &Vec<u8>) -> (r: InternalResult<()>)
        ensures
            final(self)@ == old(self)@.flush_buffer_and_file(file@).0,
            match r {
                Ok(_) => old(self)@.flush_buffer_and_file(file@).1 is Ok,
                Err(e) => old(self)@.flush_buffer_and_file(file@).1 == Err::<(), ErrorView>(e@),
            },
    {
        self.flush_buffer_to_content();
        let text = match decode(file.as_slice()) {
            Some(text) => to_chars(text.as_str()),
            None => {
                return Err(InternalError::new(ErrorKind::BadUtf8, "Failed to read next line"));
            },
        };
        let ghost base = self.content@;
        let n = text.len();
        let mut i: usize = 0;
        assert(base + joined_lines(text@, 0) =~= self.content@ + joined_lines(text@, 0));
        while i < n
            invariant
                i <= n,
                n == text.len(),
                self.buffer@ == Seq::<char>::empty(),
                self.destination@ == old(self).destination@,
                base + joined_lines(text@, 0) == self.content@ + joined_lines(text@, i as int),
            decreases n - i,
        {
            let c = text[i];
            let ghost before = self.content@;
            if c == '\r' && i + 1 < n && text[i + 1] == '\n' {
                if i + 2 < n {
                    self.content.push('\n');
                    assert(before.push('\n') + joined_lines(text@, i + 2) =~= before + (seq!['\n']
                        + joined_lines(text@, i + 2)));
                }
                i += 2;
            } else if c == '\n' {
                if i + 1 < n {
                    self.content.push('\n');
                    assert(before.push('\n') + joined_lines(text@, i + 1) =~= before + (seq!['\n']
                        + joined_lines(text@, i + 1)));
                }
                i += 1;
            } else {
                self.content.push(c);
                assert(before.push(c) + joined_lines(text@, i + 1) =~= before + (seq![c]
                    + joined_lines(text@, i + 1)));
                i += 1;
            }
        }
        assert(self.content@ + joined_lines(text@, n as int) =~= self.content@);
        Ok(())
    }

    /// Writes the content to the destination and empties it.
    pub fn write_content_to_destination(&mut self) -> (r: InternalResult<()>)
        ensures
            r is Ok,
            final(self)@ == old(self)@.write_content_to_destination(),
    {
        let mut bytes = self.content.as_str().as_bytes_vec();
        self.destination.append(&mut bytes);
        self.content = String::new();
        Ok(())
    }

    pub fn take_content(&mut self) -> (r: String)
        ensures
            r@ == old(self)@.content,
            final(self)@ == old(self)@.take_content(),
    {
        let mut content = String::new();
        core::mem::swap(&mut self.content, &mut content);
        content
    }

    pub fn take_buffer(&mut self) -> (r: String)
        ensures
            r@ == old(self)@.buffer,
            final(self)@ == old(self)@.take_buffer(),
    {
        let mut buffer = String::new();
        core::mem::swap(&mut self.buffer, &mut buffer);
        buffer
    }

    pub fn clear_buffer(&mut self)
        ensures
            final(self)@ == old(self)@.clear_buffer(),
    {
        self.buffer = String::new();
    }

    /// Takes the destination away; the output keeps an empty one.
    pub fn take_destination(&mut self) -> (r: Vec<u8>)
        ensures
            r@ == old(self)@.destination,
            final(self)@ == old(self)@.with_destination(Seq::empty()),
    {
        let mut destination = Vec::new();
        core::mem::swap(&mut self.destination, &mut destination);
        destination
    }

    /// Puts a destination in the place of the one that the output has.
    pub fn set_destination(&mut self, destination: Vec<u8>)
        ensures
            final(self)@ == old(self)@.with_destination(destination@),
    {
        self.destination = destination;
    }

    /// What has reached the destination.
    pub fn destination(&self) -> (r: &Vec<u8>)
        ensures
            r@ == self@.destination,
    {
        &self.destination
    }

    /// Gives up the output for what has reached the destination.
    pub fn into_destination(self) -> (r: Vec<u8>)
        ensures
            r@ == self@.destination,
    {
        self.destination
    }
}

} // verus!
