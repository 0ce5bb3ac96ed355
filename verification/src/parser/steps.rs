//! The small steps that every tag is read with: skipping and copying runs of
//! characters, expecting one character, and reading names, texts, numbers
//! and values.

use crate::error::{ErrorKind, ErrorView, InternalError, InternalResult};
use crate::files::Known;
use crate::input::unresolved_path;
use crate::parser::{
    agrees, step_view, FlowControl, FlowResult, FlowView, ParserView, StepResult, StepView,
    TemplateParser,
};
use crate::text::{
    i64_value, is_digit, is_name_char, is_name_start, is_not_whitespace, is_number_start, is_whitespace, parse_i64,
    spec_is_digit, spec_is_name_char, spec_is_name_start, spec_is_number_start,
    spec_is_whitespace, texts, trim, trimmed,
};
use vstd::prelude::*;

verus! {

/// A result without a signal to the loop, as a step's result.
pub fn into_step<T: DeepView>(r: InternalResult<T>) -> (s: StepResult<T>)
    ensures
        match r {
            Ok(v) => s == Ok::<T, FlowResult>(v),
            Err(e) => s == Err::<T, FlowResult>(Err(e)),
        },
{
    match r {
        Ok(v) => Ok(v),
        Err(e) => Err(Err(e)),
    }
}

/// Whether the executable test `f` computes the predicate `p`.
pub open spec fn decides<F: Fn(char) -> bool>(f: F, p: spec_fn(char) -> bool) -> bool {
    forall|c: char, b: bool| call_ensures(f, (c,), b) ==> b == p(c)
}

pub open spec fn just(x: char) -> spec_fn(char) -> bool {
    |c: char| c == x
}

impl ParserView {
    pub open spec fn current(self) -> Option<char> {
        self.input.current()
    }

    pub open spec fn step(self) -> ParserView {
        self.with_input(self.input.step())
    }

    pub open spec fn write_char(self, c: char) -> ParserView {
        self.with_output(self.output.write_char(c))
    }

    pub open spec fn write_str(self, s: Seq<char>) -> ParserView {
        self.with_output(self.output.write_str(s))
    }

    pub open spec fn clear_buffer(self) -> ParserView {
        self.with_output(self.output.clear_buffer())
    }

    pub open spec fn flush(self) -> ParserView {
        self.with_output(self.output.flush_buffer_to_content())
    }

    /// The current character, or the signal to go on where there is none;
    /// the buffer is then flushed.
    pub open spec fn current_or_continue(self) -> (ParserView, StepView<char>) {
        match self.current() {
            Some(c) => (self, Ok(c)),
            None => (self.flush(), Err(Ok(FlowControl::Continue))),
        }
    }

    pub open spec fn current_or_break(self) -> (ParserView, StepView<char>) {
        match self.current() {
            Some(c) => (self, Ok(c)),
            None => (self, Err(Ok(FlowControl::Break))),
        }
    }

    pub open spec fn unexpected_eof(self) -> ErrorView {
        self.fail(ErrorKind::UnexpectedEof, "Unexpected EOF"@)
    }

    /// Copies the current character to the buffer and steps over it.
    pub open spec fn push_step(self) -> (ParserView, StepView<()>) {
        match self.current() {
            Some(c) => (self.write_char(c).step(), Ok(())),
            None => (self, Err(Err(self.unexpected_eof()))),
        }
    }

    /// Copies characters to the buffer while `p` holds of them.
    pub open spec fn buffer_all_while(self, p: spec_fn(char) -> bool) -> ParserView
        decreases self.input.remaining(),
    {
        match self.input.current() {
            Some(c) => if p(c) {
                self.write_char(c).step().buffer_all_while(p)
            } else {
                self
            },
            None => self,
        }
    }

    /// Copies characters to the buffer until `p` holds of one.
    pub open spec fn buffer_all_until(self, p: spec_fn(char) -> bool) -> ParserView
        decreases self.input.remaining(),
    {
        match self.input.current() {
            Some(c) => if p(c) {
                self
            } else {
                self.write_char(c).step().buffer_all_until(p)
            },
            None => self,
        }
    }

    /// Steps over characters until `p` holds of one.
    pub open spec fn bypass_all_until(self, p: spec_fn(char) -> bool) -> ParserView
        decreases self.input.remaining(),
    {
        match self.input.current() {
            Some(c) => if p(c) {
                self
            } else {
                self.step().bypass_all_until(p)
            },
            None => self,
        }
    }

    /// Steps over a run of white space.
    pub open spec fn bypass_whitespace(self) -> ParserView {
        self.bypass_all_until(|c: char| !spec_is_whitespace(c))
    }

    /// Copies a run of white space to the buffer.
    pub open spec fn buffer_whitespace(self) -> ParserView {
        self.buffer_all_while(|c: char| spec_is_whitespace(c))
    }

    /// Steps over a run of white space and says whether there was any.
    pub open spec fn bypass_whitespace_enforce_one(self) -> (ParserView, bool) {
        match self.current() {
            Some(c) => if spec_is_whitespace(c) {
                (self.bypass_whitespace(), true)
            } else {
                (self, false)
            },
            None => (self, false),
        }
    }

    /// Copies a run of white space and says whether there was any.
    pub open spec fn buffer_whitespace_enforce_one(self) -> (ParserView, bool) {
        match self.current() {
            Some(c) => if spec_is_whitespace(c) {
                (self.buffer_whitespace(), true)
            } else {
                (self, false)
            },
            None => (self, false),
        }
    }

    /// Copies the rest of a tag's name to the buffer and takes the buffer.
    pub open spec fn buffer_rest_of_tagname(self) -> (ParserView, Seq<char>) {
        let s = self.buffer_all_while(|c: char| spec_is_name_start(c));
        (s.with_output(s.output.take_buffer()), s.output.buffer)
    }

    /// The failure that names the tag being read: the buffer and the rest
    /// of the name are the detail of the message.
    pub open spec fn fail_tagname(self, kind: ErrorKind, head: Seq<char>) -> (ParserView, ErrorView) {
        let (s, name) = self.buffer_rest_of_tagname();
        (s, s.fail(kind, head + name + "'"@))
    }

    pub open spec fn unknown_tag(self) -> (ParserView, ErrorView) {
        self.fail_tagname(ErrorKind::UnknownTag, "Unknown tag '"@)
    }

    pub open spec fn unexpected_tag(self) -> (ParserView, ErrorView) {
        self.fail_tagname(ErrorKind::UnexpectedTag, "Unexpected tag '"@)
    }

    pub open spec fn unknown_end_tag(self) -> (ParserView, ErrorView) {
        self.fail_tagname(ErrorKind::UnknownEndTag, "Unknown end-tag '"@)
    }

    pub open spec fn unexpected_end_tag(self) -> (ParserView, ErrorView) {
        self.fail_tagname(ErrorKind::UnexpectedEndTag, "Unexpected end-tag '"@)
    }

    pub open spec fn unexpected_eof_in_tag(self) -> (ParserView, ErrorView) {
        self.fail_tagname(ErrorKind::UnexpectedEof, "Unexpected EOF in tag '"@)
    }

    pub open spec fn current_or_unexpected_eof_in_tag(self) -> (ParserView, StepView<char>) {
        match self.current() {
            Some(c) => (self, Ok(c)),
            None => (self.unexpected_eof_in_tag().0, Err(Err(self.unexpected_eof_in_tag().1))),
        }
    }

    pub open spec fn tag_unexpected_eof(self, tag: Seq<char>) -> ErrorView {
        self.fail(ErrorKind::UnexpectedEof, "Unexpected EOF in tag '"@ + tag + "'"@)
    }

    pub open spec fn tag_unexpected_eof_expected(self, tag: Seq<char>, expected: Seq<char>) -> ErrorView {
        self.fail(
            ErrorKind::UnexpectedEof,
            "Unexpected EOF in tag '"@ + tag + "', expected "@ + expected,
        )
    }

    pub open spec fn tag_unexpected_char(self, tag: Seq<char>) -> ErrorView {
        self.fail(ErrorKind::UnexpectedCharacter, "Unexpected character in tag '"@ + tag + "'"@)
    }

    pub open spec fn tag_unexpected_char_expected(self, tag: Seq<char>, expected: Seq<char>) -> ErrorView {
        self.fail(
            ErrorKind::UnexpectedCharacter,
            "Unexpected character in tag '"@ + tag + "', expected "@ + expected,
        )
    }

    pub open spec fn end_tag_unexpected_eof(self, tag: Seq<char>) -> ErrorView {
        self.fail(ErrorKind::UnexpectedEof, "Unexpected EOF in end-tag '"@ + tag + "'"@)
    }

    pub open spec fn end_tag_unexpected_char(self, tag: Seq<char>) -> ErrorView {
        self.fail(
            ErrorKind::UnexpectedCharacter,
            "Unexpected character in end-tag '"@ + tag + "'"@,
        )
    }

    pub open spec fn tag_current_or_unexpected_eof(self, tag: Seq<char>) -> StepView<char> {
        match self.current() {
            Some(c) => Ok(c),
            None => Err(Err(self.tag_unexpected_eof(tag))),
        }
    }

    /// The current character, which `p` must hold of.
    pub open spec fn tag_expect_char_internal(self, tag: Seq<char>, p: spec_fn(char) -> bool) -> StepView<char> {
        match self.current() {
            Some(c) => if p(c) {
                Ok(c)
            } else {
                Err(Err(self.tag_unexpected_char(tag)))
            },
            None => Err(Err(self.tag_unexpected_eof(tag))),
        }
    }

    /// Steps over the current character, which `p` must hold of.
    pub open spec fn tag_expect_char(self, tag: Seq<char>, p: spec_fn(char) -> bool) -> (ParserView, StepView<()>) {
        match self.tag_expect_char_internal(tag, p) {
            Ok(c) => (self.step(), Ok(())),
            Err(e) => (self, Err(e)),
        }
    }

    /// Copies the current character, which `p` must hold of, and steps
    /// over it.
    pub open spec fn tag_expect_buffer_char(self, tag: Seq<char>, p: spec_fn(char) -> bool) -> (ParserView, StepView<()>) {
        match self.tag_expect_char_internal(tag, p) {
            Ok(c) => (self.write_char(c).step(), Ok(())),
            Err(e) => (self, Err(e)),
        }
    }

    pub open spec fn end_tag_expect_char_internal(self, tag: Seq<char>, p: spec_fn(char) -> bool) -> StepView<char> {
        match self.current() {
            Some(c) => if p(c) {
                Ok(c)
            } else {
                Err(Err(self.end_tag_unexpected_char(tag)))
            },
            None => Err(Err(self.end_tag_unexpected_eof(tag))),
        }
    }

    pub open spec fn end_tag_expect_char(self, tag: Seq<char>, p: spec_fn(char) -> bool) -> (ParserView, StepView<()>) {
        match self.end_tag_expect_char_internal(tag, p) {
            Ok(c) => (self.step(), Ok(())),
            Err(e) => (self, Err(e)),
        }
    }

    pub open spec fn end_tag_expect_buffer_char(self, tag: Seq<char>, p: spec_fn(char) -> bool) -> (ParserView, StepView<()>) {
        match self.end_tag_expect_char_internal(tag, p) {
            Ok(c) => (self.write_char(c).step(), Ok(())),
            Err(e) => (self, Err(e)),
        }
    }

    /// Whether `seq` stands in the source at the cursor.
    pub open spec fn at_sequence(self, seq: Seq<char>) -> bool {
        self.input.pos + seq.len() <= self.input.text.len() && self.input.text.subrange(
            self.input.pos as int,
            (self.input.pos + seq.len()) as int,
        ) == seq
    }

    /// Copies the next `n` characters to the buffer.
    pub open spec fn buffer_count(self, n: nat) -> ParserView
        decreases n,
    {
        if n == 0 {
            self
        } else {
            match self.current() {
                Some(c) => self.write_char(c).step().buffer_count((n - 1) as nat),
                None => self,
            }
        }
    }

    /// Copies the source to the buffer up to and with the first `seq` that
    /// no backslash hides; a backslash takes the character behind it along.
    /// The source may not end before.
    pub open spec fn buffer_all_until_sequence(self, tag: Seq<char>, seq: Seq<char>) -> (ParserView, StepView<()>)
        decreases self.input.remaining(),
    {
        if seq.len() == 0 {
            (self, Ok(()))
        } else {
            match self.input.current() {
                None => (self, Err(Err(self.tag_unexpected_eof(tag)))),
                Some(c) => if c == '\\' {
                    let s = self.write_char(c).step();
                    match s.input.current() {
                        None => (s, Err(Err(s.tag_unexpected_eof(tag)))),
                        Some(d) => s.write_char(d).step().buffer_all_until_sequence(tag, seq),
                    }
                } else if self.at_sequence(seq) {
                    (self.buffer_count(seq.len()), Ok(()))
                } else {
                    self.write_char(c).step().buffer_all_until_sequence(tag, seq)
                },
            }
        }
    }

    pub open spec fn buffer_all_until_end_of_self_closing_tag(self, tag: Seq<char>) -> (ParserView, StepView<()>) {
        self.buffer_all_until_sequence(tag, seq!['/', '%', '}'])
    }

    pub open spec fn buffer_all_until_end_of_tag(self, tag: Seq<char>) -> (ParserView, StepView<()>) {
        self.buffer_all_until_sequence(tag, seq!['%', '}'])
    }

    /// Steps over white space and the closing `/%}`.
    pub open spec fn expect_end_of_self_close_tag(self, tag: Seq<char>) -> (ParserView, StepView<()>) {
        let s0 = self.bypass_whitespace();
        let (s1, r1) = s0.tag_expect_char(tag, just('/'));
        if r1 is Err {
            (s1, r1)
        } else {
            let (s2, r2) = s1.tag_expect_char(tag, just('%'));
            if r2 is Err {
                (s2, r2)
            } else {
                s2.tag_expect_char(tag, just('}'))
            }
        }
    }

    /// Steps over white space and the closing `%}`.
    pub open spec fn expect_end_of_tag(self, tag: Seq<char>) -> (ParserView, StepView<()>) {
        let s0 = self.bypass_whitespace();
        let (s1, r1) = s0.tag_expect_char(tag, just('%'));
        if r1 is Err {
            (s1, r1)
        } else {
            s1.tag_expect_char(tag, just('}'))
        }
    }

    pub open spec fn expect_end_of_end_tag(self, tag: Seq<char>) -> (ParserView, StepView<()>) {
        let s0 = self.bypass_whitespace();
        let (s1, r1) = s0.end_tag_expect_char(tag, just('%'));
        if r1 is Err {
            (s1, r1)
        } else {
            s1.end_tag_expect_char(tag, just('}'))
        }
    }

    /// Copies white space and the closing `%}` to the buffer.
    pub open spec fn expect_end_of_tag_buffer(self, tag: Seq<char>) -> (ParserView, StepView<()>) {
        let s0 = self.buffer_whitespace();
        let (s1, r1) = s0.tag_expect_buffer_char(tag, just('%'));
        if r1 is Err {
            (s1, r1)
        } else {
            s1.tag_expect_buffer_char(tag, just('}'))
        }
    }

    pub open spec fn expect_end_of_end_tag_buffer(self, tag: Seq<char>) -> (ParserView, StepView<()>) {
        let s0 = self.buffer_whitespace();
        let (s1, r1) = s0.end_tag_expect_buffer_char(tag, just('%'));
        if r1 is Err {
            (s1, r1)
        } else {
            s1.end_tag_expect_buffer_char(tag, just('}'))
        }
    }

    /// What the model of a loop gives for a round that reads nothing. No
    /// round does: see the laws of `progress`.
    pub open spec fn stalled(self) -> ErrorView {
        self.fail(ErrorKind::BadState, "Parser made no progress"@)
    }

    /// A path as the source being read means it.
    pub open spec fn join_path(self, p: Seq<char>) -> Result<Seq<char>, ErrorView> {
        match self.input.join_path(p, self.files) {
            Known::Known(joined) => Ok(joined),
            Known::Unknown => Err(unresolved_path(self.input.path).upgrade(self.input)),
        }
    }

    pub open spec fn take_buffer(self) -> ParserView {
        self.with_output(self.output.take_buffer())
    }

    /// Reads a name: `[A-Za-z_][A-Za-z0-9_.]*`, after any white space.
    pub open spec fn parse_variable_name(self, tag: Seq<char>) -> (ParserView, StepView<Seq<char>>) {
        let s0 = self.clear_buffer().bypass_whitespace();
        let (s1, r1) = s0.tag_expect_buffer_char(tag, |c: char| spec_is_name_start(c));
        match r1 {
            Err(e) => (s1, Err(e)),
            Ok(_) => {
                let s2 = s1.buffer_all_while(|c: char| spec_is_name_char(c));
                (s2.take_buffer(), Ok(s2.output.buffer))
            },
        }
    }

    /// Copies the inside of a quoted text up to its closing quote: `\"`
    /// stands for a quote, every other backslash stays.
    pub open spec fn text_body(self, tag: Seq<char>) -> (ParserView, StepView<()>)
        decreases self.input.remaining(),
    {
        let s = self.buffer_all_until(|c: char| c == '"' || c == '\\');
        match s.current() {
            None => (s, Err(Err(s.tag_unexpected_eof_expected(tag, "\""@)))),
            Some(c) => if c == '"' {
                (s, Ok(()))
            } else {
                let s1 = s.step();
                match s1.current() {
                    None => (s1, Err(Err(s1.tag_unexpected_eof_expected(tag, "\""@)))),
                    Some(d) => {
                        let s2 = if d == '"' {
                            s1.write_char(d).step()
                        } else {
                            s1.write_char('\\').write_char(d).step()
                        };
                        if s2.input.remaining() < self.input.remaining() {
                            s2.text_body(tag)
                        } else {
                            (s2, Err(Err(s2.stalled())))
                        }
                    },
                }
            },
        }
    }

    /// Reads a text in double quotes.
    pub open spec fn parse_text_string(self, tag: Seq<char>) -> (ParserView, StepView<Seq<char>>) {
        let (s1, r1) = self.clear_buffer().tag_expect_char(tag, just('"'));
        match r1 {
            Err(e) => (s1, Err(e)),
            Ok(_) => {
                let (s2, r2) = s1.text_body(tag);
                match r2 {
                    Err(e) => (s2, Err(e)),
                    Ok(_) => {
                        let (s3, r3) = s2.tag_expect_char(tag, just('"'));
                        match r3 {
                            Err(e) => (s3, Err(e)),
                            Ok(_) => (s3.take_buffer(), Ok(s3.output.buffer)),
                        }
                    },
                }
            },
        }
    }

    /// Reads a number literal: `[-+]?[0-9]+`.
    pub open spec fn parse_number(self, tag: Seq<char>) -> (ParserView, StepView<Seq<char>>) {
        let s0 = self.clear_buffer();
        let s1 = match s0.current() {
            Some(c) => if c == '-' || c == '+' {
                s0.write_char(c).step()
            } else {
                s0
            },
            None => s0,
        };
        let (s2, r2) = s1.tag_expect_buffer_char(tag, |c: char| spec_is_digit(c));
        match r2 {
            Err(e) => (s2, Err(e)),
            Ok(_) => {
                let s3 = s2.buffer_all_while(|c: char| spec_is_digit(c));
                (s3.take_buffer(), Ok(s3.output.buffer))
            },
        }
    }

    pub open spec fn parse_text(self, tag: Seq<char>) -> (ParserView, StepView<Seq<char>>) {
        self.parse_text_string(tag)
    }

    /// Reads a quoted text as a path of the source being read.
    pub open spec fn parse_text_as_path(self, tag: Seq<char>) -> (ParserView, StepView<Seq<char>>) {
        let (s1, r1) = self.parse_text_string(tag);
        match r1 {
            Err(e) => (s1, Err(e)),
            Ok(p) => match s1.join_path(p) {
                Ok(joined) => (s1, Ok(joined)),
                Err(e) => (s1, Err(Err(e))),
            },
        }
    }

    /// Reads a name and looks its value up.
    pub open spec fn parse_variable(self, tag: Seq<char>) -> (ParserView, StepView<Option<Seq<char>>>) {
        let (s1, r1) = self.parse_variable_name(tag);
        match r1 {
            Err(e) => (s1, Err(e)),
            Ok(alias) => (s1, Ok(s1.context.value(alias))),
        }
    }

    /// Reads a name and looks its value up as a path.
    pub open spec fn parse_variable_as_path(self, tag: Seq<char>) -> (ParserView, StepView<Option<Seq<char>>>) {
        let (s1, r1) = self.parse_variable_name(tag);
        match r1 {
            Err(e) => (s1, Err(e)),
            Ok(alias) => (s1, Ok(s1.context.path(alias))),
        }
    }

    /// Reads a value: a quoted text, a number literal, or a variable, which
    /// gives nothing where it is unbound.
    pub open spec fn parse_value(self, tag: Seq<char>) -> (ParserView, StepView<Option<Seq<char>>>) {
        match self.tag_current_or_unexpected_eof(tag) {
            Err(e) => (self, Err(e)),
            Ok(c) => if c == '"' {
                let (s1, r1) = self.parse_text(tag);
                match r1 {
                    Err(e) => (s1, Err(e)),
                    Ok(t) => (s1, Ok(Some(t))),
                }
            } else if spec_is_number_start(c) {
                let (s1, r1) = self.parse_number(tag);
                match r1 {
                    Err(e) => (s1, Err(e)),
                    Ok(t) => (s1, Ok(Some(t))),
                }
            } else {
                self.parse_variable(tag)
            },
        }
    }

    /// Reads a value as a path: a quoted text against the source's
    /// directory, a variable against the file that bound it.
    pub open spec fn parse_value_as_path(self, tag: Seq<char>) -> (ParserView, StepView<Option<Seq<char>>>) {
        match self.tag_current_or_unexpected_eof(tag) {
            Err(e) => (self, Err(e)),
            Ok(c) => if c == '"' {
                let (s1, r1) = self.parse_text_as_path(tag);
                match r1 {
                    Err(e) => (s1, Err(e)),
                    Ok(t) => (s1, Ok(Some(t))),
                }
            } else {
                self.parse_variable_as_path(tag)
            },
        }
    }

    pub open spec fn no_number(self) -> ErrorView {
        self.fail(ErrorKind::MissingValue, "Cannot coerce an empty value into a number"@)
    }

    pub open spec fn bad_number(self) -> ErrorView {
        self.fail(ErrorKind::BadNumber, "Failed to coerce value into a number"@)
    }

    /// Reads a value that must be a decimal integer, white space around it
    /// aside.
    pub open spec fn parse_value_as_number(self, tag: Seq<char>) -> (ParserView, StepView<i64>) {
        let (s1, r1) = self.parse_value(tag);
        match r1 {
            Err(e) => (s1, Err(e)),
            Ok(None) => (s1, Err(Err(s1.no_number()))),
            Ok(Some(v)) => match i64_value(trimmed(v)) {
                Some(n) => (s1, Ok(n)),
                None => (s1, Err(Err(s1.bad_number()))),
            },
        }
    }

    /// Steps over the comma that stands before every item of a list but
    /// the first.
    pub open spec fn list_separator(self, tag: Seq<char>, first: bool) -> (ParserView, StepView<()>) {
        let s0 = self.bypass_whitespace();
        if first {
            (s0, Ok(()))
        } else {
            let (s1, r1) = s0.tag_expect_char(tag, just(','));
            match r1 {
                Err(e) => (s1, Err(e)),
                Ok(_) => (s1.bypass_whitespace(), Ok(())),
            }
        }
    }

    /// Reads the names of a list up to its closing bracket.
    pub open spec fn function_args_rest(self, tag: Seq<char>, names: Seq<Seq<char>>) -> (ParserView, StepView<Seq<Seq<char>>>)
        decreases self.input.remaining(),
    {
        match self.tag_current_or_unexpected_eof(tag) {
            Err(e) => (self, Err(e)),
            Ok(c) => if c == ')' {
                (self, Ok(names))
            } else {
                let (s1, r1) = self.list_separator(tag, names.len() == 0);
                match r1 {
                    Err(e) => (s1, Err(e)),
                    Ok(_) => {
                        let (s2, r2) = s1.parse_variable_name(tag);
                        match r2 {
                            Err(e) => (s2, Err(e)),
                            Ok(name) => {
                                let s3 = s2.bypass_whitespace();
                                if s3.input.remaining() < self.input.remaining() {
                                    s3.function_args_rest(tag, names.push(name))
                                } else {
                                    (s3, Err(Err(s3.stalled())))
                                }
                            },
                        }
                    },
                }
            },
        }
    }

    /// Reads the parameter names of a function: a list in round brackets,
    /// commas between the names, white space anywhere.
    pub open spec fn parse_function_args(self, tag: Seq<char>) -> (ParserView, StepView<Seq<Seq<char>>>) {
        let (s1, r1) = self.bypass_whitespace().tag_expect_char(tag, just('('));
        match r1 {
            Err(e) => (s1, Err(e)),
            Ok(_) => {
                let (s2, r2) = s1.clear_buffer().function_args_rest(tag, Seq::empty());
                match r2 {
                    Err(e) => (s2, Err(e)),
                    Ok(names) => {
                        let (s3, r3) = s2.tag_expect_char(tag, just(')'));
                        match r3 {
                            Err(e) => (s3, Err(e)),
                            Ok(_) => (s3, Ok(names)),
                        }
                    },
                }
            },
        }
    }

    /// Reads the values of a list up to its closing bracket.
    pub open spec fn function_values_rest(self, tag: Seq<char>, values: Seq<Option<Seq<char>>>) -> (ParserView, StepView<Seq<Option<Seq<char>>>>)
        decreases self.input.remaining(),
    {
        match self.tag_current_or_unexpected_eof(tag) {
            Err(e) => (self, Err(e)),
            Ok(c) => if c == ')' {
                (self, Ok(values))
            } else {
                let (s1, r1) = self.list_separator(tag, values.len() == 0);
                match r1 {
                    Err(e) => (s1, Err(e)),
                    Ok(_) => {
                        let (s2, r2) = s1.parse_value(tag);
                        match r2 {
                            Err(e) => (s2, Err(e)),
                            Ok(value) => {
                                let s3 = s2.bypass_whitespace();
                                if s3.input.remaining() < self.input.remaining() {
                                    s3.function_values_rest(tag, values.push(value))
                                } else {
                                    (s3, Err(Err(s3.stalled())))
                                }
                            },
                        }
                    },
                }
            },
        }
    }

    /// Reads the arguments of a call: a list of values in round brackets.
    pub open spec fn parse_function_arg_values(self, tag: Seq<char>) -> (ParserView, StepView<Seq<Option<Seq<char>>>>) {
        let (s1, r1) = self.bypass_whitespace().tag_expect_char(tag, just('('));
        match r1 {
            Err(e) => (s1, Err(e)),
            Ok(_) => {
                let (s2, r2) = s1.clear_buffer().function_values_rest(tag, Seq::empty());
                match r2 {
                    Err(e) => (s2, Err(e)),
                    Ok(values) => {
                        let (s3, r3) = s2.tag_expect_char(tag, just(')'));
                        match r3 {
                            Err(e) => (s3, Err(e)),
                            Ok(_) => (s3, Ok(values)),
                        }
                    },
                }
            },
        }
    }
}

/// The views of a list of optional strings.
pub open spec fn values_view(v: Seq<Option<String>>) -> Seq<Option<Seq<char>>> {
    v.map_values(|s: Option<String>| crate::parser::text_view(s))
}

/// The model of a step that gives a list of strings.
pub open spec fn texts_step(r: StepResult<Vec<String>>) -> StepView<Seq<Seq<char>>> {
    match r {
        Ok(v) => Ok(texts(v@)),
        Err(Ok(flow)) => Err(Ok(flow)),
        Err(Err(e)) => Err(Err(e@)),
    }
}

/// The model of a step that gives a list of optional strings.
pub open spec fn values_step(r: StepResult<Vec<Option<String>>>) -> StepView<Seq<Option<Seq<char>>>> {
    match r {
        Ok(v) => Ok(values_view(v@)),
        Err(Ok(flow)) => Err(Ok(flow)),
        Err(Err(e)) => Err(Err(e@)),
    }
}

impl<'f> TemplateParser<'f> {
    pub fn current(&self) -> (r: Option<char>)
        requires
            self.wf(),
        ensures
            r == self@.current(),
    {
        match self.input.current() {
            Some(c) => Some(*c),
            None => None,
        }
    }

    pub fn current_or_continue(&mut self) -> (r: StepResult<char>)
        requires
            old(self).wf(),
        ensures
            final(self).wf(),
            agrees(final(self)@, r, old(self)@.current_or_continue()),
    {
        match self.current() {
            Some(c) => Ok(c),
            None => {
                self.output.flush_buffer_to_content();
                Err(Ok(FlowControl::Continue))
            },
        }
    }

    pub fn current_or_break(&self) -> (r: StepResult<char>)
        requires
            self.wf(),
        ensures
            step_view(r) == self@.current_or_break().1,
    {
        match self.current() {
            Some(c) => Ok(c),
            None => Err(Ok(FlowControl::Break)),
        }
    }

    pub fn unexpected_eof(&self) -> (r: InternalError)
        requires
            self.wf(),
        ensures
            r@ == self@.unexpected_eof(),
    {
        self.fail(ErrorKind::UnexpectedEof, "Unexpected EOF")
    }

    /// Steps over the current character.
    pub fn step(&mut self)
        requires
            old(self).wf(),
        ensures
            final(self).wf(),
            final(self)@ == old(self)@.step(),
    {
        let _ = self.input.step();
    }

    pub fn write_char(&mut self, c: char)
        requires
            old(self).wf(),
        ensures
            final(self).wf(),
            final(self)@ == old(self)@.write_char(c),
    {
        self.output.write_char(c);
    }

    pub fn write_str(&mut self, s: &str)
        requires
            old(self).wf(),
        ensures
            final(self).wf(),
            final(self)@ == old(self)@.write_str(s@),
    {
        self.output.write_str(s);
    }

    pub fn clear_buffer(&mut self)
        requires
            old(self).wf(),
        ensures
            final(self).wf(),
            final(self)@ == old(self)@.clear_buffer(),
    {
        self.output.clear_buffer();
    }

    pub fn flush(&mut self)
        requires
            old(self).wf(),
        ensures
            final(self).wf(),
            final(self)@ == old(self)@.flush(),
    {
        self.output.flush_buffer_to_content();
    }

    pub fn push_step_internal(&mut self) -> (r: InternalResult<()>)
        requires
            old(self).wf(),
        ensures
            final(self).wf(),
            agrees(final(self)@, into_step_spec(r), old(self)@.push_step()),
    {
        let c = match self.current() {
            Some(c) => c,
            None => {
                return Err(self.unexpected_eof());
            },
        };
        self.output.write_char(c);
        let _ = self.input.step();
        Ok(())
    }

    pub fn push_step(&mut self) -> (r: StepResult<()>)
        requires
            old(self).wf(),
        ensures
            final(self).wf(),
            agrees(final(self)@, r, old(self)@.push_step()),
    {
        into_step(self.push_step_internal())
    }

    pub fn buffer_all_while<F: Fn(char) -> bool>(&mut self, matches: F) -> (r: StepResult<()>)
        requires
            old(self).wf(),
            forall|c: char| call_requires(matches, (c,)),
        ensures
            final(self).wf(),
            r is Ok,
            forall|p: spec_fn(char) -> bool|
                decides(matches, p) ==> final(self)@ == #[trigger] old(self)@.buffer_all_while(p),
    {
        loop
            invariant
                self.wf(),
                forall|c: char| call_requires(matches, (c,)),
                forall|p: spec_fn(char) -> bool|
                    decides(matches, p) ==> self@.buffer_all_while(p) == #[trigger] old(
                        self,
                    )@.buffer_all_while(p),
            decreases self@.input.remaining(),
        {
            let c = match self.current() {
                Some(c) => c,
                None => {
                    return Ok(());
                },
            };
            if matches(c) {
                let ghost before = self@;
                self.output.write_char(c);
                let _ = self.input.step();
                assert(self@ == before.write_char(c).step());
            } else {
                return Ok(());
            }
        }
    }

    pub fn buffer_all_until<F: Fn(char) -> bool>(&mut self, matches: F) -> (r: StepResult<()>)
        requires
            old(self).wf(),
            forall|c: char| call_requires(matches, (c,)),
        ensures
            final(self).wf(),
            r is Ok,
            forall|p: spec_fn(char) -> bool|
                decides(matches, p) ==> final(self)@ == #[trigger] old(self)@.buffer_all_until(p),
    {
        loop
            invariant
                self.wf(),
                forall|c: char| call_requires(matches, (c,)),
                forall|p: spec_fn(char) -> bool|
                    decides(matches, p) ==> self@.buffer_all_until(p) == #[trigger] old(
                        self,
                    )@.buffer_all_until(p),
            decreases self@.input.remaining(),
        {
            let c = match self.current() {
                Some(c) => c,
                None => {
                    return Ok(());
                },
            };
            if matches(c) {
                return Ok(());
            } else {
                let ghost before = self@;
                self.output.write_char(c);
                let _ = self.input.step();
                assert(self@ == before.write_char(c).step());
            }
        }
    }

    pub fn bypass_all_until<F: Fn(char) -> bool>(&mut self, matches: F) -> (r: StepResult<()>)
        requires
            old(self).wf(),
            forall|c: char| call_requires(matches, (c,)),
        ensures
            final(self).wf(),
            r is Ok,
            forall|p: spec_fn(char) -> bool|
                decides(matches, p) ==> final(self)@ == #[trigger] old(self)@.bypass_all_until(p),
    {
        loop
            invariant
                self.wf(),
                forall|c: char| call_requires(matches, (c,)),
                forall|p: spec_fn(char) -> bool|
                    decides(matches, p) ==> self@.bypass_all_until(p) == #[trigger] old(
                        self,
                    )@.bypass_all_until(p),
            decreases self@.input.remaining(),
        {
            let c = match self.current() {
                Some(c) => c,
                None => {
                    return Ok(());
                },
            };
            if matches(c) {
                return Ok(());
            } else {
                let ghost before = self@;
                let _ = self.input.step();
                assert(self@ == before.step());
            }
        }
    }

    pub fn bypass_whitespace(&mut self) -> (r: StepResult<()>)
        requires
            old(self).wf(),
        ensures
            final(self).wf(),
            r is Ok,
            final(self)@ == old(self)@.bypass_whitespace(),
    {
        self.bypass_all_until(is_not_whitespace)
    }

    pub fn buffer_whitespace(&mut self) -> (r: StepResult<()>)
        requires
            old(self).wf(),
        ensures
            final(self).wf(),
            r is Ok,
            final(self)@ == old(self)@.buffer_whitespace(),
    {
        self.buffer_all_while(is_whitespace)
    }

    pub fn bypass_whitespace_enforce_one(&mut self) -> (r: StepResult<bool>)
        requires
            old(self).wf(),
        ensures
            final(self).wf(),
            r is Ok,
            final(self)@ == old(self)@.bypass_whitespace_enforce_one().0,
            r->Ok_0 == old(self)@.bypass_whitespace_enforce_one().1,
    {
        let c = match self.current() {
            Some(c) => c,
            None => {
                return Ok(false);
            },
        };
        if is_whitespace(c) {
            let _ = self.bypass_whitespace();
            Ok(true)
        } else {
            Ok(false)
        }
    }

    pub fn buffer_whitespace_enforce_one(&mut self) -> (r: StepResult<bool>)
        requires
            old(self).wf(),
        ensures
            final(self).wf(),
            r is Ok,
            final(self)@ == old(self)@.buffer_whitespace_enforce_one().0,
            r->Ok_0 == old(self)@.buffer_whitespace_enforce_one().1,
    {
        let c = match self.current() {
            Some(c) => c,
            None => {
                return Ok(false);
            },
        };
        if is_whitespace(c) {
            let _ = self.buffer_whitespace();
            Ok(true)
        } else {
            Ok(false)
        }
    }

    pub fn buffer_rest_of_tagname(&mut self) -> (r: StepResult<String>)
        requires
            old(self).wf(),
        ensures
            final(self).wf(),
            r is Ok,
            final(self)@ == old(self)@.buffer_rest_of_tagname().0,
            r->Ok_0@ == old(self)@.buffer_rest_of_tagname().1,
    {
        let _ = self.buffer_all_while(is_name_start);
        Ok(self.output.take_buffer())
    }

    /// Fails with a message that names the tag being read.
    fn fail_tagname(&mut self, kind: ErrorKind, head: &str) -> (r: InternalError)
        requires
            old(self).wf(),
        ensures
            final(self).wf(),
            final(self)@ == old(self)@.fail_tagname(kind, head@).0,
            r@ == old(self)@.fail_tagname(kind, head@).1,
    {
        let _ = self.buffer_all_while(is_name_start);
        let name = self.output.take_buffer();
        self.fail3(kind, head, name.as_str(), "'")
    }

    pub fn unknown_tag<T: DeepView>(&mut self) -> (r: StepResult<T>)
        requires
            old(self).wf(),
        ensures
            final(self).wf(),
            final(self)@ == old(self)@.unknown_tag().0,
            step_view(r) == Err::<T::V, FlowView>(Err(old(self)@.unknown_tag().1)),
    {
        Err(Err(self.fail_tagname(ErrorKind::UnknownTag, "Unknown tag '")))
    }

    pub fn unexpected_tag<T: DeepView>(&mut self) -> (r: StepResult<T>)
        requires
            old(self).wf(),
        ensures
            final(self).wf(),
            final(self)@ == old(self)@.unexpected_tag().0,
            step_view(r) == Err::<T::V, FlowView>(Err(old(self)@.unexpected_tag().1)),
    {
        Err(Err(self.fail_tagname(ErrorKind::UnexpectedTag, "Unexpected tag '")))
    }

    pub fn unknown_end_tag<T: DeepView>(&mut self) -> (r: StepResult<T>)
        requires
            old(self).wf(),
        ensures
            final(self).wf(),
            final(self)@ == old(self)@.unknown_end_tag().0,
            step_view(r) == Err::<T::V, FlowView>(Err(old(self)@.unknown_end_tag().1)),
    {
        Err(Err(self.fail_tagname(ErrorKind::UnknownEndTag, "Unknown end-tag '")))
    }

    pub fn unexpected_end_tag<T: DeepView>(&mut self) -> (r: StepResult<T>)
        requires
            old(self).wf(),
        ensures
            final(self).wf(),
            final(self)@ == old(self)@.unexpected_end_tag().0,
            step_view(r) == Err::<T::V, FlowView>(Err(old(self)@.unexpected_end_tag().1)),
    {
        Err(Err(self.fail_tagname(ErrorKind::UnexpectedEndTag, "Unexpected end-tag '")))
    }

    pub fn unexpected_eof_in_tag<T: DeepView>(&mut self) -> (r: StepResult<T>)
        requires
            old(self).wf(),
        ensures
            final(self).wf(),
            final(self)@ == old(self)@.unexpected_eof_in_tag().0,
            step_view(r) == Err::<T::V, FlowView>(Err(old(self)@.unexpected_eof_in_tag().1)),
    {
        Err(Err(self.fail_tagname(ErrorKind::UnexpectedEof, "Unexpected EOF in tag '")))
    }

    pub fn current_or_unexpected_eof_in_tag(&mut self) -> (r: StepResult<char>)
        requires
            old(self).wf(),
        ensures
            final(self).wf(),
            agrees(final(self)@, r, old(self)@.current_or_unexpected_eof_in_tag()),
    {
        match self.current() {
            Some(c) => Ok(c),
            None => self.unexpected_eof_in_tag(),
        }
    }

    pub fn tag_unexpected_eof<T: DeepView>(&self, tagname: &str) -> (r: StepResult<T>)
        requires
            self.wf(),
        ensures
            step_view(r) == Err::<T::V, FlowView>(Err(self@.tag_unexpected_eof(tagname@))),
    {
        Err(Err(self.fail3(ErrorKind::UnexpectedEof, "Unexpected EOF in tag '", tagname, "'")))
    }

    pub fn tag_current_or_unexpected_eof(&self, tagname: &str) -> (r: StepResult<char>)
        requires
            self.wf(),
        ensures
            step_view(r) == self@.tag_current_or_unexpected_eof(tagname@),
    {
        match self.current() {
            Some(c) => Ok(c),
            None => self.tag_unexpected_eof(tagname),
        }
    }

    pub fn tag_unexpected_eof_expected<T: DeepView>(&self, tagname: &str, expected: &str) -> (r:
        StepResult<T>)
        requires
            self.wf(),
        ensures
            step_view(r) == Err::<T::V, FlowView>(
                Err(self@.tag_unexpected_eof_expected(tagname@, expected@)),
            ),
    {
        let tail = crate::text::concat("', expected ", expected);
        assert("Unexpected EOF in tag '"@ + tagname@ + tail@ =~= "Unexpected EOF in tag '"@
            + tagname@ + "', expected "@ + expected@);
        assert("Unexpected character in tag '"@ + tagname@ + tail@
            =~= "Unexpected character in tag '"@ + tagname@ + "', expected "@ + expected@);
        Err(
            Err(
                self.fail3(
                    ErrorKind::UnexpectedEof,
                    "Unexpected EOF in tag '",
                    tagname,
                    tail.as_str(),
                ),
            ),
        )
    }

    pub fn tag_unexpected_char<T: DeepView>(&self, tagname: &str) -> (r: StepResult<T>)
        requires
            self.wf(),
        ensures
            step_view(r) == Err::<T::V, FlowView>(Err(self@.tag_unexpected_char(tagname@))),
    {
        Err(
            Err(
                self.fail3(
                    ErrorKind::UnexpectedCharacter,
                    "Unexpected character in tag '",
                    tagname,
                    "'",
                ),
            ),
        )
    }

    pub fn tag_unexpected_char_expected<T: DeepView>(&self, tagname: &str, expected: &str) -> (r:
        StepResult<T>)
        requires
            self.wf(),
        ensures
            step_view(r) == Err::<T::V, FlowView>(
                Err(self@.tag_unexpected_char_expected(tagname@, expected@)),
            ),
    {
        let tail = crate::text::concat("', expected ", expected);
        assert("Unexpected EOF in tag '"@ + tagname@ + tail@ =~= "Unexpected EOF in tag '"@
            + tagname@ + "', expected "@ + expected@);
        assert("Unexpected character in tag '"@ + tagname@ + tail@
            =~= "Unexpected character in tag '"@ + tagname@ + "', expected "@ + expected@);
        Err(
            Err(
                self.fail3(
                    ErrorKind::UnexpectedCharacter,
                    "Unexpected character in tag '",
                    tagname,
                    tail.as_str(),
                ),
            ),
        )
    }

    pub fn end_tag_unexpected_eof<T: DeepView>(&self, tagname: &str) -> (r: StepResult<T>)
        requires
            self.wf(),
        ensures
            step_view(r) == Err::<T::V, FlowView>(Err(self@.end_tag_unexpected_eof(tagname@))),
    {
        Err(
            Err(
                self.fail3(ErrorKind::UnexpectedEof, "Unexpected EOF in end-tag '", tagname, "'"),
            ),
        )
    }

    pub fn end_tag_unexpected_char<T: DeepView>(&self, tagname: &str) -> (r: StepResult<T>)
        requires
            self.wf(),
        ensures
            step_view(r) == Err::<T::V, FlowView>(Err(self@.end_tag_unexpected_char(tagname@))),
    {
        Err(
            Err(
                self.fail3(
                    ErrorKind::UnexpectedCharacter,
                    "Unexpected character in end-tag '",
                    tagname,
                    "'",
                ),
            ),
        )
    }

    pub fn tag_expect_char_internal<F: FnOnce(char) -> bool>(&self, tagname: &str, matches: F) -> (r:
        StepResult<char>)
        requires
            self.wf(),
            forall|c: char| call_requires(matches, (c,)),
        ensures
            forall|p: spec_fn(char) -> bool|
                (forall|c: char, b: bool| call_ensures(matches, (c,), b) ==> b == p(c))
                    ==> step_view(r) == #[trigger] self@.tag_expect_char_internal(tagname@, p),
    {
        match self.current() {
            Some(c) => if matches(c) {
                Ok(c)
            } else {
                self.tag_unexpected_char(tagname)
            },
            None => self.tag_unexpected_eof(tagname),
        }
    }

    pub fn tag_expect_char<F: FnOnce(char) -> bool>(&mut self, tagname: &str, matches: F) -> (r:
        StepResult<()>)
        requires
            old(self).wf(),
            forall|c: char| call_requires(matches, (c,)),
        ensures
            final(self).wf(),
            forall|p: spec_fn(char) -> bool|
                (forall|c: char, b: bool| call_ensures(matches, (c,), b) ==> b == p(c)) ==> agrees(
                    final(self)@,
                    r,
                    #[trigger] old(self)@.tag_expect_char(tagname@, p),
                ),
    {
        match self.tag_expect_char_internal(tagname, matches) {
            Ok(c) => {
                let _ = self.input.step();
                Ok(())
            },
            Err(e) => Err(e),
        }
    }

    pub fn tag_expect_buffer_char<F: FnOnce(char) -> bool>(&mut self, tagname: &str, matches: F) -> (r:
        StepResult<()>)
        requires
            old(self).wf(),
            forall|c: char| call_requires(matches, (c,)),
        ensures
            final(self).wf(),
            forall|p: spec_fn(char) -> bool|
                (forall|c: char, b: bool| call_ensures(matches, (c,), b) ==> b == p(c)) ==> agrees(
                    final(self)@,
                    r,
                    #[trigger] old(self)@.tag_expect_buffer_char(tagname@, p),
                ),
    {
        match self.tag_expect_char_internal(tagname, matches) {
            Ok(c) => {
                self.output.write_char(c);
                let _ = self.input.step();
                Ok(())
            },
            Err(e) => Err(e),
        }
    }
    pub fn end_tag_expect_char_internal<F: FnOnce(char) -> bool>(&self, tagname: &str, matches: F) -> (r:
        StepResult<char>)
        requires
            self.wf(),
            forall|c: char| call_requires(matches, (c,)),
        ensures
            forall|p: spec_fn(char) -> bool|
                (forall|c: char, b: bool| call_ensures(matches, (c,), b) ==> b == p(c))
                    ==> step_view(r) == #[trigger] self@.end_tag_expect_char_internal(tagname@, p),
    {
        match self.current() {
            Some(c) => if matches(c) {
                Ok(c)
            } else {
                self.end_tag_unexpected_char(tagname)
            },
            None => self.end_tag_unexpected_eof(tagname),
        }
    }

    pub fn end_tag_expect_char<F: FnOnce(char) -> bool>(&mut self, tagname: &str, matches: F) -> (r:
        StepResult<()>)
        requires
            old(self).wf(),
            forall|c: char| call_requires(matches, (c,)),
        ensures
            final(self).wf(),
            forall|p: spec_fn(char) -> bool|
                (forall|c: char, b: bool| call_ensures(matches, (c,), b) ==> b == p(c)) ==> agrees(
                    final(self)@,
                    r,
                    #[trigger] old(self)@.end_tag_expect_char(tagname@, p),
                ),
    {
        match self.end_tag_expect_char_internal(tagname, matches) {
            Ok(c) => {
                let _ = self.input.step();
                Ok(())
            },
            Err(e) => Err(e),
        }
    }

    pub fn end_tag_expect_buffer_char<F: FnOnce(char) -> bool>(
        &mut self,
        tagname: &str,
        matches: F,
    ) -> (r: StepResult<()>)
        requires
            old(self).wf(),
            forall|c: char| call_requires(matches, (c,)),
        ensures
            final(self).wf(),
            forall|p: spec_fn(char) -> bool|
                (forall|c: char, b: bool| call_ensures(matches, (c,), b) ==> b == p(c)) ==> agrees(
                    final(self)@,
                    r,
                    #[trigger] old(self)@.end_tag_expect_buffer_char(tagname@, p),
                ),
    {
        match self.end_tag_expect_char_internal(tagname, matches) {
            Ok(c) => {
                self.output.write_char(c);
                let _ = self.input.step();
                Ok(())
            },
            Err(e) => Err(e),
        }
    }

    /// Steps over the character `x`, which must be the current one.
    pub fn expect(&mut self, tagname: &str, x: char) -> (r: StepResult<()>)
        requires
            old(self).wf(),
        ensures
            final(self).wf(),
            agrees(final(self)@, r, old(self)@.tag_expect_char(tagname@, just(x))),
    {
        self.tag_expect_char(tagname, |c: char| -> (b: bool)
            ensures b == (c == x),
        { c == x })
    }

    /// Copies the character `x`, which must be the current one, and steps
    /// over it.
    pub fn expect_buffer(&mut self, tagname: &str, x: char) -> (r: StepResult<()>)
        requires
            old(self).wf(),
        ensures
            final(self).wf(),
            agrees(final(self)@, r, old(self)@.tag_expect_buffer_char(tagname@, just(x))),
    {
        self.tag_expect_buffer_char(tagname, |c: char| -> (b: bool)
            ensures b == (c == x),
        { c == x })
    }

    /// Steps over the character `x` of an end tag.
    pub fn end_expect(&mut self, tagname: &str, x: char) -> (r: StepResult<()>)
        requires
            old(self).wf(),
        ensures
            final(self).wf(),
            agrees(final(self)@, r, old(self)@.end_tag_expect_char(tagname@, just(x))),
    {
        self.end_tag_expect_char(tagname, |c: char| -> (b: bool)
            ensures b == (c == x),
        { c == x })
    }

    /// Copies the character `x` of an end tag and steps over it.
    pub fn end_expect_buffer(&mut self, tagname: &str, x: char) -> (r: StepResult<()>)
        requires
            old(self).wf(),
        ensures
            final(self).wf(),
            agrees(final(self)@, r, old(self)@.end_tag_expect_buffer_char(tagname@, just(x))),
    {
        self.end_tag_expect_buffer_char(tagname, |c: char| -> (b: bool)
            ensures b == (c == x),
        { c == x })
    }

    /// Whether `seq` stands in the source at the cursor.
    fn at_sequence(&self, seq: &[char]) -> (r: bool)
        requires
            self.wf(),
        ensures
            r == self@.at_sequence(seq@),
    {
        self.input.starts_with(seq)
    }

    /// Copies the next `n` characters to the buffer.
    fn buffer_count(&mut self, n: usize)
        requires
            old(self).wf(),
        ensures
            final(self).wf(),
            final(self)@ == old(self)@.buffer_count(n as nat),
    {
        let mut k: usize = n;
        while k > 0
            invariant
                self.wf(),
                self@.buffer_count(k as nat) == old(self)@.buffer_count(n as nat),
            decreases k,
        {
            match self.current() {
                Some(c) => {
                    let ghost before = self@;
                    self.output.write_char(c);
                    let _ = self.input.step();
                    assert(self@ == before.write_char(c).step());
                    k -= 1;
                },
                None => {
                    return ;
                },
            }
        }
    }

    pub fn buffer_all_until_sequence(&mut self, tagname: &str, seq: &[char]) -> (r: StepResult<()>)
        requires
            old(self).wf(),
        ensures
            final(self).wf(),
            agrees(final(self)@, r, old(self)@.buffer_all_until_sequence(tagname@, seq@)),
    {
        if seq.len() == 0 {
            return Ok(());
        }
        loop
            invariant
                self.wf(),
                seq@.len() > 0,
                self@.buffer_all_until_sequence(tagname@, seq@) == old(
                    self,
                )@.buffer_all_until_sequence(tagname@, seq@),
            decreases self@.input.remaining(),
        {
            let ghost before = self@;
            let c = match self.current() {
                Some(c) => c,
                None => {
                    return self.tag_unexpected_eof(tagname);
                },
            };
            if c == '\\' {
                self.output.write_char(c);
                let _ = self.input.step();
                let d = match self.current() {
                    Some(d) => d,
                    None => {
                        return self.tag_unexpected_eof(tagname);
                    },
                };
                self.output.write_char(d);
                let _ = self.input.step();
                assert(self@ == before.write_char(c).step().write_char(d).step());
            } else if self.at_sequence(seq) {
                self.buffer_count(seq.len());
                return Ok(());
            } else {
                self.output.write_char(c);
                let _ = self.input.step();
                assert(self@ == before.write_char(c).step());
            }
        }
    }

    pub fn buffer_all_until_end_of_self_closing_tag(&mut self, tagname: &str) -> (r: StepResult<()>)
        requires
            old(self).wf(),
        ensures
            final(self).wf(),
            agrees(final(self)@, r, old(self)@.buffer_all_until_end_of_self_closing_tag(tagname@)),
    {
        let seq: [char; 3] = ['/', '%', '}'];
        assert(seq@ =~= seq!['/', '%', '}']);
        self.buffer_all_until_sequence(tagname, seq.as_slice())
    }

    pub fn buffer_all_until_end_of_tag(&mut self, tagname: &str) -> (r: StepResult<()>)
        requires
            old(self).wf(),
        ensures
            final(self).wf(),
            agrees(final(self)@, r, old(self)@.buffer_all_until_end_of_tag(tagname@)),
    {
        let seq: [char; 2] = ['%', '}'];
        assert(seq@ =~= seq!['%', '}']);
        self.buffer_all_until_sequence(tagname, seq.as_slice())
    }

    pub fn expect_end_of_self_close_tag(&mut self, tagname: &str) -> (r: StepResult<()>)
        requires
            old(self).wf(),
        ensures
            final(self).wf(),
            agrees(final(self)@, r, old(self)@.expect_end_of_self_close_tag(tagname@)),
    {
        let _ = self.bypass_whitespace();
        self.expect(tagname, '/')?;
        self.expect(tagname, '%')?;
        self.expect(tagname, '}')?;
        Ok(())
    }

    pub fn expect_end_of_tag(&mut self, tagname: &str) -> (r: StepResult<()>)
        requires
            old(self).wf(),
        ensures
            final(self).wf(),
            agrees(final(self)@, r, old(self)@.expect_end_of_tag(tagname@)),
    {
        let _ = self.bypass_whitespace();
        self.expect(tagname, '%')?;
        self.expect(tagname, '}')?;
        Ok(())
    }

    pub fn expect_end_of_end_tag(&mut self, tagname: &str) -> (r: StepResult<()>)
        requires
            old(self).wf(),
        ensures
            final(self).wf(),
            agrees(final(self)@, r, old(self)@.expect_end_of_end_tag(tagname@)),
    {
        let _ = self.bypass_whitespace();
        self.end_expect(tagname, '%')?;
        self.end_expect(tagname, '}')?;
        Ok(())
    }

    pub fn expect_end_of_tag_buffer(&mut self, tagname: &str) -> (r: StepResult<()>)
        requires
            old(self).wf(),
        ensures
            final(self).wf(),
            agrees(final(self)@, r, old(self)@.expect_end_of_tag_buffer(tagname@)),
    {
        let _ = self.buffer_whitespace();
        self.expect_buffer(tagname, '%')?;
        self.expect_buffer(tagname, '}')?;
        Ok(())
    }

    pub fn expect_end_of_end_tag_buffer(&mut self, tagname: &str) -> (r: StepResult<()>)
        requires
            old(self).wf(),
        ensures
            final(self).wf(),
            agrees(final(self)@, r, old(self)@.expect_end_of_end_tag_buffer(tagname@)),
    {
        let _ = self.buffer_whitespace();
        self.end_expect_buffer(tagname, '%')?;
        self.end_expect_buffer(tagname, '}')?;
        Ok(())
    }

    pub fn take_buffer(&mut self) -> (r: String)
        requires
            old(self).wf(),
        ensures
            final(self).wf(),
            final(self)@ == old(self)@.take_buffer(),
            r@ == old(self)@.output.buffer,
    {
        self.output.take_buffer()
    }

    /// A path as the source being read means it.
    pub fn join_path(&self, p: &str) -> (r: InternalResult<String>)
        requires
            self.wf(),
        ensures
            crate::error::result_view(r) == self@.join_path(p@),
    {
        match self.input.join_path(p, self.files) {
            Ok(joined) => Ok(joined),
            Err(e) => {
                let mut e = e;
                e.upgrade_from_input(&self.input);
                Err(e)
            },
        }
    }

    pub fn parse_variable_name(&mut self, tagname: &str) -> (r: StepResult<String>)
        requires
            old(self).wf(),
        ensures
            final(self).wf(),
            agrees(final(self)@, r, old(self)@.parse_variable_name(tagname@)),
    {
        self.output.clear_buffer();
        let _ = self.bypass_whitespace();
        self.tag_expect_buffer_char(tagname, is_name_start)?;
        let _ = self.buffer_all_while(is_name_char);
        Ok(self.output.take_buffer())
    }

    /// Copies the inside of a quoted text up to its closing quote.
    fn text_body(&mut self, tagname: &str) -> (r: StepResult<()>)
        requires
            old(self).wf(),
        ensures
            final(self).wf(),
            agrees(final(self)@, r, old(self)@.text_body(tagname@)),
    {
        loop
            invariant
                self.wf(),
                self@.text_body(tagname@) == old(self)@.text_body(tagname@),
            decreases self@.input.remaining(),
        {
            let ghost before = self@;
            let _ = self.buffer_all_until(|c: char| -> (b: bool)
                ensures b == (c == '"' || c == '\\'),
            { c == '"' || c == '\\' });
            assert(self@ == before.buffer_all_until(|c: char| c == '"' || c == '\\'));
            let c = match self.current() {
                Some(c) => c,
                None => {
                    return self.tag_unexpected_eof_expected(tagname, "\"");
                },
            };
            if c == '"' {
                return Ok(());
            }
            let _ = self.input.step();
            let d = match self.current() {
                Some(d) => d,
                None => {
                    return self.tag_unexpected_eof_expected(tagname, "\"");
                },
            };
            if d == '"' {
                self.output.write_char(d);
            } else {
                self.output.write_char('\\');
                self.output.write_char(d);
            }
            let _ = self.input.step();
            proof {
                crate::progress::law_text_moves_on(before, tagname@);
            }
        }
    }

    pub fn parse_text_string(&mut self, tagname: &str) -> (r: StepResult<String>)
        requires
            old(self).wf(),
        ensures
            final(self).wf(),
            agrees(final(self)@, r, old(self)@.parse_text_string(tagname@)),
    {
        self.output.clear_buffer();
        self.expect(tagname, '"')?;
        self.text_body(tagname)?;
        self.expect(tagname, '"')?;
        Ok(self.output.take_buffer())
    }

    pub fn parse_number(&mut self, tagname: &str) -> (r: StepResult<String>)
        requires
            old(self).wf(),
        ensures
            final(self).wf(),
            agrees(final(self)@, r, old(self)@.parse_number(tagname@)),
    {
        self.output.clear_buffer();
        match self.current() {
            Some(c) => {
                if c == '-' || c == '+' {
                    self.output.write_char(c);
                    let _ = self.input.step();
                }
            },
            None => {},
        }
        assert(self@ == {
            let s0 = old(self)@.clear_buffer();
            match s0.current() {
                Some(c) => if c == '-' || c == '+' {
                    s0.write_char(c).step()
                } else {
                    s0
                },
                None => s0,
            }
        });
        self.tag_expect_buffer_char(tagname, is_digit)?;
        let _ = self.buffer_all_while(is_digit);
        Ok(self.output.take_buffer())
    }

    pub fn parse_text(&mut self, tagname: &str) -> (r: StepResult<String>)
        requires
            old(self).wf(),
        ensures
            final(self).wf(),
            agrees(final(self)@, r, old(self)@.parse_text(tagname@)),
    {
        self.parse_text_string(tagname)
    }

    pub fn parse_text_as_path(&mut self, tagname: &str) -> (r: StepResult<String>)
        requires
            old(self).wf(),
        ensures
            final(self).wf(),
            agrees(final(self)@, r, old(self)@.parse_text_as_path(tagname@)),
    {
        let path = self.parse_text_string(tagname)?;
        into_step(self.join_path(path.as_str()))
    }

    pub fn parse_variable(&mut self, tagname: &str) -> (r: StepResult<Option<String>>)
        requires
            old(self).wf(),
        ensures
            final(self).wf(),
            agrees(final(self)@, r, old(self)@.parse_variable(tagname@)),
    {
        let alias = self.parse_variable_name(tagname)?;
        match self.context.value(alias.as_str()) {
            Some(v) => Ok(Some(v.clone())),
            None => Ok(None),
        }
    }

    pub fn parse_variable_as_path(&mut self, tagname: &str) -> (r: StepResult<Option<String>>)
        requires
            old(self).wf(),
        ensures
            final(self).wf(),
            agrees(final(self)@, r, old(self)@.parse_variable_as_path(tagname@)),
    {
        let alias = self.parse_variable_name(tagname)?;
        Ok(self.context.path(alias.as_str()))
    }

    pub fn parse_value(&mut self, tagname: &str) -> (r: StepResult<Option<String>>)
        requires
            old(self).wf(),
        ensures
            final(self).wf(),
            agrees(final(self)@, r, old(self)@.parse_value(tagname@)),
    {
        let c = self.tag_current_or_unexpected_eof(tagname)?;
        if c == '"' {
            Ok(Some(self.parse_text(tagname)?))
        } else if is_number_start(c) {
            Ok(Some(self.parse_number(tagname)?))
        } else {
            self.parse_variable(tagname)
        }
    }

    pub fn parse_value_as_path(&mut self, tagname: &str) -> (r: StepResult<Option<String>>)
        requires
            old(self).wf(),
        ensures
            final(self).wf(),
            agrees(final(self)@, r, old(self)@.parse_value_as_path(tagname@)),
    {
        let c = self.tag_current_or_unexpected_eof(tagname)?;
        if c == '"' {
            Ok(Some(self.parse_text_as_path(tagname)?))
        } else {
            self.parse_variable_as_path(tagname)
        }
    }

    pub fn parse_value_as_number(&mut self, tagname: &str) -> (r: StepResult<i64>)
        requires
            old(self).wf(),
        ensures
            final(self).wf(),
            agrees(final(self)@, r, old(self)@.parse_value_as_number(tagname@)),
    {
        let value = match self.parse_value(tagname)? {
            Some(v) => v,
            None => {
                return Err(
                    Err(
                        self.fail(
                            ErrorKind::MissingValue,
                            "Cannot coerce an empty value into a number",
                        ),
                    ),
                );
            },
        };
        let digits = trim(value.as_str());
        match parse_i64(&digits) {
            Some(n) => Ok(n),
            None => Err(
                Err(self.fail(ErrorKind::BadNumber, "Failed to coerce value into a number")),
            ),
        }
    }

    /// Steps over the comma that stands before every item of a list but
    /// the first.
    fn list_separator(&mut self, tagname: &str, first: bool) -> (r: StepResult<()>)
        requires
            old(self).wf(),
        ensures
            final(self).wf(),
            agrees(final(self)@, r, old(self)@.list_separator(tagname@, first)),
    {
        let _ = self.bypass_whitespace();
        if !first {
            self.expect(tagname, ',')?;
            let _ = self.bypass_whitespace();
        }
        Ok(())
    }

    /// Reads the names of a list up to its closing bracket.
    fn function_args_rest(&mut self, tagname: &str) -> (r: StepResult<Vec<String>>)
        requires
            old(self).wf(),
        ensures
            final(self).wf(),
            final(self)@ == old(self)@.function_args_rest(tagname@, Seq::empty()).0,
            texts_step(r) == old(self)@.function_args_rest(tagname@, Seq::empty()).1,
    {
        let mut args: Vec<String> = Vec::new();
        assert(texts(args@) =~= Seq::<Seq<char>>::empty());
        loop
            invariant
                self.wf(),
                self@.function_args_rest(tagname@, texts(args@)) == old(
                    self,
                )@.function_args_rest(tagname@, Seq::empty()),
            decreases self@.input.remaining(),
        {
            let ghost before = self@;
            let c = self.tag_current_or_unexpected_eof(tagname)?;
            if c == ')' {
                return Ok(args);
            }
            self.list_separator(tagname, args.len() == 0)?;
            let name = self.parse_variable_name(tagname)?;
            let _ = self.bypass_whitespace();
            proof {
                crate::progress::law_lists_move_on(before, tagname@, args@.len() == 0);
            }
            proof {
                crate::text::lemma_texts_push(args@, name);
            }
            args.push(name);
        }
    }

    pub fn parse_function_args(&mut self, tagname: &str) -> (r: StepResult<Vec<String>>)
        requires
            old(self).wf(),
        ensures
            final(self).wf(),
            final(self)@ == old(self)@.parse_function_args(tagname@).0,
            texts_step(r) == old(self)@.parse_function_args(tagname@).1,
    {
        let _ = self.bypass_whitespace();
        self.expect(tagname, '(')?;
        self.output.clear_buffer();
        let args = self.function_args_rest(tagname)?;
        self.expect(tagname, ')')?;
        Ok(args)
    }

    /// Reads the values of a list up to its closing bracket.
    fn function_values_rest(&mut self, tagname: &str) -> (r: StepResult<Vec<Option<String>>>)
        requires
            old(self).wf(),
        ensures
            final(self).wf(),
            final(self)@ == old(self)@.function_values_rest(tagname@, Seq::empty()).0,
            values_step(r) == old(self)@.function_values_rest(tagname@, Seq::empty()).1,
    {
        let mut args: Vec<Option<String>> = Vec::new();
        assert(values_view(args@) =~= Seq::<Option<Seq<char>>>::empty());
        loop
            invariant
                self.wf(),
                self@.function_values_rest(tagname@, values_view(args@)) == old(
                    self,
                )@.function_values_rest(tagname@, Seq::empty()),
            decreases self@.input.remaining(),
        {
            let ghost before = self@;
            let c = self.tag_current_or_unexpected_eof(tagname)?;
            if c == ')' {
                return Ok(args);
            }
            self.list_separator(tagname, args.len() == 0)?;
            let value = self.parse_value(tagname)?;
            let _ = self.bypass_whitespace();
            proof {
                crate::progress::law_lists_move_on(before, tagname@, args@.len() == 0);
            }
            proof {
                assert(values_view(args@.push(value)) =~= values_view(args@).push(
                    crate::parser::text_view(value),
                ));
            }
            args.push(value);
        }
    }

    pub fn parse_function_arg_values(&mut self, tagname: &str) -> (r: StepResult<
        Vec<Option<String>>,
    >)
        requires
            old(self).wf(),
        ensures
            final(self).wf(),
            final(self)@ == old(self)@.parse_function_arg_values(tagname@).0,
            values_step(r) == old(self)@.parse_function_arg_values(tagname@).1,
    {
        let _ = self.bypass_whitespace();
        self.expect(tagname, '(')?;
        self.output.clear_buffer();
        let args = self.function_values_rest(tagname)?;
        self.expect(tagname, ')')?;
        Ok(args)
    }

}

/// The model of a plain result as a step's result.
pub open spec fn into_step_spec<T>(r: InternalResult<T>) -> StepResult<T> {
    match r {
        Ok(v) => Ok(v),
        Err(e) => Err(Err(e)),
    }
}

} // verus!
