//! The names of the tags, and the tags that need no parser inside them:
//! the ends of blocks, `else`, and the tags that close themselves.

use crate::error::{ErrorKind, ErrorView, InternalError, InternalResult};
use crate::files::{Known, Node, NodeView};
use crate::parser::if_parser::{Condition, IfParser};
use crate::parser::steps::{into_step, just};
use crate::parser::{
    agrees, step_view, EndPosition, FlowControl, FlowResult, FlowView, ParseUntil, ParserView,
    StepResult, StepView, TemplateParser,
};
use crate::path::{directory, file_name, join, parent, path_directory, path_file_name, path_join, path_parent};
use crate::text::{concat, nat_text, to_chars, usize_text};
use vstd::prelude::*;
use vstd::string::*;
use vstd::utf8::encode_utf8;

verus! {

/// The tags that open a block.
#[derive(Clone, Copy, Debug, PartialEq, Eq, Structural)]
pub enum Block {
    Add,
    Div,
    Fn,
    Fordir,
    Foreach,
    Forfile,
    Forsplit,
    If,
    Mod,
    Mul,
    Nth,
    Pow,
    SetBlock,
    Sub,
}

impl DeepView for Block {
    type V = Block;

    open spec fn deep_view(&self) -> Block {
        *self
    }
}

/// The tags that close themselves.
#[derive(Clone, Copy, Debug, PartialEq, Eq, Structural)]
pub enum Simple {
    Assert,
    Basename,
    Call,
    Compile,
    Count,
    Dirname,
    Extend,
    Include,
    Length,
    Path,
}

/// All tags.
#[derive(Clone, Copy, Debug, PartialEq, Eq, Structural)]
pub enum Tag {
    Open(Block),
    Closed(Simple),
    Else,
    /// The slash that starts the end of a block.
    End,
}

impl Block {
    pub open spec fn spec_name(self) -> Seq<char> {
        match self {
            Block::Add => "add"@,
            Block::Div => "div"@,
            Block::Fn => "fn"@,
            Block::Fordir => "fordir"@,
            Block::Foreach => "foreach"@,
            Block::Forfile => "forfile"@,
            Block::Forsplit => "forsplit"@,
            Block::If => "if"@,
            Block::Mod => "mod"@,
            Block::Mul => "mul"@,
            Block::Nth => "nth"@,
            Block::Pow => "pow"@,
            Block::SetBlock => "set"@,
            Block::Sub => "sub"@,
        }
    }

    /// The token that ends the block.
    pub open spec fn spec_until(self) -> ParseUntil {
        match self {
            Block::Add => ParseUntil::EndAdd,
            Block::Div => ParseUntil::EndDiv,
            Block::Fn => ParseUntil::EndFn,
            Block::Fordir => ParseUntil::EndFordir,
            Block::Foreach => ParseUntil::EndForeach,
            Block::Forfile => ParseUntil::EndForfile,
            Block::Forsplit => ParseUntil::EndForsplit,
            Block::If => ParseUntil::EndIf,
            Block::Mod => ParseUntil::EndMod,
            Block::Mul => ParseUntil::EndMul,
            Block::Nth => ParseUntil::EndNth,
            Block::Pow => ParseUntil::EndPow,
            Block::SetBlock => ParseUntil::EndSet,
            Block::Sub => ParseUntil::EndSub,
        }
    }

    /// The position that the end of the block leaves.
    pub open spec fn spec_end(self) -> EndPosition {
        match self {
            Block::Add => EndPosition::Add,
            Block::Div => EndPosition::Div,
            Block::Fn => EndPosition::Fn,
            Block::Fordir => EndPosition::Fordir,
            Block::Foreach => EndPosition::Foreach,
            Block::Forfile => EndPosition::Forfile,
            Block::Forsplit => EndPosition::Forsplit,
            Block::If => EndPosition::If,
            Block::Mod => EndPosition::Mod,
            Block::Mul => EndPosition::Mul,
            Block::Nth => EndPosition::Nth,
            Block::Pow => EndPosition::Pow,
            Block::SetBlock => EndPosition::SetBlock,
            Block::Sub => EndPosition::Sub,
        }
    }

    /// Whether the block may hold an `else`.
    pub open spec fn spec_allows_else(self) -> bool {
        self is Fordir || self is Foreach || self is Forfile || self is Forsplit || self is If
    }

    pub fn name(self) -> (r: &'static str)
        ensures
            r@ == self.spec_name(),
    {
        match self {
            Block::Add => "add",
            Block::Div => "div",
            Block::Fn => "fn",
            Block::Fordir => "fordir",
            Block::Foreach => "foreach",
            Block::Forfile => "forfile",
            Block::Forsplit => "forsplit",
            Block::If => "if",
            Block::Mod => "mod",
            Block::Mul => "mul",
            Block::Nth => "nth",
            Block::Pow => "pow",
            Block::SetBlock => "set",
            Block::Sub => "sub",
        }
    }

    pub fn until(self) -> (r: ParseUntil)
        ensures
            r == self.spec_until(),
    {
        match self {
            Block::Add => ParseUntil::EndAdd,
            Block::Div => ParseUntil::EndDiv,
            Block::Fn => ParseUntil::EndFn,
            Block::Fordir => ParseUntil::EndFordir,
            Block::Foreach => ParseUntil::EndForeach,
            Block::Forfile => ParseUntil::EndForfile,
            Block::Forsplit => ParseUntil::EndForsplit,
            Block::If => ParseUntil::EndIf,
            Block::Mod => ParseUntil::EndMod,
            Block::Mul => ParseUntil::EndMul,
            Block::Nth => ParseUntil::EndNth,
            Block::Pow => ParseUntil::EndPow,
            Block::SetBlock => ParseUntil::EndSet,
            Block::Sub => ParseUntil::EndSub,
        }
    }

    pub fn end(self) -> (r: EndPosition)
        ensures
            r == self.spec_end(),
    {
        match self {
            Block::Add => EndPosition::Add,
            Block::Div => EndPosition::Div,
            Block::Fn => EndPosition::Fn,
            Block::Fordir => EndPosition::Fordir,
            Block::Foreach => EndPosition::Foreach,
            Block::Forfile => EndPosition::Forfile,
            Block::Forsplit => EndPosition::Forsplit,
            Block::If => EndPosition::If,
            Block::Mod => EndPosition::Mod,
            Block::Mul => EndPosition::Mul,
            Block::Nth => EndPosition::Nth,
            Block::Pow => EndPosition::Pow,
            Block::SetBlock => EndPosition::SetBlock,
            Block::Sub => EndPosition::Sub,
        }
    }

    pub fn allows_else(self) -> (r: bool)
        ensures
            r == self.spec_allows_else(),
    {
        match self {
            Block::Fordir | Block::Foreach | Block::Forfile | Block::Forsplit | Block::If => true,
            _ => false,
        }
    }
}

impl Simple {
    pub open spec fn spec_name(self) -> Seq<char> {
        match self {
            Simple::Assert => "assert"@,
            Simple::Basename => "basename"@,
            Simple::Call => "call"@,
            Simple::Compile => "compile"@,
            Simple::Count => "count"@,
            Simple::Dirname => "dirname"@,
            Simple::Extend => "extend"@,
            Simple::Include => "include"@,
            Simple::Length => "length"@,
            Simple::Path => "path"@,
        }
    }

    pub fn name(self) -> (r: &'static str)
        ensures
            r@ == self.spec_name(),
    {
        match self {
            Simple::Assert => "assert",
            Simple::Basename => "basename",
            Simple::Call => "call",
            Simple::Compile => "compile",
            Simple::Count => "count",
            Simple::Dirname => "dirname",
            Simple::Extend => "extend",
            Simple::Include => "include",
            Simple::Length => "length",
            Simple::Path => "path",
        }
    }
}

/// The blocks in the order of their names.
pub open spec fn block_at(i: int) -> Block {
    if i == 0 {
        Block::Add
    } else if i == 1 {
        Block::Div
    } else if i == 2 {
        Block::Fn
    } else if i == 3 {
        Block::Fordir
    } else if i == 4 {
        Block::Foreach
    } else if i == 5 {
        Block::Forfile
    } else if i == 6 {
        Block::Forsplit
    } else if i == 7 {
        Block::If
    } else if i == 8 {
        Block::Mod
    } else if i == 9 {
        Block::Mul
    } else if i == 10 {
        Block::Nth
    } else if i == 11 {
        Block::Pow
    } else if i == 12 {
        Block::SetBlock
    } else {
        Block::Sub
    }
}

/// The self-closing tags in the order of their names.
pub open spec fn simple_at(i: int) -> Simple {
    if i == 0 {
        Simple::Assert
    } else if i == 1 {
        Simple::Basename
    } else if i == 2 {
        Simple::Call
    } else if i == 3 {
        Simple::Compile
    } else if i == 4 {
        Simple::Count
    } else if i == 5 {
        Simple::Dirname
    } else if i == 6 {
        Simple::Extend
    } else if i == 7 {
        Simple::Include
    } else if i == 8 {
        Simple::Length
    } else {
        Simple::Path
    }
}

/// The table of tags: first the blocks, then the self-closing tags, then
/// `else` and the slash.
pub open spec fn tag_at(i: int) -> Tag {
    if i < 14 {
        Tag::Open(block_at(i))
    } else if i < 24 {
        Tag::Closed(simple_at(i - 14))
    } else if i == 24 {
        Tag::Else
    } else {
        Tag::End
    }
}

/// The names of the blocks, which are also the names of their ends.
pub open spec fn block_names() -> Seq<Seq<char>> {
    Seq::new(14, |i: int| block_at(i).spec_name())
}

/// The names of all tags, in the order of `tag_at`.
pub open spec fn tag_names() -> Seq<Seq<char>> {
    Seq::new(
        26,
        |i: int|
            match tag_at(i) {
                Tag::Open(b) => b.spec_name(),
                Tag::Closed(s) => s.spec_name(),
                Tag::Else => "else"@,
                Tag::End => "/"@,
            },
    )
}

pub open spec fn rows(t: Seq<Vec<char>>) -> Seq<Seq<char>> {
    t.map_values(|v: Vec<char>| v@)
}

pub fn block_of(i: usize) -> (r: Block)
    ensures
        r == block_at(i as int),
{
    if i == 0 {
        Block::Add
    } else if i == 1 {
        Block::Div
    } else if i == 2 {
        Block::Fn
    } else if i == 3 {
        Block::Fordir
    } else if i == 4 {
        Block::Foreach
    } else if i == 5 {
        Block::Forfile
    } else if i == 6 {
        Block::Forsplit
    } else if i == 7 {
        Block::If
    } else if i == 8 {
        Block::Mod
    } else if i == 9 {
        Block::Mul
    } else if i == 10 {
        Block::Nth
    } else if i == 11 {
        Block::Pow
    } else if i == 12 {
        Block::SetBlock
    } else {
        Block::Sub
    }
}

pub fn simple_of(i: usize) -> (r: Simple)
    ensures
        r == simple_at(i as int),
{
    if i == 0 {
        Simple::Assert
    } else if i == 1 {
        Simple::Basename
    } else if i == 2 {
        Simple::Call
    } else if i == 3 {
        Simple::Compile
    } else if i == 4 {
        Simple::Count
    } else if i == 5 {
        Simple::Dirname
    } else if i == 6 {
        Simple::Extend
    } else if i == 7 {
        Simple::Include
    } else if i == 8 {
        Simple::Length
    } else {
        Simple::Path
    }
}

pub fn tag_of(i: usize) -> (r: Tag)
    ensures
        r == tag_at(i as int),
{
    if i < 14 {
        Tag::Open(block_of(i))
    } else if i < 24 {
        Tag::Closed(simple_of(i - 14))
    } else if i == 24 {
        Tag::Else
    } else {
        Tag::End
    }
}

/// The names of the blocks, as characters.
pub fn block_table() -> (t: Vec<Vec<char>>)
    ensures
        rows(t@) == block_names(),
{
    let mut t: Vec<Vec<char>> = Vec::new();
    let mut i: usize = 0;
    while i < 14
        invariant
            i <= 14,
            t@.len() == i,
            forall|j: int| 0 <= j < i ==> t@[j]@ == block_at(j).spec_name(),
        decreases 14 - i,
    {
        t.push(to_chars(block_of(i).name()));
        i += 1;
    }
    assert(rows(t@) =~= block_names());
    t
}

/// The names of all tags, as characters.
pub fn tag_table() -> (t: Vec<Vec<char>>)
    ensures
        rows(t@) == tag_names(),
{
    let mut t: Vec<Vec<char>> = Vec::new();
    let mut i: usize = 0;
    while i < 26
        invariant
            i <= 26,
            t@.len() == i,
            forall|j: int| 0 <= j < i ==> t@[j]@ == tag_names()[j],
        decreases 26 - i,
    {
        let name = match tag_of(i) {
            Tag::Open(b) => b.name(),
            Tag::Closed(s) => s.name(),
            Tag::Else => "else",
            Tag::End => "/",
        };
        t.push(to_chars(name));
        i += 1;
    }
    assert(rows(t@) =~= tag_names());
    t
}

/// Whether `name` starts with `p`.
pub open spec fn has_prefix(name: Seq<char>, p: Seq<char>) -> bool {
    p.len() <= name.len() && name.subrange(0, p.len() as int) =~= p
}

/// The first index from `from` on at which `p` stands in the list.
pub open spec fn named(names: Seq<Seq<char>>, p: Seq<char>, from: int) -> Option<int>
    decreases names.len() + 1 - from,
{
    if from < 0 || from >= names.len() {
        None
    } else if names[from] =~= p {
        Some(from)
    } else {
        named(names, p, from + 1)
    }
}

/// Whether a name of the list, from `from` on, starts with `p`.
pub open spec fn any_prefixed(names: Seq<Seq<char>>, p: Seq<char>, from: int) -> bool
    decreases names.len() + 1 - from,
{
    if from < 0 || from >= names.len() {
        false
    } else if has_prefix(names[from], p) {
        true
    } else {
        any_prefixed(names, p, from + 1)
    }
}

pub fn starts_with(name: &Vec<char>, p: &Vec<char>) -> (r: bool)
    ensures
        r == has_prefix(name@, p@),
{
    if p.len() > name.len() {
        return false;
    }
    let mut k: usize = 0;
    while k < p.len()
        invariant
            k <= p.len() <= name.len(),
            forall|j: int| 0 <= j < k ==> name@[j] == p@[j],
        decreases p.len() - k,
    {
        if name[k] != p[k] {
            assert(name@.subrange(0, p.len() as int)[k as int] != p@[k as int]);
            return false;
        }
        k += 1;
    }
    assert(name@.subrange(0, p.len() as int) =~= p@);
    true
}

pub fn find_named(names: &Vec<Vec<char>>, p: &Vec<char>) -> (r: Option<usize>)
    ensures
        match r {
            Some(i) => i < names.len() && named(rows(names@), p@, 0) == Some(i as int),
            None => named(rows(names@), p@, 0) is None,
        },
{
    let mut i: usize = 0;
    while i < names.len()
        invariant
            i <= names.len(),
            named(rows(names@), p@, 0) == named(rows(names@), p@, i as int),
        decreases names.len() - i,
    {
        assert(rows(names@)[i as int] == names@[i as int]@);
        if names[i].len() == p.len() && starts_with(&names[i], p) {
            assert(names@[i as int]@.subrange(0, p.len() as int) =~= names@[i as int]@);
            return Some(i);
        }
        i += 1;
    }
    None
}

pub fn find_prefixed(names: &Vec<Vec<char>>, p: &Vec<char>) -> (r: bool)
    ensures
        r == any_prefixed(rows(names@), p@, 0),
{
    let mut i: usize = 0;
    while i < names.len()
        invariant
            i <= names.len(),
            any_prefixed(rows(names@), p@, 0) == any_prefixed(rows(names@), p@, i as int),
        decreases names.len() - i,
    {
        assert(rows(names@)[i as int] == names@[i as int]@);
        if starts_with(&names[i], p) {
            return true;
        }
        i += 1;
    }
    false
}

/// A failure with the state that it leaves, as the outcome of a step.
pub open spec fn failing<V>(x: (ParserView, ErrorView)) -> (ParserView, StepView<V>) {
    (x.0, Err(Err(x.1)))
}

/// The parts of a path that the path tags give.
#[derive(Clone, Copy, Debug, PartialEq, Eq, Structural)]
pub enum PathPart {
    Whole,
    Directory,
    FileName,
}

pub open spec fn path_part(part: PathPart, path: Seq<char>) -> Seq<char> {
    match part {
        PathPart::Whole => path,
        PathPart::Directory => match path_parent(path) {
            Some(p) => p,
            None => Seq::empty(),
        },
        PathPart::FileName => match path_file_name(path) {
            Some(p) => p,
            None => Seq::empty(),
        },
    }
}

pub fn part_of(part: PathPart, path: &str) -> (r: String)
    ensures
        r@ == path_part(part, path@),
{
    match part {
        PathPart::Whole => path.to_owned(),
        PathPart::Directory => match parent(path) {
            Some(p) => p,
            None => String::new(),
        },
        PathPart::FileName => match file_name(path) {
            Some(p) => p,
            None => String::new(),
        },
    }
}

/// The element that `nth` picks from a stack of values: from the front for
/// an index that is not negative, nothing where none is there; counted
/// around from the end for a negative one; the last one for `-0`.
pub open spec fn nth_value(values: Seq<Seq<char>>, index: int, negative_zero: bool) -> Seq<char> {
    if values.len() == 0 {
        Seq::empty()
    } else if negative_zero {
        values[values.len() - 1]
    } else if index < 0 {
        values[index % (values.len() as int)]
    } else if index < values.len() {
        values[index]
    } else {
        Seq::empty()
    }
}

/// The index of the element that `nth` picks, if it picks one.
pub fn nth_index(len: usize, index: i64, negative_zero: bool) -> (r: Option<usize>)
    ensures
        match r {
            Some(i) => i < len && (if negative_zero {
                i == len - 1
            } else if index < 0 {
                i == (index as int) % (len as int)
            } else {
                i == index
            }),
            None => len == 0 || (!negative_zero && index >= len),
        },
{
    if len == 0 {
        None
    } else if negative_zero {
        Some(len - 1)
    } else if index < 0 {
        match (index as i128).checked_rem_euclid(len as i128) {
            Some(i) => {
                assert(0 <= (index as int) % (len as int) && (index as int) % (len as int) < (len as int));
                Some(i as usize)
            },
            None => None,
        }
    } else if (index as u64) < (len as u64) {
        Some(index as usize)
    } else {
        None
    }
}

impl ParserView {
    /// Reads the name of a tag, character by character, as long as some
    /// name of the list goes on with the character read. Gives the index
    /// of the name.
    pub open spec fn match_name(self, names: Seq<Seq<char>>, prefix: Seq<char>, end_tag: bool) -> (ParserView, StepView<usize>)
        decreases self.input.remaining(),
    {
        match named(names, prefix, 0) {
            Some(i) => (self, Ok(i as usize)),
            None => match self.input.current() {
                None => failing(self.unexpected_eof_in_tag()),
                Some(c) => if any_prefixed(names, prefix.push(c), 0) {
                    self.write_char(c).step().match_name(names, prefix.push(c), end_tag)
                } else if prefix.len() > 0 {
                    failing(self.unexpected_tag())
                } else if end_tag {
                    failing(self.unknown_end_tag())
                } else {
                    failing(self.unknown_tag())
                },
            },
        }
    }

    /// A self-closing tag that is not evaluated: its text is copied up to
    /// its end.
    pub open spec fn bypass_self_closing(self, name: Seq<char>) -> (ParserView, StepView<()>) {
        let (s1, space) = self.buffer_whitespace_enforce_one();
        if !space {
            failing(s1.unknown_tag())
        } else {
            let (s2, r2) = s1.buffer_all_until_end_of_self_closing_tag(name);
            match r2 {
                Err(e) => (s2, Err(e)),
                Ok(_) => (s2.flush(), Ok(())),
            }
        }
    }

    /// Whether an `else` may stand in the block being read.
    pub open spec fn else_allowed(self) -> bool {
        self.parse_until is EndFordir || self.parse_until is EndForeach
            || self.parse_until is EndForfile || self.parse_until is EndForsplit
            || self.parse_until is EndIf
    }

    /// `else` ends the first part of a block that may hold one.
    pub open spec fn parse_else(self) -> (ParserView, StepView<()>) {
        if !self.else_allowed() {
            failing(self.unexpected_tag())
        } else if self.bypass {
            let (s1, r1) = self.expect_end_of_tag_buffer("else"@);
            match r1 {
                Err(e) => (s1, Err(e)),
                Ok(_) => (
                    s1.set_end_position(EndPosition::Else).flush(),
                    Err(Ok(FlowControl::Break)),
                ),
            }
        } else {
            let (s1, r1) = self.clear_buffer().expect_end_of_tag("else"@);
            match r1 {
                Err(e) => (s1, Err(e)),
                Ok(_) => (s1.set_end_position(EndPosition::Else), Err(Ok(FlowControl::Break))),
            }
        }
    }

    /// The end of a block: it must be the block being read, and it stops
    /// the parser, which records the end that it stopped at.
    pub open spec fn end_block(self, block: Block) -> (ParserView, StepView<()>) {
        if self.bypass {
            let s0 = self.bypass_whitespace();
            if s0.parse_until != block.spec_until() {
                failing(s0.unexpected_end_tag())
            } else {
                let (s1, r1) = s0.expect_end_of_end_tag_buffer(block.spec_name());
                match r1 {
                    Err(e) => (s1, Err(e)),
                    Ok(_) => (
                        s1.flush().set_end_position(block.spec_end()),
                        Err(Ok(FlowControl::Break)),
                    ),
                }
            }
        } else {
            let s0 = self.clear_buffer().bypass_whitespace();
            if s0.parse_until != block.spec_until() {
                failing(s0.unexpected_end_tag())
            } else {
                let (s1, r1) = s0.expect_end_of_end_tag(block.spec_name());
                match r1 {
                    Err(e) => (s1, Err(e)),
                    Ok(_) => (s1.set_end_position(block.spec_end()), Err(Ok(FlowControl::Break))),
                }
            }
        }
    }

    /// An end tag: the name of a block behind the slash.
    pub open spec fn parse_end(self) -> (ParserView, StepView<()>) {
        if self.parse_until is Eof {
            failing(self.unexpected_end_tag())
        } else {
            let s0 = if self.bypass {
                self
            } else {
                self.clear_buffer()
            }.bypass_whitespace();
            let (s1, r1) = s0.match_name(block_names(), Seq::empty(), true);
            match r1 {
                Err(e) => (s1, Err(e)),
                Ok(i) => s1.end_block(block_at(i as int)),
            }
        }
    }

    /// A backslash outside a tag. Evaluating, it goes away, and the
    /// character behind it is taken as it is and opens no tag. White space
    /// is the one exception: behind a backslash the whole run of it goes
    /// away too, so that a template may break a line behind a backslash and
    /// indent the next one without either reaching the output; the tests
    /// of the loops lay their templates out so. Capturing, the backslash is
    /// kept, and the character behind it is taken as it is.
    pub open spec fn handle_escape(self) -> (ParserView, StepView<()>) {
        if self.bypass {
            match self.current() {
                Some(c) => (self.write_char(c).step().flush(), Ok(())),
                None => (self, Ok(())),
            }
        } else {
            let s0 = self.clear_buffer();
            match s0.current() {
                Some(c) => if crate::text::spec_is_whitespace(c) {
                    (s0.bypass_whitespace(), Ok(()))
                } else {
                    (s0.write_char(c).step().flush(), Ok(()))
                },
                None => (s0, Ok(())),
            }
        }
    }

    pub open spec fn unclosed_comment(self) -> ErrorView {
        self.fail(ErrorKind::UnexpectedEof, "Unclosed comment"@)
    }

    /// Steps over a comment up to and with the first `#}` that no backslash
    /// hides.
    pub open spec fn skip_comment(self) -> (ParserView, StepView<()>)
        decreases self.input.remaining(),
    {
        match self.input.current() {
            None => (self, Err(Err(self.unclosed_comment()))),
            Some(c) => if c == '\\' {
                let s1 = self.step();
                match s1.input.current() {
                    None => (s1, Err(Err(s1.unclosed_comment()))),
                    Some(_) => s1.step().skip_comment(),
                }
            } else if self.at_sequence(seq!['#', '}']) {
                (self.step().step(), Ok(()))
            } else {
                self.step().skip_comment()
            },
        }
    }

    /// A comment: dropped when evaluating, copied when capturing.
    pub open spec fn parse_comment(self) -> (ParserView, StepView<()>) {
        if self.bypass {
            self.buffer_all_until_sequence("comment"@, seq!['#', '}'])
        } else {
            self.clear_buffer().skip_comment()
        }
    }

    pub open spec fn assertion_failed(self) -> ErrorView {
        self.fail(ErrorKind::AssertionFailed, "assertion failed"@)
    }

    /// `assert`: fails where its condition is false.
    pub open spec fn parse_assert(self) -> (ParserView, StepView<()>) {
        let (s0, space) = self.bypass_whitespace_enforce_one();
        if !space {
            failing(s0.unknown_tag())
        } else {
            let (s1, r1) = s0.clear_buffer().parse_result("assert"@);
            match r1 {
                Err(e) => (s1, Err(e)),
                Ok(condition) => {
                    let (s2, r2) = s1.clear_buffer().bypass_whitespace().expect_end_of_self_close_tag(
                        "assert"@,
                    );
                    match r2 {
                        Err(e) => (s2, Err(e)),
                        Ok(_) => if condition.evaluation {
                            (s2, Ok(()))
                        } else {
                            (s2, Err(Err(s2.assertion_failed())))
                        },
                    }
                },
            }
        }
    }

    /// `count`: writes how many values a name holds.
    pub open spec fn parse_count(self) -> (ParserView, StepView<()>) {
        let (s0, space) = self.bypass_whitespace_enforce_one();
        if !space {
            failing(s0.unknown_tag())
        } else {
            let (s1, r1) = s0.clear_buffer().parse_variable_name("count"@);
            match r1 {
                Err(e) => (s1, Err(e)),
                Ok(alias) => {
                    let (s2, r2) = s1.expect_end_of_self_close_tag("count"@);
                    match r2 {
                        Err(e) => (s2, Err(e)),
                        Ok(_) => (
                            s2.write_str(nat_text(s1.context.stack(alias).len())).flush(),
                            Ok(()),
                        ),
                    }
                },
            }
        }
    }

    /// `length`: writes how many bytes the UTF-8 form of a value has.
    pub open spec fn parse_length(self) -> (ParserView, StepView<()>) {
        let (s0, space) = self.bypass_whitespace_enforce_one();
        if !space {
            failing(s0.unknown_tag())
        } else {
            let (s1, r1) = s0.clear_buffer().parse_value("length"@);
            match r1 {
                Err(e) => (s1, Err(e)),
                Ok(value) => {
                    let text = match value {
                        Some(v) => v,
                        None => Seq::empty(),
                    };
                    let (s2, r2) = s1.expect_end_of_self_close_tag("length"@);
                    match r2 {
                        Err(e) => (s2, Err(e)),
                        Ok(_) => (s2.write_str(nat_text(encode_utf8(text).len())).flush(), Ok(())),
                    }
                },
            }
        }
    }

    pub open spec fn no_path(self, message: Seq<char>) -> ErrorView {
        self.fail(ErrorKind::MissingValue, message)
    }

    /// `extend`: notes the template that this one extends.
    pub open spec fn parse_extend_tag(self) -> (ParserView, StepView<()>) {
        let (s0, space) = self.bypass_whitespace_enforce_one();
        if !space {
            failing(s0.unknown_tag())
        } else {
            let (s1, r1) = s0.parse_value_as_path("extend"@);
            match r1 {
                Err(e) => (s1, Err(e)),
                Ok(None) => (s1, Err(Err(s1.no_path("The extended path was None"@)))),
                Ok(Some(path)) => s1.set_extend(path).expect_end_of_self_close_tag("extend"@),
            }
        }
    }

    pub open spec fn cannot_open(self, path: Seq<char>) -> ErrorView {
        self.fail(ErrorKind::IoFailure, "Failed to open file "@ + path)
    }

    pub open spec fn unresolved(self, path: Seq<char>) -> ErrorView {
        self.fail(ErrorKind::UnresolvedPath, path)
    }

    /// Flushes the buffer and copies a file to the content, as it is but
    /// for its line ends.
    pub open spec fn copy_file(self, path: Seq<char>) -> (ParserView, StepView<()>) {
        match self.files.node(path) {
            Known::Unknown => (self, Err(Err(self.unresolved(path)))),
            Known::Known(NodeView::File(bytes)) => {
                let (output, r) = self.output.flush_buffer_and_file(bytes);
                match r {
                    Ok(_) => (self.with_output(output), Ok(())),
                    Err(e) => (self.with_output(output), Err(Err(e.upgrade(self.input)))),
                }
            },
            Known::Known(_) => (self, Err(Err(self.cannot_open(path)))),
        }
    }

    /// `include`: copies a file into the output.
    pub open spec fn parse_include(self) -> (ParserView, StepView<()>) {
        let (s0, space) = self.bypass_whitespace_enforce_one();
        if !space {
            failing(s0.unknown_tag())
        } else {
            let (s1, r1) = s0.clear_buffer().parse_value_as_path("include"@);
            match r1 {
                Err(e) => (s1, Err(e)),
                Ok(None) => (s1, Err(Err(s1.no_path("The included path was None"@)))),
                Ok(Some(path)) => {
                    let (s2, r2) = s1.copy_file(path);
                    match r2 {
                        Err(e) => (s2, Err(e)),
                        Ok(_) => s2.expect_end_of_self_close_tag("include"@),
                    }
                },
            }
        }
    }

    /// The directory that a path tag resolves against: the one behind `in`,
    /// or that of the file being read.
    pub open spec fn path_base(self, name: Seq<char>) -> (ParserView, StepView<Seq<char>>) {
        let s0 = self.bypass_whitespace();
        match s0.tag_current_or_unexpected_eof(name) {
            Err(e) => (s0, Err(e)),
            Ok(c) => if c == 'i' {
                let (s1, r1) = s0.push_step().0.tag_expect_char(name, just('n'));
                match r1 {
                    Err(e) => (s1, Err(e)),
                    Ok(_) => {
                        let (s2, r2) = s1.bypass_whitespace().clear_buffer().parse_value_as_path(
                            name,
                        );
                        match r2 {
                            Err(e) => (s2, Err(e)),
                            Ok(None) => (
                                s2,
                                Err(
                                    Err(
                                        s2.no_path(
                                            "Cannot create an absolute path from a None path"@,
                                        ),
                                    ),
                                ),
                            ),
                            Ok(Some(base)) => (s2, Ok(base)),
                        }
                    },
                }
            } else {
                (s0, Ok(path_directory(s0.input.path)))
            },
        }
    }

    pub open spec fn unresolved_canonical(self, path: Seq<char>) -> ErrorView {
        self.fail(ErrorKind::UnresolvedCanonical, path)
    }

    pub open spec fn cannot_canonicalize(self, path: Seq<char>) -> ErrorView {
        self.fail(ErrorKind::IoFailure, "Failed to canonicalize relative path "@ + path)
    }

    /// The canonical form of a path, as the snapshot has it.
    pub open spec fn canonicalize(self, path: Seq<char>) -> Result<Seq<char>, ErrorView> {
        match self.files.canonical_of(path) {
            Known::Unknown => Err(self.unresolved_canonical(path)),
            Known::Known(None) => Err(self.cannot_canonicalize(path)),
            Known::Known(Some(c)) => Ok(c),
        }
    }

    /// `path`, `dirname` and `basename`: write the canonical form of a path,
    /// its directory or its last component.
    pub open spec fn parse_path_part(self, name: Seq<char>, part: PathPart) -> (ParserView, StepView<()>) {
        let (s0, space) = self.bypass_whitespace_enforce_one();
        if !space {
            failing(s0.unknown_tag())
        } else {
            let (s1, r1) = s0.clear_buffer().parse_value(name);
            match r1 {
                Err(e) => (s1, Err(e)),
                Ok(None) => (
                    s1,
                    Err(Err(s1.no_path("Cannot canonicalize a path from an empty value"@))),
                ),
                Ok(Some(path)) => {
                    let (s2, r2) = s1.path_base(name);
                    match r2 {
                        Err(e) => (s2, Err(e)),
                        Ok(base) => match s2.canonicalize(path_join(base, path)) {
                            Err(e) => (s2, Err(Err(e))),
                            Ok(c) => s2.bypass_whitespace().clear_buffer().write_str(
                                path_part(part, c),
                            ).flush().expect_end_of_self_close_tag(name),
                        },
                    }
                },
            }
        }
    }
}

impl<'f> TemplateParser<'f> {
    pub fn match_name(&mut self, names: &Vec<Vec<char>>, end_tag: bool) -> (r: StepResult<usize>)
        requires
            old(self).wf(),
        ensures
            final(self).wf(),
            agrees(final(self)@, r, old(self)@.match_name(rows(names@), Seq::empty(), end_tag)),
            r is Ok ==> r->Ok_0 < names.len(),
    {
        let mut prefix: Vec<char> = Vec::new();
        loop
            invariant
                self.wf(),
                self@.match_name(rows(names@), prefix@, end_tag) == old(self)@.match_name(
                    rows(names@),
                    Seq::empty(),
                    end_tag,
                ),
            decreases self@.input.remaining(),
        {
            match find_named(names, &prefix) {
                Some(i) => {
                    return Ok(i);
                },
                None => {},
            }
            let c = match self.current() {
                Some(c) => c,
                None => {
                    return self.unexpected_eof_in_tag();
                },
            };
            let ghost before = prefix@;
            prefix.push(c);
            if find_prefixed(names, &prefix) {
                let ghost state = self@;
                self.write_char(c);
                self.step();
                assert(self@ == state.write_char(c).step());
            } else if prefix.len() > 1 {
                return self.unexpected_tag();
            } else if end_tag {
                return self.unknown_end_tag();
            } else {
                return self.unknown_tag();
            }
        }
    }

    pub fn bypass_self_closing(&mut self, name: &str) -> (r: StepResult<()>)
        requires
            old(self).wf(),
        ensures
            final(self).wf(),
            agrees(final(self)@, r, old(self)@.bypass_self_closing(name@)),
    {
        if !self.buffer_whitespace_enforce_one()? {
            return self.unknown_tag();
        }
        self.buffer_all_until_end_of_self_closing_tag(name)?;
        self.flush();
        Ok(())
    }

    fn else_allowed(&self) -> (r: bool)
        ensures
            r == self@.else_allowed(),
    {
        match self.parse_until {
            ParseUntil::EndFordir
            | ParseUntil::EndForeach
            | ParseUntil::EndForfile
            | ParseUntil::EndForsplit
            | ParseUntil::EndIf => true,
            _ => false,
        }
    }

    pub fn parse_else(&mut self) -> (r: StepResult<()>)
        requires
            old(self).wf(),
        ensures
            final(self).wf(),
            agrees(final(self)@, r, old(self)@.parse_else()),
    {
        if !self.else_allowed() {
            return self.unexpected_tag();
        }
        if self.bypass() {
            self.expect_end_of_tag_buffer("else")?;
            self.set_end_position(EndPosition::Else);
            self.flush();
            Err(Ok(FlowControl::Break))
        } else {
            self.clear_buffer();
            self.expect_end_of_tag("else")?;
            self.set_end_position(EndPosition::Else);
            Err(Ok(FlowControl::Break))
        }
    }

    /// Reads the end of the block of the given kind.
    pub fn end_block(&mut self, block: Block) -> (r: StepResult<()>)
        requires
            old(self).wf(),
        ensures
            final(self).wf(),
            agrees(final(self)@, r, old(self)@.end_block(block)),
    {
        if self.bypass() {
            let _ = self.bypass_whitespace();
            if self.parse_until() != block.until() {
                return self.unexpected_end_tag();
            }
            self.expect_end_of_end_tag_buffer(block.name())?;
            self.flush();
            self.set_end_position(block.end());
            Err(Ok(FlowControl::Break))
        } else {
            self.clear_buffer();
            let _ = self.bypass_whitespace();
            if self.parse_until() != block.until() {
                return self.unexpected_end_tag();
            }
            self.expect_end_of_end_tag(block.name())?;
            self.set_end_position(block.end());
            Err(Ok(FlowControl::Break))
        }
    }

    pub fn parse_end(&mut self) -> (r: StepResult<()>)
        requires
            old(self).wf(),
        ensures
            final(self).wf(),
            agrees(final(self)@, r, old(self)@.parse_end()),
    {
        if self.parse_until() == ParseUntil::Eof {
            return self.unexpected_end_tag();
        }
        if !self.bypass() {
            self.clear_buffer();
        }
        let _ = self.bypass_whitespace();
        let names = block_table();
        let i = self.match_name(&names, true)?;
        self.end_block(block_of(i))
    }

    pub fn handle_escape(&mut self) -> (r: StepResult<()>)
        requires
            old(self).wf(),
        ensures
            final(self).wf(),
            agrees(final(self)@, r, old(self)@.handle_escape()),
    {
        if self.bypass() {
            match self.current() {
                Some(c) => {
                    self.write_char(c);
                    self.step();
                    self.flush();
                },
                None => {},
            }
            Ok(())
        } else {
            self.clear_buffer();
            match self.current() {
                Some(c) => {
                    if crate::text::is_whitespace(c) {
                        let _ = self.bypass_whitespace();
                    } else {
                        self.write_char(c);
                        self.step();
                        self.flush();
                    }
                },
                None => {},
            }
            Ok(())
        }
    }

    /// Steps over a comment up to and with its end.
    fn skip_comment(&mut self) -> (r: StepResult<()>)
        requires
            old(self).wf(),
        ensures
            final(self).wf(),
            agrees(final(self)@, r, old(self)@.skip_comment()),
    {
        let end: [char; 2] = ['#', '}'];
        assert(end@ =~= seq!['#', '}']);
        loop
            invariant
                self.wf(),
                end@ == seq!['#', '}'],
                self@.skip_comment() == old(self)@.skip_comment(),
            decreases self@.input.remaining(),
        {
            let ghost before = self@;
            let c = match self.current() {
                Some(c) => c,
                None => {
                    return Err(Err(self.fail(ErrorKind::UnexpectedEof, "Unclosed comment")));
                },
            };
            if c == '\\' {
                self.step();
                match self.current() {
                    Some(_) => {},
                    None => {
                        return Err(Err(self.fail(ErrorKind::UnexpectedEof, "Unclosed comment")));
                    },
                }
                self.step();
            } else if self.input().starts_with(end.as_slice()) {
                self.step();
                self.step();
                return Ok(());
            } else {
                self.step();
            }
        }
    }

    pub fn parse_comment(&mut self) -> (r: StepResult<()>)
        requires
            old(self).wf(),
        ensures
            final(self).wf(),
            agrees(final(self)@, r, old(self)@.parse_comment()),
    {
        if self.bypass() {
            let end: [char; 2] = ['#', '}'];
            assert(end@ =~= seq!['#', '}']);
            self.buffer_all_until_sequence("comment", end.as_slice())
        } else {
            self.clear_buffer();
            self.skip_comment()
        }
    }

    pub fn parse_assert(&mut self) -> (r: StepResult<()>)
        requires
            old(self).wf(),
        ensures
            final(self).wf(),
            agrees(final(self)@, r, old(self)@.parse_assert()),
    {
        if !self.bypass_whitespace_enforce_one()? {
            return self.unknown_tag();
        }
        self.clear_buffer();
        let condition = IfParser::parse_result("assert", self)?;
        self.clear_buffer();
        let _ = self.bypass_whitespace();
        self.expect_end_of_self_close_tag("assert")?;
        if !condition.as_evaluation() {
            return Err(Err(self.fail(ErrorKind::AssertionFailed, "assertion failed")));
        }
        Ok(())
    }

    pub fn parse_count(&mut self) -> (r: StepResult<()>)
        requires
            old(self).wf(),
        ensures
            final(self).wf(),
            agrees(final(self)@, r, old(self)@.parse_count()),
    {
        if !self.bypass_whitespace_enforce_one()? {
            return self.unknown_tag();
        }
        self.clear_buffer();
        let alias = self.parse_variable_name("count")?;
        let count = self.context.count(alias.as_str());
        self.expect_end_of_self_close_tag("count")?;
        let text = usize_text(count);
        self.write_str(text.as_str());
        self.flush();
        Ok(())
    }

    pub fn parse_length(&mut self) -> (r: StepResult<()>)
        requires
            old(self).wf(),
        ensures
            final(self).wf(),
            agrees(final(self)@, r, old(self)@.parse_length()),
    {
        if !self.bypass_whitespace_enforce_one()? {
            return self.unknown_tag();
        }
        self.clear_buffer();
        let length = match self.parse_value("length")? {
            Some(v) => v.as_str().as_bytes().len(),
            None => {
                proof {
                    reveal_strlit("");
                    assert(encode_utf8(Seq::<char>::empty()).len() == 0);
                }
                0
            },
        };
        self.expect_end_of_self_close_tag("length")?;
        let text = usize_text(length);
        self.write_str(text.as_str());
        self.flush();
        Ok(())
    }

    pub fn parse_extend_tag(&mut self) -> (r: StepResult<()>)
        requires
            old(self).wf(),
        ensures
            final(self).wf(),
            agrees(final(self)@, r, old(self)@.parse_extend_tag()),
    {
        if !self.bypass_whitespace_enforce_one()? {
            return self.unknown_tag();
        }
        let path = match self.parse_value_as_path("extend")? {
            Some(p) => p,
            None => {
                return Err(
                    Err(self.fail(ErrorKind::MissingValue, "The extended path was None")),
                );
            },
        };
        self.set_extend(path);
        self.expect_end_of_self_close_tag("extend")
    }

    /// Flushes the buffer and copies a file to the content.
    fn copy_file(&mut self, path: &str) -> (r: StepResult<()>)
        requires
            old(self).wf(),
        ensures
            final(self).wf(),
            agrees(final(self)@, r, old(self)@.copy_file(path@)),
    {
        match self.files.node(path) {
            Known::Unknown => Err(Err(self.fail(ErrorKind::UnresolvedPath, path))),
            Known::Known(node) => match node {
                Node::File(bytes) => match self.output.flush_buffer_and_file(bytes) {
                    Ok(_) => Ok(()),
                    Err(e) => {
                        let mut e = e;
                        e.upgrade_from_input(&self.input);
                        Err(Err(e))
                    },
                },
                _ => Err(Err(self.fail2(ErrorKind::IoFailure, "Failed to open file ", path))),
            },
        }
    }

    pub fn parse_include(&mut self) -> (r: StepResult<()>)
        requires
            old(self).wf(),
        ensures
            final(self).wf(),
            agrees(final(self)@, r, old(self)@.parse_include()),
    {
        if !self.bypass_whitespace_enforce_one()? {
            return self.unknown_tag();
        }
        self.clear_buffer();
        let path = match self.parse_value_as_path("include")? {
            Some(p) => p,
            None => {
                return Err(
                    Err(self.fail(ErrorKind::MissingValue, "The included path was None")),
                );
            },
        };
        self.copy_file(path.as_str())?;
        self.expect_end_of_self_close_tag("include")
    }

    /// The directory that a path tag resolves against.
    fn path_base(&mut self, name: &str) -> (r: StepResult<String>)
        requires
            old(self).wf(),
        ensures
            final(self).wf(),
            agrees(final(self)@, r, old(self)@.path_base(name@)),
    {
        let _ = self.bypass_whitespace();
        let c = self.tag_current_or_unexpected_eof(name)?;
        if c == 'i' {
            let _ = self.push_step();
            self.expect(name, 'n')?;
            let _ = self.bypass_whitespace();
            self.clear_buffer();
            match self.parse_value_as_path(name)? {
                Some(base) => Ok(base),
                None => Err(
                    Err(
                        self.fail(
                            ErrorKind::MissingValue,
                            "Cannot create an absolute path from a None path",
                        ),
                    ),
                ),
            }
        } else {
            Ok(directory(self.input.path().as_str()))
        }
    }

    /// The canonical form of a path, as the snapshot has it.
    fn canonicalize(&self, path: &str) -> (r: InternalResult<String>)
        requires
            self.wf(),
        ensures
            crate::error::result_view(r) == self@.canonicalize(path@),
    {
        match self.files.canonical_of(path) {
            Known::Unknown => Err(self.fail(ErrorKind::UnresolvedCanonical, path)),
            Known::Known(None) => Err(
                self.fail2(ErrorKind::IoFailure, "Failed to canonicalize relative path ", path),
            ),
            Known::Known(Some(c)) => Ok(c.clone()),
        }
    }

    fn parse_path_part(&mut self, name: &str, part: PathPart) -> (r: StepResult<()>)
        requires
            old(self).wf(),
        ensures
            final(self).wf(),
            agrees(final(self)@, r, old(self)@.parse_path_part(name@, part)),
    {
        if !self.bypass_whitespace_enforce_one()? {
            return self.unknown_tag();
        }
        self.clear_buffer();
        let path = match self.parse_value(name)? {
            Some(p) => p,
            None => {
                return Err(
                    Err(
                        self.fail(
                            ErrorKind::MissingValue,
                            "Cannot canonicalize a path from an empty value",
                        ),
                    ),
                );
            },
        };
        let base = self.path_base(name)?;
        let joined = join(base.as_str(), path.as_str());
        let canonical = into_step(self.canonicalize(joined.as_str()))?;
        let text = part_of(part, canonical.as_str());
        let _ = self.bypass_whitespace();
        self.clear_buffer();
        self.write_str(text.as_str());
        self.flush();
        self.expect_end_of_self_close_tag(name)
    }

    pub fn parse_path(&mut self) -> (r: StepResult<()>)
        requires
            old(self).wf(),
        ensures
            final(self).wf(),
            agrees(final(self)@, r, old(self)@.parse_path_part("path"@, PathPart::Whole)),
    {
        self.parse_path_part("path", PathPart::Whole)
    }

    pub fn parse_dirname(&mut self) -> (r: StepResult<()>)
        requires
            old(self).wf(),
        ensures
            final(self).wf(),
            agrees(final(self)@, r, old(self)@.parse_path_part("dirname"@, PathPart::Directory)),
    {
        self.parse_path_part("dirname", PathPart::Directory)
    }

    pub fn parse_basename(&mut self) -> (r: StepResult<()>)
        requires
            old(self).wf(),
        ensures
            final(self).wf(),
            agrees(final(self)@, r, old(self)@.parse_path_part("basename"@, PathPart::FileName)),
    {
        self.parse_path_part("basename", PathPart::FileName)
    }
}

} // verus!
