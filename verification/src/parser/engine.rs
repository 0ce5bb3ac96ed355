//! The engine: the loop that reads a template piece by piece, the tags that
//! run a parser inside the parser, and the calls of functions.
//!
//! Blocks, calls and files nest; every parser inside a parser may nest one
//! level less than the one around it, and `MAX_DEPTH` levels are followed.

use crate::context::{Context, CtxView};
use crate::error::{ErrorKind, ErrorView, InternalError, InternalResult};
use crate::input::{Input, InputView};
use crate::output::Output;
use crate::parser::arith::{apply, compute, Operation};
use crate::parser::if_parser::IfParser;
use crate::parser::steps::{into_step, just, texts_step, values_view, values_step};
use crate::parser::tags::{
    failing, nth_index, nth_value, tag_at, tag_names, tag_of, tag_table, Block, Simple, Tag,
    PathPart,
};
use crate::parser::{
    agrees, is_failure, step_view, EndPosition, FlowControl, FlowResult, FlowView, ParseUntil,
    ParserView, StepResult, StepView, TemplateParser, MAX_DEPTH,
};
use crate::text::{i64_text, i64_value, int_text, parse_i64, texts, to_chars, trim, trimmed};
use vstd::prelude::*;

verus! {

impl DeepView for EndPosition {
    type V = EndPosition;

    open spec fn deep_view(&self) -> EndPosition {
        *self
    }
}

/// A parse whose result and final state are those of a model, also where
/// it fails.
pub open spec fn ends<T: DeepView>(
    post: ParserView,
    r: InternalResult<T>,
    model: (ParserView, Result<T::V, ErrorView>),
) -> bool {
    crate::error::result_view(r) == model.1 && post == model.0
}

/// Whether the output holds in `post` what it held in `pre`, the buffer
/// aside: nothing was added to the content or to the destination.
pub open spec fn writes_nothing(pre: ParserView, post: ParserView) -> bool {
    &&& post.output.content == pre.output.content
    &&& post.output.destination == pre.output.destination
}

/// The outcome of a parse as the outcome of a step.
pub open spec fn as_step<V>(x: (ParserView, Result<V, ErrorView>)) -> (ParserView, StepView<V>) {
    match x.1 {
        Ok(v) => (x.0, Ok(v)),
        Err(e) => (x.0, Err(Err(e))),
    }
}

/// The context of a call: that of the caller, where each parameter is
/// unbound and then bound to its argument, if there is one and it has a
/// value.
pub open spec fn bind_arguments(
    context: CtxView,
    names: Seq<Seq<char>>,
    values: Seq<Option<Seq<char>>>,
    path: Seq<char>,
    i: int,
) -> CtxView
    decreases names.len() + 1 - i,
{
    if i < 0 || i >= names.len() {
        context
    } else {
        let removed = context.remove_variable(names[i]);
        let bound = if i < values.len() && values[i] is Some {
            removed.add_variable(names[i], path, values[i]->0)
        } else {
            removed
        };
        bind_arguments(bound, names, values, path, i + 1)
    }
}

/// The message of an arithmetic tag that cannot give a number.
pub open spec fn arithmetic_message(kind: ErrorKind) -> Seq<char> {
    if kind is OverflowInPow {
        "Value produced by 'pow' operation caused an overflow"@
    } else {
        "The operands of an arithmetic tag are out of range"@
    }
}

impl Operation {
    pub open spec fn spec_block(self) -> Block {
        match self {
            Operation::Add => Block::Add,
            Operation::Sub => Block::Sub,
            Operation::Mul => Block::Mul,
            Operation::Div => Block::Div,
            Operation::Mod => Block::Mod,
            Operation::Pow => Block::Pow,
        }
    }

    pub fn block(self) -> (r: Block)
        ensures
            r == self.spec_block(),
    {
        match self {
            Operation::Add => Block::Add,
            Operation::Sub => Block::Sub,
            Operation::Mul => Block::Mul,
            Operation::Div => Block::Div,
            Operation::Mod => Block::Mod,
            Operation::Pow => Block::Pow,
        }
    }
}

impl ParserView {
    // ------------------------------------------------------------------
    // Parsers inside the parser
    // ------------------------------------------------------------------
    /// Captures the text of a block up to its end or its `else`, without
    /// evaluating it. Gives the text, the end included, and the token that
    /// ended it.
    pub open spec fn parse_bypassed(self, depth: nat, parse_until: ParseUntil) -> (
        ParserView,
        Result<(Seq<char>, EndPosition), ErrorView>,
    )
        decreases depth, 20nat,
    {
        if depth == 0 {
            (self, Err(self.too_deep()))
        } else {
            let (child, r) = self.spawn_bypassed(parse_until).parse_internal((depth - 1) as nat);
            match r {
                Err(e) => (self.consume_bypassed(child), Err(e)),
                Ok(_) => {
                    let s = self.consume_bypassed(child);
                    match child.end_position {
                        Some(p) => (s, Ok((child.output.content, p))),
                        None => (s, Err(s.no_end_position())),
                    }
                },
            }
        }
    }

    /// Whether the parser stopped at the end of its block, and not at the
    /// end of the source.
    pub open spec fn closed(self) -> bool {
        self.end_position is Some && self.end_position != Some(EndPosition::Eof)
    }

    pub open spec fn unclosed(self) -> ErrorView {
        self.fail(ErrorKind::UnexpectedEof, "Unexpected EOF in a block that is never closed"@)
    }

    /// Renders the source up to the end of a block into a text of its own.
    /// The block must be closed: a source that ends before the end of the
    /// block fails.
    pub open spec fn parse_child(self, depth: nat, parse_until: ParseUntil) -> (
        ParserView,
        Result<Seq<char>, ErrorView>,
    )
        decreases depth, 20nat,
    {
        if depth == 0 {
            (self, Err(self.too_deep()))
        } else {
            let (child, r) = self.spawn_child(parse_until).parse_internal((depth - 1) as nat);
            let s = self.consume_child(child);
            match r {
                Err(e) => (s, Err(e)),
                Ok(_) => if child.closed() {
                    (s, Ok(child.output.content))
                } else {
                    (s, Err(s.unclosed()))
                },
            }
        }
    }

    /// Renders a captured text into the output, in the context as it is.
    pub open spec fn parse_limited(self, depth: nat, body: Seq<char>, parse_until: ParseUntil) -> (
        ParserView,
        Result<(), ErrorView>,
    )
        decreases depth, 20nat,
    {
        if depth == 0 {
            (self, Err(self.too_deep()))
        } else {
            let (child, r) = self.spawn_limited(body, parse_until).parse_internal(
                (depth - 1) as nat,
            );
            match r {
                Err(e) => (self.consume_limited(child), Err(e)),
                Ok(_) => (self.consume_limited(child), Ok(())),
            }
        }
    }

    /// Renders a captured text into the output, in a context of its own.
    pub open spec fn parse_limited_sealed(
        self,
        depth: nat,
        context: CtxView,
        body: Seq<char>,
        parse_until: ParseUntil,
    ) -> (ParserView, Result<(), ErrorView>)
        decreases depth, 20nat,
    {
        if depth == 0 {
            (self, Err(self.too_deep()))
        } else {
            let (child, r) = self.spawn_limited_sealed(context, body, parse_until).parse_internal(
                (depth - 1) as nat,
            );
            match r {
                Err(e) => (self.consume_limited_sealed(child), Err(e)),
                Ok(_) => (self.consume_limited_sealed(child), Ok(())),
            }
        }
    }

    /// Renders a template file into the output, in a copy of the context.
    pub open spec fn parse_sealed(self, depth: nat, path: Seq<char>) -> (
        ParserView,
        Result<(), ErrorView>,
    )
        decreases depth, 20nat,
    {
        if depth == 0 {
            (self, Err(self.too_deep()))
        } else {
            match self.open(path) {
                Err(e) => (self, Err(e)),
                Ok(input) => {
                    let (child, r) = self.spawn_sealed(input).parse_internal((depth - 1) as nat);
                    match r {
                        Err(e) => (self.consume_sealed(child), Err(e)),
                        Ok(_) => (self.consume_sealed(child), Ok(())),
                    }
                },
            }
        }
    }

    /// Renders a template file into the output, in the context itself.
    pub open spec fn parse_unsealed(self, depth: nat, path: Seq<char>) -> (
        ParserView,
        Result<(), ErrorView>,
    )
        decreases depth, 20nat,
    {
        if depth == 0 {
            (self, Err(self.too_deep()))
        } else {
            match self.open(path) {
                Err(e) => (self, Err(e)),
                Ok(input) => {
                    let (child, r) = self.spawn_unsealed(input).parse_internal((depth - 1) as nat);
                    match r {
                        Err(e) => (self.consume_unsealed(child), Err(e)),
                        Ok(_) => (self.consume_unsealed(child), Ok(())),
                    }
                },
            }
        }
    }

    /// Renders the template that this one extends: what was rendered so far
    /// is its variable `CONTENT`, and is replaced by what it renders.
    pub open spec fn parse_extend(self, depth: nat, path: Seq<char>) -> (
        ParserView,
        Result<(), ErrorView>,
    )
        decreases depth, 20nat,
    {
        if depth == 0 {
            (self, Err(self.too_deep()))
        } else {
            match self.open(path) {
                Err(e) => (self, Err(e)),
                Ok(input) => {
                    let (child, r) = self.spawn_extend(input).parse_internal((depth - 1) as nat);
                    match r {
                        Err(e) => (self.consume_extend(child), Err(e)),
                        Ok(_) => (self.consume_extend(child), Ok(())),
                    }
                },
            }
        }
    }

    // ------------------------------------------------------------------
    // The loop
    // ------------------------------------------------------------------
    /// Reads the source to its end or to the token that ends this parser,
    /// then renders the template being extended, if there is one.
    pub open spec fn parse_internal(self, depth: nat) -> (ParserView, Result<(), ErrorView>)
        decreases depth, 90nat,
    {
        let (s1, r1) = self.parse_pieces(depth);
        match r1 {
            Err(e) => (s1, Err(e)),
            Ok(_) => s1.finish(depth),
        }
    }

    /// What the end of the source asks for.
    pub open spec fn finish(self, depth: nat) -> (ParserView, Result<(), ErrorView>)
        decreases depth, 85nat,
    {
        match self.extend {
            Some(path) => (ParserView { extend: None, ..self }).parse_extend(depth, path),
            None => (self.flush(), Ok(())),
        }
    }

    /// Goes on behind a piece: to the next piece, or out of the loop where
    /// the piece asked to break.
    pub open spec fn after_piece(self, depth: nat, r: StepView<()>, before: nat) -> (
        ParserView,
        Result<(), ErrorView>,
    )
        decreases depth, 80nat, before, 0nat,
    {
        match r {
            Err(Err(e)) => (self, Err(e)),
            Err(Ok(FlowControl::Break)) => (self, Ok(())),
            Err(Ok(FlowControl::Continue)) => if self.input.remaining() < before {
                self.parse_pieces(depth)
            } else {
                (self, Err(self.stalled()))
            },
            Ok(_) => {
                let s = self.set_end_position(EndPosition::Eof);
                if s.input.remaining() < before {
                    s.parse_pieces(depth)
                } else {
                    (s, Err(s.stalled()))
                }
            },
        }
    }

    /// Reads piece by piece: a character that is copied, a backslash, or a
    /// curly bracket, which may open a tag.
    pub open spec fn parse_pieces(self, depth: nat) -> (ParserView, Result<(), ErrorView>)
        decreases depth, 80nat, self.input.remaining(), 1nat,
    {
        match self.input.current() {
            None => (self, Ok(())),
            Some(c) => if c == '{' {
                let (s1, r1) = self.write_char(c).step().parse_bracket(depth);
                s1.after_piece(depth, r1, self.input.remaining())
            } else if c == '\\' {
                let (s1, r1) = self.write_char(c).step().handle_escape();
                s1.after_piece(depth, r1, self.input.remaining())
            } else {
                self.write_char(c).step().flush().parse_pieces(depth)
            },
        }
    }

    /// Behind a curly bracket: `{{` opens an output, `{%` a tag, `{#` a
    /// comment; anything else leaves the bracket a character like others.
    pub open spec fn parse_bracket(self, depth: nat) -> (ParserView, StepView<()>)
        decreases depth, 70nat,
    {
        match self.current() {
            None => (self, Err(Ok(FlowControl::Continue))),
            Some(c) => if c == '{' {
                self.push_step().0.parse_output(depth)
            } else if c == '%' {
                self.push_step().0.parse_tag(depth)
            } else if c == '#' {
                self.push_step().0.parse_comment()
            } else {
                (self.flush(), Ok(()))
            },
        }
    }

    pub open spec fn unknown_function(self, name: Seq<char>) -> ErrorView {
        self.fail(ErrorKind::UnknownFunction, "Function '"@ + name + "' never defined"@)
    }

    /// Calls a function: its body is rendered in a copy of the context in
    /// which its parameters hold the arguments.
    pub open spec fn call_function(self, depth: nat, alias: Seq<char>) -> (ParserView, StepView<()>)
        decreases depth, 55nat,
    {
        match self.context.function(alias) {
            None => (self, Err(Err(self.unknown_function(alias)))),
            Some(f) => {
                let (s1, r1) = self.parse_function_arg_values("exec"@);
                match r1 {
                    Err(e) => (s1, Err(e)),
                    Ok(values) => as_step(
                        s1.flush().parse_limited_sealed(
                            depth,
                            bind_arguments(s1.context, f.args, values, s1.input.path, 0),
                            f.body,
                            ParseUntil::EndFn,
                        ),
                    ),
                }
            },
        }
    }

    /// The value of a name, as it is written out.
    pub open spec fn shown(self, alias: Seq<char>) -> Seq<char> {
        match self.context.value(alias) {
            Some(v) => v,
            None => Seq::empty(),
        }
    }

    /// `{{ name }}` writes the value of a name, `{{ name(..) }}` what a
    /// function renders.
    pub open spec fn parse_output(self, depth: nat) -> (ParserView, StepView<()>)
        decreases depth, 60nat,
    {
        if self.bypass {
            let (s1, r1) = self.buffer_whitespace().buffer_all_until_sequence(
                "output"@,
                seq!['}', '}'],
            );
            match r1 {
                Err(e) => (s1, Err(e)),
                Ok(_) => (s1.flush(), Ok(())),
            }
        } else {
            let (s1, r1) = self.clear_buffer().bypass_whitespace().parse_variable_name("output"@);
            match r1 {
                Err(e) => (s1, Err(e)),
                Ok(alias) => {
                    let (s2, r2) = s1.bypass_whitespace().current_or_unexpected_eof_in_tag();
                    match r2 {
                        Err(e) => (s2, Err(e)),
                        Ok(c) => {
                            let (s3, r3) = if c == '(' {
                                s2.call_function(depth, alias)
                            } else {
                                (s2.write_str(s2.shown(alias)).flush(), Ok(()))
                            };
                            match r3 {
                                Err(e) => (s3, Err(e)),
                                Ok(_) => s3.bypass_whitespace().output_end(),
                            }
                        },
                    }
                },
            }
        }
    }

    /// The closing `}}` of an output.
    pub open spec fn output_end(self) -> (ParserView, StepView<()>) {
        let (s1, r1) = self.tag_expect_char("output"@, just('}'));
        match r1 {
            Err(e) => (s1, Err(e)),
            Ok(_) => s1.tag_expect_char("output"@, just('}')),
        }
    }

    /// A tag: its name, read character by character, decides what follows.
    pub open spec fn parse_tag(self, depth: nat) -> (ParserView, StepView<()>)
        decreases depth, 60nat,
    {
        let s0 = if self.bypass {
            self
        } else {
            self.clear_buffer()
        }.buffer_whitespace();
        let (s1, r1) = s0.match_name(tag_names(), Seq::empty(), false);
        match r1 {
            Err(e) => (s1, Err(e)),
            Ok(i) => s1.dispatch(depth, tag_at(i as int)),
        }
    }

    pub open spec fn dispatch(self, depth: nat, tag: Tag) -> (ParserView, StepView<()>)
        decreases depth, 50nat,
    {
        match tag {
            Tag::End => self.parse_end(),
            Tag::Else => self.parse_else(),
            Tag::Open(block) => if self.bypass {
                self.bypass_block(depth, block)
            } else {
                self.parse_block(depth, block)
            },
            Tag::Closed(simple) => if self.bypass {
                self.bypass_self_closing(simple.spec_name())
            } else {
                self.parse_simple(depth, simple)
            },
        }
    }

    /// A self-closing tag that is evaluated.
    pub open spec fn parse_simple(self, depth: nat, simple: Simple) -> (ParserView, StepView<()>)
        decreases depth, 45nat,
    {
        match simple {
            Simple::Assert => self.parse_assert(),
            Simple::Basename => self.parse_path_part("basename"@, PathPart::FileName),
            Simple::Call => self.parse_call(depth),
            Simple::Compile => self.parse_compile(depth),
            Simple::Count => self.parse_count(),
            Simple::Dirname => self.parse_path_part("dirname"@, PathPart::Directory),
            Simple::Extend => self.parse_extend_tag(),
            Simple::Include => self.parse_include(),
            Simple::Length => self.parse_length(),
            Simple::Path => self.parse_path_part("path"@, PathPart::Whole),
        }
    }

    /// A block that is evaluated.
    pub open spec fn parse_block(self, depth: nat, block: Block) -> (ParserView, StepView<()>)
        decreases depth, 45nat,
    {
        match block {
            Block::Add => self.parse_arithmetic(depth, Operation::Add),
            Block::Div => self.parse_arithmetic(depth, Operation::Div),
            Block::Mod => self.parse_arithmetic(depth, Operation::Mod),
            Block::Mul => self.parse_arithmetic(depth, Operation::Mul),
            Block::Pow => self.parse_arithmetic(depth, Operation::Pow),
            Block::Sub => self.parse_arithmetic(depth, Operation::Sub),
            Block::Fn => self.parse_fn(depth),
            Block::Fordir => self.parse_loop_tag(depth, crate::parser::loops::LoopKind::Fordir),
            Block::Foreach => self.parse_loop_tag(depth, crate::parser::loops::LoopKind::Foreach),
            Block::Forfile => self.parse_loop_tag(depth, crate::parser::loops::LoopKind::Forfile),
            Block::Forsplit => self.parse_loop_tag(
                depth,
                crate::parser::loops::LoopKind::Forsplit,
            ),
            Block::If => self.parse_if(depth),
            Block::Nth => self.parse_nth(depth),
            Block::SetBlock => self.parse_set(depth),
        }
    }

    pub open spec fn invalid_end(self, name: Seq<char>) -> ErrorView {
        self.fail(ErrorKind::UnexpectedEof, "Invalid end position in tag '"@ + name + "'"@)
    }

    /// A block that is not evaluated: its text is copied up to its end,
    /// the blocks inside it with it.
    pub open spec fn bypass_block(self, depth: nat, block: Block) -> (ParserView, StepView<()>)
        decreases depth, 40nat,
    {
        let (s1, space) = self.buffer_whitespace_enforce_one();
        if !space {
            if block is If {
                failing(s1.unknown_tag())
            } else {
                failing(s1.unexpected_tag())
            }
        } else {
            let (s2, r2) = s1.buffer_all_until_end_of_tag(block.spec_name());
            match r2 {
                Err(e) => (s2, Err(e)),
                Ok(_) => {
                    let (s3, r3) = s2.flush().capture(depth, block);
                    match r3 {
                        Err(e) => (s3, Err(Err(e))),
                        Ok((content, else_content)) => {
                            let s4 = s3.write_str(content);
                            match else_content {
                                Some(e) => (s4.write_str(e).flush(), Ok(())),
                                None => (s4.flush(), Ok(())),
                            }
                        },
                    }
                },
            }
        }
    }

    /// Captures the body of a block, and what stands behind its `else` if it
    /// has one.
    pub open spec fn capture(self, depth: nat, block: Block) -> (
        ParserView,
        Result<(Seq<char>, Option<Seq<char>>), ErrorView>,
    )
        decreases depth, 25nat,
    {
        let (s1, r1) = self.parse_bypassed(depth, block.spec_until());
        match r1 {
            Err(e) => (s1, Err(e)),
            Ok((content, end_position)) => if end_position is Else && block.spec_allows_else() {
                let (s2, r2) = s1.parse_bypassed(depth, block.spec_until());
                match r2 {
                    Err(e) => (s2, Err(e)),
                    Ok((else_content, _)) => (s2, Ok((content, Some(else_content)))),
                }
            } else if end_position == block.spec_end() {
                (s1, Ok((content, None)))
            } else {
                (s1, Err(s1.invalid_end(block.spec_name())))
            },
        }
    }

    pub open spec fn not_a_number(self) -> ErrorView {
        self.fail(ErrorKind::BadNumber, "Failed to parse content as a number"@)
    }

    /// The number that a rendered text denotes, white space around it aside.
    pub open spec fn number_of(self, text: Seq<char>) -> Result<i64, ErrorView> {
        match i64_value(trimmed(text)) {
            Some(n) => Ok(n),
            None => Err(self.not_a_number()),
        }
    }

    /// An arithmetic tag: the operand in the tag and the number that the
    /// body renders give the number that is written.
    pub open spec fn parse_arithmetic(self, depth: nat, op: Operation) -> (ParserView, StepView<()>)
        decreases depth, 40nat,
    {
        let name = op.spec_block().spec_name();
        let (s0, space) = self.bypass_whitespace_enforce_one();
        if !space {
            failing(s0.unknown_tag())
        } else {
            let (s1, r1) = s0.clear_buffer().parse_value_as_number(name);
            match r1 {
                Err(e) => (s1, Err(e)),
                Ok(value) => {
                    let (s2, r2) = s1.expect_end_of_tag(name);
                    match r2 {
                        Err(e) => (s2, Err(e)),
                        Ok(_) => {
                            let (s3, r3) = s2.parse_child(depth, op.spec_block().spec_until());
                            match r3 {
                                Err(e) => (s3, Err(Err(e))),
                                Ok(text) => s3.write_result(op, value, text),
                            }
                        },
                    }
                },
            }
        }
    }

    /// Writes what an arithmetic tag computes.
    pub open spec fn write_result(self, op: Operation, value: i64, text: Seq<char>) -> (
        ParserView,
        StepView<()>,
    ) {
        match self.number_of(text) {
            Err(e) => (self, Err(Err(e))),
            Ok(content) => match apply(op, value, content) {
                Err(kind) => (self, Err(Err(self.fail(kind, arithmetic_message(kind))))),
                Ok(n) => (self.write_str(int_text(n)).flush(), Ok(())),
            },
        }
    }

    /// `set`: binds a name to what its body renders.
    pub open spec fn parse_set(self, depth: nat) -> (ParserView, StepView<()>)
        decreases depth, 40nat,
    {
        let (s0, space) = self.bypass_whitespace_enforce_one();
        if !space {
            failing(s0.unknown_tag())
        } else {
            let (s1, r1) = s0.clear_buffer().parse_variable_name("set"@);
            match r1 {
                Err(e) => (s1, Err(e)),
                Ok(variable) => {
                    let (s2, r2) = s1.expect_end_of_tag("set"@);
                    match r2 {
                        Err(e) => (s2, Err(e)),
                        Ok(_) => {
                            let (s3, r3) = s2.parse_child(depth, ParseUntil::EndSet);
                            match r3 {
                                Err(e) => (s3, Err(Err(e))),
                                Ok(content) => (
                                    s3.with_context(
                                        s3.context.add_variable(variable, s3.input.path, content),
                                    ),
                                    Ok(()),
                                ),
                            }
                        },
                    }
                },
            }
        }
    }

    /// The name and the parameters of a function being defined.
    pub open spec fn function_head(self) -> (ParserView, StepView<(Seq<char>, Seq<Seq<char>>)>) {
        let (s0, space) = self.bypass_whitespace_enforce_one();
        if !space {
            failing(s0.unknown_tag())
        } else {
            let (s1, r1) = s0.clear_buffer().parse_variable_name("fn"@);
            match r1 {
                Err(e) => (s1, Err(e)),
                Ok(name) => {
                    let (s2, r2) = s1.parse_function_args("fn"@);
                    match r2 {
                        Err(e) => (s2, Err(e)),
                        Ok(args) => {
                            let (s3, r3) = s2.expect_end_of_tag("fn"@);
                            match r3 {
                                Err(e) => (s3, Err(e)),
                                Ok(_) => (s3, Ok((name, args))),
                            }
                        },
                    }
                },
            }
        }
    }

    /// `fn`: defines a function; its body is kept as it is written.
    pub open spec fn parse_fn(self, depth: nat) -> (ParserView, StepView<()>)
        decreases depth, 40nat,
    {
        let (s1, r1) = self.function_head();
        match r1 {
            Err(e) => (s1, Err(e)),
            Ok((name, args)) => {
                let (s2, r2) = s1.parse_bypassed(depth, ParseUntil::EndFn);
                match r2 {
                    Err(e) => (s2, Err(Err(e))),
                    Ok((content, end_position)) => if end_position is Fn {
                        (s2.with_context(s2.context.add_function(name, args, content)), Ok(()))
                    } else {
                        (s2, Err(Err(s2.invalid_end("fn"@))))
                    },
                }
            },
        }
    }

    /// The condition of an `if`, up to the end of the tag.
    pub open spec fn if_head(self) -> (ParserView, StepView<bool>) {
        let (s0, space) = self.bypass_whitespace_enforce_one();
        if !space {
            failing(s0.unknown_tag())
        } else {
            let (s1, r1) = s0.clear_buffer().parse_result("if"@);
            match r1 {
                Err(e) => (s1, Err(e)),
                Ok(condition) => {
                    let (s2, r2) = s1.clear_buffer().bypass_whitespace().expect_end_of_tag("if"@);
                    match r2 {
                        Err(e) => (s2, Err(e)),
                        Ok(_) => (s2, Ok(condition.evaluation)),
                    }
                },
            }
        }
    }

    /// `if`: renders its body where the condition holds, else what stands
    /// behind its `else`, if it has one.
    pub open spec fn parse_if(self, depth: nat) -> (ParserView, StepView<()>)
        decreases depth, 40nat,
    {
        let (s1, r1) = self.if_head();
        match r1 {
            Err(e) => (s1, Err(e)),
            Ok(holds) => {
                let (s2, r2) = s1.capture(depth, Block::If);
                match r2 {
                    Err(e) => (s2, Err(Err(e))),
                    Ok((content, else_content)) => if holds {
                        as_step(s2.parse_limited(depth, content, ParseUntil::EndIf))
                    } else {
                        match else_content {
                            Some(e) => as_step(s2.parse_limited(depth, e, ParseUntil::EndIf)),
                            None => (s2, Ok(())),
                        }
                    },
                }
            },
        }
    }

    pub open spec fn not_an_index(self, text: Seq<char>) -> ErrorView {
        self.fail(ErrorKind::BadNumber, "Content was not an integer:\n"@ + text)
    }

    /// Writes the value of `alias` that the rendered index picks.
    pub open spec fn write_nth(self, alias: Seq<char>, text: Seq<char>) -> (ParserView, StepView<()>) {
        let values = match self.context.values(alias) {
            Some(v) => v,
            None => Seq::empty(),
        };
        if trimmed(text) =~= seq!['-', '0'] {
            (self.write_str(nth_value(values, 0, true)).flush(), Ok(()))
        } else {
            match i64_value(trimmed(text)) {
                Some(i) => (self.write_str(nth_value(values, i as int, false)).flush(), Ok(())),
                None => (self, Err(Err(self.not_an_index(text)))),
            }
        }
    }

    /// `nth`: writes the value of a name that the index in its body picks.
    pub open spec fn parse_nth(self, depth: nat) -> (ParserView, StepView<()>)
        decreases depth, 40nat,
    {
        let (s1, r1) = self.clear_buffer().bypass_whitespace().parse_variable_name("nth"@);
        match r1 {
            Err(e) => (s1, Err(e)),
            Ok(alias) => {
                let (s2, r2) = s1.expect_end_of_tag("nth"@);
                match r2 {
                    Err(e) => (s2, Err(e)),
                    Ok(_) => {
                        let (s3, r3) = s2.parse_child(depth, ParseUntil::EndNth);
                        match r3 {
                            Err(e) => (s3, Err(Err(e))),
                            Ok(text) => s3.write_nth(alias, text),
                        }
                    },
                }
            },
        }
    }

    /// The path of a `call` or a `compile`, up to the end of the tag.
    pub open spec fn template_path(self, name: Seq<char>) -> (ParserView, StepView<Seq<char>>) {
        let (s0, space) = self.clear_buffer().bypass_whitespace_enforce_one();
        if !space {
            failing(s0.unknown_tag())
        } else {
            let (s1, r1) = s0.parse_value_as_path(name);
            match r1 {
                Err(e) => (s1, Err(e)),
                Ok(None) => (s1, Err(Err(s1.no_path("The path of the template was None"@)))),
                Ok(Some(path)) => {
                    let (s2, r2) = s1.expect_end_of_self_close_tag(name);
                    match r2 {
                        Err(e) => (s2, Err(e)),
                        Ok(_) => (s2.flush(), Ok(path)),
                    }
                },
            }
        }
    }

    /// `call`: renders a template file in the context itself.
    pub open spec fn parse_call(self, depth: nat) -> (ParserView, StepView<()>)
        decreases depth, 40nat,
    {
        let (s1, r1) = self.template_path("call"@);
        match r1 {
            Err(e) => (s1, Err(e)),
            Ok(path) => as_step(s1.parse_unsealed(depth, path)),
        }
    }

    /// `compile`: renders a template file in a copy of the context.
    pub open spec fn parse_compile(self, depth: nat) -> (ParserView, StepView<()>)
        decreases depth, 40nat,
    {
        let (s1, r1) = self.template_path("compile"@);
        match r1 {
            Err(e) => (s1, Err(e)),
            Ok(path) => as_step(s1.parse_sealed(depth, path)),
        }
    }

    /// The parser with its destination set aside.
    pub open spec fn held(self) -> ParserView {
        self.with_output(self.output.with_destination(Seq::empty()))
    }

    /// The parser in front of a destination.
    pub open spec fn before(self, destination: Seq<u8>) -> ParserView {
        self.with_output(self.output.with_destination(destination))
    }

    /// A whole parse in which blocks, calls and files nest at most `depth`
    /// deep. The template is rendered with the destination set aside.
    /// Where that succeeds, the content goes behind what the destination
    /// held; where it fails, the destination is as it was.
    pub open spec fn parse_within(self, depth: nat) -> (ParserView, Result<(), ErrorView>) {
        let (s1, r1) = self.held().parse_internal(depth);
        let s2 = s1.before(self.output.destination);
        match r1 {
            Err(e) => (s2, Err(e)),
            Ok(_) => (s2.with_output(s2.output.write_content_to_destination()), Ok(())),
        }
    }

    /// A whole parse, as deep as `MAX_DEPTH` allows.
    pub open spec fn parse(self) -> (ParserView, Result<(), ErrorView>) {
        self.parse_within(MAX_DEPTH as nat)
    }
}

impl<'f> TemplateParser<'f> {
    // ------------------------------------------------------------------
    // Parsers inside the parser
    // ------------------------------------------------------------------
    pub fn parse_bypassed(&mut self, depth: usize, parse_until: ParseUntil) -> (r: InternalResult<
        (String, EndPosition),
    >)
        requires
            old(self).wf(),
        ensures
            final(self).wf(),
            ends(final(self)@, r, old(self)@.parse_bypassed(depth as nat, parse_until)),
        decreases depth, 20nat,
    {
        if depth == 0 {
            return Err(self.too_deep());
        }
        let mut bypassed = self.spawn_bypassed(parse_until);
        match bypassed.parse_internal(depth - 1) {
            Ok(_) => {},
            Err(e) => {
                let _ = self.consume_bypassed(bypassed);
                return Err(e);
            },
        }
        let content = bypassed.output.take_content();
        let end_position = self.consume_bypassed(bypassed)?;
        Ok((content, end_position))
    }

    /// Renders the source up to the end of a block into a text of its own;
    /// a block that the source does not close fails.
    pub fn parse_child(&mut self, depth: usize, parse_until: ParseUntil) -> (r: InternalResult<
        String,
    >)
        requires
            old(self).wf(),
        ensures
            final(self).wf(),
            ends(final(self)@, r, old(self)@.parse_child(depth as nat, parse_until)),
            final(self)@.output == old(self)@.output,
        decreases depth, 20nat,
    {
        if depth == 0 {
            return Err(self.too_deep());
        }
        let mut child = self.spawn_child(Output::new(Vec::new()), parse_until);
        match child.parse_internal(depth - 1) {
            Ok(_) => {},
            Err(e) => {
                let _ = self.consume_child(child);
                return Err(e);
            },
        }
        let closed = match child.end_position {
            Some(EndPosition::Eof) => false,
            Some(_) => true,
            None => false,
        };
        let content = child.output.take_content();
        let _ = self.consume_child(child);
        if !closed {
            return Err(
                self.fail(
                    ErrorKind::UnexpectedEof,
                    "Unexpected EOF in a block that is never closed",
                ),
            );
        }
        Ok(content)
    }

    pub fn parse_limited(&mut self, depth: usize, body: &str, parse_until: ParseUntil) -> (r:
        InternalResult<()>)
        requires
            old(self).wf(),
        ensures
            final(self).wf(),
            ends(final(self)@, r, old(self)@.parse_limited(depth as nat, body@, parse_until)),
        decreases depth, 20nat,
    {
        if depth == 0 {
            return Err(self.too_deep());
        }
        let input = self.limited_input(body);
        let mut limited = self.spawn_limited(input, parse_until);
        match limited.parse_internal(depth - 1) {
            Ok(_) => {},
            Err(e) => {
                self.consume_limited(limited);
                return Err(e);
            },
        }
        self.consume_limited(limited);
        Ok(())
    }

    pub fn parse_limited_sealed(
        &mut self,
        depth: usize,
        context: Context,
        body: &str,
        parse_until: ParseUntil,
    ) -> (r: InternalResult<()>)
        requires
            old(self).wf(),
            context.wf(),
        ensures
            final(self).wf(),
            ends(
                final(self)@,
                r,
                old(self)@.parse_limited_sealed(depth as nat, context@, body@, parse_until),
            ),
        decreases depth, 20nat,
    {
        if depth == 0 {
            return Err(self.too_deep());
        }
        let input = self.limited_input(body);
        let mut limited = self.spawn_limited_sealed(context, input, parse_until);
        match limited.parse_internal(depth - 1) {
            Ok(_) => {},
            Err(e) => {
                self.consume_limited_sealed(limited);
                return Err(e);
            },
        }
        self.consume_limited_sealed(limited);
        Ok(())
    }

    pub fn parse_sealed(&mut self, depth: usize, path: &str) -> (r: InternalResult<()>)
        requires
            old(self).wf(),
        ensures
            final(self).wf(),
            ends(final(self)@, r, old(self)@.parse_sealed(depth as nat, path@)),
        decreases depth, 20nat,
    {
        if depth == 0 {
            return Err(self.too_deep());
        }
        let mut sealed = self.spawn_sealed(path)?;
        match sealed.parse_internal(depth - 1) {
            Ok(_) => {},
            Err(e) => {
                self.consume_sealed(sealed);
                return Err(e);
            },
        }
        self.consume_sealed(sealed);
        Ok(())
    }

    pub fn parse_unsealed(&mut self, depth: usize, file: &str) -> (r: InternalResult<()>)
        requires
            old(self).wf(),
        ensures
            final(self).wf(),
            ends(final(self)@, r, old(self)@.parse_unsealed(depth as nat, file@)),
        decreases depth, 20nat,
    {
        if depth == 0 {
            return Err(self.too_deep());
        }
        let mut unsealed = self.spawn_unsealed(file)?;
        match unsealed.parse_internal(depth - 1) {
            Ok(_) => {},
            Err(e) => {
                self.consume_unsealed(unsealed);
                return Err(e);
            },
        }
        self.consume_unsealed(unsealed);
        Ok(())
    }

    pub fn parse_extend(&mut self, depth: usize, extend: &str) -> (r: InternalResult<()>)
        requires
            old(self).wf(),
        ensures
            final(self).wf(),
            ends(final(self)@, r, old(self)@.parse_extend(depth as nat, extend@)),
        decreases depth, 20nat,
    {
        if depth == 0 {
            return Err(self.too_deep());
        }
        let mut extended = self.spawn_extend(extend)?;
        match extended.parse_internal(depth - 1) {
            Ok(_) => {},
            Err(e) => {
                self.consume_extend(extended);
                return Err(e);
            },
        }
        self.consume_extend(extended);
        Ok(())
    }

    // ------------------------------------------------------------------
    // The loop
    // ------------------------------------------------------------------
    /// Renders the template into the content; the destination is written
    /// by `parse` and `parse_within` alone. Blocks, calls and files may nest
    /// `depth` deep; what goes deeper fails with `ErrorKind::TooDeep`.
    pub fn parse_internal(&mut self, depth: usize) -> (r: InternalResult<()>)
        requires
            old(self).wf(),
        ensures
            final(self).wf(),
            ends(final(self)@, r, old(self)@.parse_internal(depth as nat)),
        decreases depth, 90nat,
    {
        self.parse_pieces(depth)?;
        self.finish(depth)
    }

    /// Does what the end of the source asks for.
    fn finish(&mut self, depth: usize) -> (r: InternalResult<()>)
        requires
            old(self).wf(),
        ensures
            final(self).wf(),
            ends(final(self)@, r, old(self)@.finish(depth as nat)),
        decreases depth, 85nat,
    {
        match self.extend.take() {
            Some(path) => self.parse_extend(depth, path.as_str()),
            None => {
                self.flush();
                Ok(())
            },
        }
    }

    /// Reads piece by piece up to the end of the source or the token that
    /// ends this parser.
    fn parse_pieces(&mut self, depth: usize) -> (r: InternalResult<()>)
        requires
            old(self).wf(),
        ensures
            final(self).wf(),
            ends(final(self)@, r, old(self)@.parse_pieces(depth as nat)),
        decreases depth, 80nat,
    {
        loop
            invariant
                self.wf(),
                self@.parse_pieces(depth as nat) == old(self)@.parse_pieces(depth as nat),
            decreases self@.input.remaining(),
        {
            let ghost start = self@;
            let c = match self.current() {
                Some(c) => c,
                None => {
                    return Ok(());
                },
            };
            if c == '{' {
                self.write_char(c);
                self.step();
                let piece = self.parse_bracket(depth);
                proof {
                    let model = start.write_char(c).step().parse_bracket(depth as nat);
                    assert(start.parse_pieces(depth as nat) == model.0.after_piece(
                        depth as nat,
                        model.1,
                        start.input.remaining(),
                    ));
                    crate::progress::law_pieces_move_on(start, depth as nat);
                }
                match self.after_piece(piece) {
                    Ok(true) => {},
                    Ok(false) => {
                        return Ok(());
                    },
                    Err(e) => {
                        return Err(e);
                    },
                }
            } else if c == '\\' {
                self.write_char(c);
                self.step();
                let piece = self.handle_escape();
                proof {
                    let model = start.write_char(c).step().handle_escape();
                    assert(start.parse_pieces(depth as nat) == model.0.after_piece(
                        depth as nat,
                        model.1,
                        start.input.remaining(),
                    ));
                    crate::progress::law_pieces_move_on(start, depth as nat);
                }
                match self.after_piece(piece) {
                    Ok(true) => {},
                    Ok(false) => {
                        return Ok(());
                    },
                    Err(e) => {
                        return Err(e);
                    },
                }
            } else {
                self.write_char(c);
                self.step();
                self.flush();
            }
        }
    }

    /// Looks at how a piece ended: whether the loop goes on, stops, or
    /// fails.
    fn after_piece(&mut self, piece: StepResult<()>) -> (r: InternalResult<bool>)
        requires
            old(self).wf(),
        ensures
            final(self).wf(),
            match piece {
                Err(Err(e)) => r is Err && r->Err_0@ == e@ && final(self)@ == old(self)@,
                Err(Ok(flow)) => {
                    &&& r == Ok::<bool, InternalError>(flow is Continue)
                    &&& final(self)@ == old(self)@
                },
                Ok(_) => {
                    &&& r == Ok::<bool, InternalError>(true)
                    &&& final(self)@ == old(self)@.set_end_position(EndPosition::Eof)
                },
            },
    {
        match piece {
            Err(Err(e)) => Err(e),
            Err(Ok(FlowControl::Break)) => Ok(false),
            Err(Ok(FlowControl::Continue)) => Ok(true),
            Ok(_) => {
                self.set_end_position(EndPosition::Eof);
                Ok(true)
            },
        }
    }

    pub fn parse_bracket(&mut self, depth: usize) -> (r: StepResult<()>)
        requires
            old(self).wf(),
        ensures
            final(self).wf(),
            agrees(final(self)@, r, old(self)@.parse_bracket(depth as nat)),
        decreases depth, 70nat,
    {
        let c = match self.current() {
            Some(c) => c,
            None => {
                return Err(Ok(FlowControl::Continue));
            },
        };
        if c == '{' {
            let _ = self.push_step();
            self.parse_output(depth)
        } else if c == '%' {
            let _ = self.push_step();
            self.parse_tag(depth)
        } else if c == '#' {
            let _ = self.push_step();
            self.parse_comment()
        } else {
            self.flush();
            Ok(())
        }
    }

    /// The context of a call of `function` with the given arguments.
    fn bind_arguments(
        &self,
        function: &crate::context::Function,
        values: &Vec<Option<String>>,
    ) -> (r: Context)
        requires
            self.wf(),
        ensures
            r.wf(),
            r@ == bind_arguments(
                self@.context,
                function@.args,
                values_view(values@),
                self@.input.path,
                0,
            ),
    {
        let mut context = self.context.duplicate();
        let names = function.args();
        let path = self.input.path();
        let mut i: usize = 0;
        while i < names.len()
            invariant
                i <= names.len(),
                context.wf(),
                texts(names@) == function@.args,
                path@ == self@.input.path,
                bind_arguments(
                    context@,
                    function@.args,
                    values_view(values@),
                    self@.input.path,
                    i as int,
                ) == bind_arguments(
                    self@.context,
                    function@.args,
                    values_view(values@),
                    self@.input.path,
                    0,
                ),
            decreases names.len() - i,
        {
            assert(texts(names@)[i as int] == names@[i as int]@);
            let _ = context.remove_variable(names[i].as_str());
            if i < values.len() {
                assert(values_view(values@)[i as int] == crate::parser::text_view(
                    values@[i as int],
                ));
                match &values[i] {
                    Some(value) => {
                        context.add_variable(names[i].as_str(), path.as_str(), value.as_str());
                    },
                    None => {},
                }
            }
            i += 1;
        }
        context
    }

    /// Calls a function of the context.
    fn call_function(&mut self, depth: usize, alias: &str) -> (r: StepResult<()>)
        requires
            old(self).wf(),
        ensures
            final(self).wf(),
            agrees(final(self)@, r, old(self)@.call_function(depth as nat, alias@)),
        decreases depth, 55nat,
    {
        let function = match self.context.function(alias) {
            Some(f) => f.duplicate(),
            None => {
                return Err(
                    Err(
                        self.fail3(
                            ErrorKind::UnknownFunction,
                            "Function '",
                            alias,
                            "' never defined",
                        ),
                    ),
                );
            },
        };
        let values = self.parse_function_arg_values("exec")?;
        let context = self.bind_arguments(&function, &values);
        self.flush();
        into_step(
            self.parse_limited_sealed(
                depth,
                context,
                function.content().as_str(),
                ParseUntil::EndFn,
            ),
        )
    }

    /// Reads the closing `}}` of an output.
    fn output_end(&mut self) -> (r: StepResult<()>)
        requires
            old(self).wf(),
        ensures
            final(self).wf(),
            agrees(final(self)@, r, old(self)@.output_end()),
    {
        self.expect("output", '}')?;
        self.expect("output", '}')
    }

    pub fn parse_output(&mut self, depth: usize) -> (r: StepResult<()>)
        requires
            old(self).wf(),
        ensures
            final(self).wf(),
            agrees(final(self)@, r, old(self)@.parse_output(depth as nat)),
        decreases depth, 60nat,
    {
        if self.bypass() {
            let _ = self.buffer_whitespace();
            let end: [char; 2] = ['}', '}'];
            assert(end@ =~= seq!['}', '}']);
            self.buffer_all_until_sequence("output", end.as_slice())?;
            self.flush();
            Ok(())
        } else {
            self.clear_buffer();
            let _ = self.bypass_whitespace();
            let alias = self.parse_variable_name("output")?;
            let _ = self.bypass_whitespace();
            let c = self.current_or_unexpected_eof_in_tag()?;
            if c == '(' {
                self.call_function(depth, alias.as_str())?;
            } else {
                let shown = match self.context.value(alias.as_str()) {
                    Some(v) => v.clone(),
                    None => String::new(),
                };
                self.write_str(shown.as_str());
                self.flush();
            }
            let _ = self.bypass_whitespace();
            self.output_end()
        }
    }

    pub fn parse_tag(&mut self, depth: usize) -> (r: StepResult<()>)
        requires
            old(self).wf(),
        ensures
            final(self).wf(),
            agrees(final(self)@, r, old(self)@.parse_tag(depth as nat)),
        decreases depth, 60nat,
    {
        if !self.bypass() {
            self.clear_buffer();
        }
        let _ = self.buffer_whitespace();
        let names = tag_table();
        let i = self.match_name(&names, false)?;
        self.dispatch(depth, tag_of(i))
    }

    /// Goes where the name of a tag leads.
    fn dispatch(&mut self, depth: usize, tag: Tag) -> (r: StepResult<()>)
        requires
            old(self).wf(),
        ensures
            final(self).wf(),
            agrees(final(self)@, r, old(self)@.dispatch(depth as nat, tag)),
        decreases depth, 50nat,
    {
        match tag {
            Tag::End => self.parse_end(),
            Tag::Else => self.parse_else(),
            Tag::Open(block) => {
                if self.bypass() {
                    self.bypass_block(depth, block)
                } else {
                    self.parse_block(depth, block)
                }
            },
            Tag::Closed(simple) => {
                if self.bypass() {
                    self.bypass_self_closing(simple.name())
                } else {
                    self.parse_simple(depth, simple)
                }
            },
        }
    }

    fn parse_simple(&mut self, depth: usize, simple: Simple) -> (r: StepResult<()>)
        requires
            old(self).wf(),
        ensures
            final(self).wf(),
            agrees(final(self)@, r, old(self)@.parse_simple(depth as nat, simple)),
        decreases depth, 45nat,
    {
        match simple {
            Simple::Assert => self.parse_assert(),
            Simple::Basename => self.parse_basename(),
            Simple::Call => self.parse_call(depth),
            Simple::Compile => self.parse_compile(depth),
            Simple::Count => self.parse_count(),
            Simple::Dirname => self.parse_dirname(),
            Simple::Extend => self.parse_extend_tag(),
            Simple::Include => self.parse_include(),
            Simple::Length => self.parse_length(),
            Simple::Path => self.parse_path(),
        }
    }

    fn parse_block(&mut self, depth: usize, block: Block) -> (r: StepResult<()>)
        requires
            old(self).wf(),
        ensures
            final(self).wf(),
            agrees(final(self)@, r, old(self)@.parse_block(depth as nat, block)),
        decreases depth, 45nat,
    {
        match block {
            Block::Add => self.parse_add(depth),
            Block::Div => self.parse_div(depth),
            Block::Mod => self.parse_mod(depth),
            Block::Mul => self.parse_mul(depth),
            Block::Pow => self.parse_pow(depth),
            Block::Sub => self.parse_sub(depth),
            Block::Fn => self.parse_fn(depth),
            Block::Fordir => self.parse_fordir(depth),
            Block::Foreach => self.parse_foreach(depth),
            Block::Forfile => self.parse_forfile(depth),
            Block::Forsplit => self.parse_forsplit(depth),
            Block::If => self.parse_if(depth),
            Block::Nth => self.parse_nth(depth),
            Block::SetBlock => self.parse_set(depth),
        }
    }

    pub fn invalid_end(&self, name: &str) -> (r: InternalError)
        requires
            self.wf(),
        ensures
            r@ == self@.invalid_end(name@),
    {
        self.fail3(ErrorKind::UnexpectedEof, "Invalid end position in tag '", name, "'")
    }

    /// Copies a block that is not evaluated.
    fn bypass_block(&mut self, depth: usize, block: Block) -> (r: StepResult<()>)
        requires
            old(self).wf(),
        ensures
            final(self).wf(),
            agrees(final(self)@, r, old(self)@.bypass_block(depth as nat, block)),
        decreases depth, 40nat,
    {
        if !self.buffer_whitespace_enforce_one()? {
            if block == Block::If {
                return self.unknown_tag();
            } else {
                return self.unexpected_tag();
            }
        }
        self.buffer_all_until_end_of_tag(block.name())?;
        self.flush();
        let (content, else_content) = into_step(self.capture(depth, block))?;
        self.write_str(content.as_str());
        match else_content {
            Some(e) => {
                self.write_str(e.as_str());
            },
            None => {},
        }
        self.flush();
        Ok(())
    }

    /// Captures the body of a block, and what stands behind its `else`.
    pub fn capture(&mut self, depth: usize, block: Block) -> (r: InternalResult<
        (String, Option<String>),
    >)
        requires
            old(self).wf(),
        ensures
            final(self).wf(),
            ends(final(self)@, r, old(self)@.capture(depth as nat, block)),
        decreases depth, 25nat,
    {
        let (content, end_position) = self.parse_bypassed(depth, block.until())?;
        if end_position == EndPosition::Else && block.allows_else() {
            let (else_content, _) = self.parse_bypassed(depth, block.until())?;
            Ok((content, Some(else_content)))
        } else if end_position == block.end() {
            Ok((content, None))
        } else {
            Err(self.invalid_end(block.name()))
        }
    }

    /// Writes what an arithmetic tag computes.
    fn write_result(&mut self, op: Operation, value: i64, text: &str) -> (r: StepResult<()>)
        requires
            old(self).wf(),
        ensures
            final(self).wf(),
            agrees(final(self)@, r, old(self)@.write_result(op, value, text@)),
    {
        let digits = trim(text);
        let content = match parse_i64(&digits) {
            Some(n) => n,
            None => {
                return Err(
                    Err(self.fail(ErrorKind::BadNumber, "Failed to parse content as a number")),
                );
            },
        };
        match compute(op, value, content) {
            Ok(n) => {
                let shown = i64_text(n);
                self.write_str(shown.as_str());
                self.flush();
                Ok(())
            },
            Err(kind) => {
                if kind == ErrorKind::OverflowInPow {
                    Err(
                        Err(
                            self.fail(
                                kind,
                                "Value produced by 'pow' operation caused an overflow",
                            ),
                        ),
                    )
                } else {
                    Err(
                        Err(self.fail(kind, "The operands of an arithmetic tag are out of range")),
                    )
                }
            },
        }
    }

    /// An arithmetic tag. Where it fails, it has written nothing.
    fn parse_arithmetic(&mut self, depth: usize, op: Operation) -> (r: StepResult<()>)
        requires
            old(self).wf(),
        ensures
            final(self).wf(),
            agrees(final(self)@, r, old(self)@.parse_arithmetic(depth as nat, op)),
            is_failure(step_view(r)) ==> writes_nothing(old(self)@, final(self)@),
        decreases depth, 40nat,
    {
        let name = op.block().name();
        proof {
            crate::reading::lemma_operand_reads(old(self)@, name@);
        }
        if !self.bypass_whitespace_enforce_one()? {
            return self.unknown_tag();
        }
        self.clear_buffer();
        let value = self.parse_value_as_number(name)?;
        self.expect_end_of_tag(name)?;
        let text = into_step(self.parse_child(depth, op.block().until()))?;
        self.write_result(op, value, text.as_str())
    }

    pub fn parse_add(&mut self, depth: usize) -> (r: StepResult<()>)
        requires
            old(self).wf(),
        ensures
            final(self).wf(),
            agrees(final(self)@, r, old(self)@.parse_arithmetic(depth as nat, Operation::Add)),
            is_failure(step_view(r)) ==> writes_nothing(old(self)@, final(self)@),
        decreases depth, 41nat,
    {
        self.parse_arithmetic(depth, Operation::Add)
    }

    pub fn parse_sub(&mut self, depth: usize) -> (r: StepResult<()>)
        requires
            old(self).wf(),
        ensures
            final(self).wf(),
            agrees(final(self)@, r, old(self)@.parse_arithmetic(depth as nat, Operation::Sub)),
            is_failure(step_view(r)) ==> writes_nothing(old(self)@, final(self)@),
        decreases depth, 41nat,
    {
        self.parse_arithmetic(depth, Operation::Sub)
    }

    pub fn parse_mul(&mut self, depth: usize) -> (r: StepResult<()>)
        requires
            old(self).wf(),
        ensures
            final(self).wf(),
            agrees(final(self)@, r, old(self)@.parse_arithmetic(depth as nat, Operation::Mul)),
            is_failure(step_view(r)) ==> writes_nothing(old(self)@, final(self)@),
        decreases depth, 41nat,
    {
        self.parse_arithmetic(depth, Operation::Mul)
    }

    pub fn parse_div(&mut self, depth: usize) -> (r: StepResult<()>)
        requires
            old(self).wf(),
        ensures
            final(self).wf(),
            agrees(final(self)@, r, old(self)@.parse_arithmetic(depth as nat, Operation::Div)),
            is_failure(step_view(r)) ==> writes_nothing(old(self)@, final(self)@),
        decreases depth, 41nat,
    {
        self.parse_arithmetic(depth, Operation::Div)
    }

    pub fn parse_mod(&mut self, depth: usize) -> (r: StepResult<()>)
        requires
            old(self).wf(),
        ensures
            final(self).wf(),
            agrees(final(self)@, r, old(self)@.parse_arithmetic(depth as nat, Operation::Mod)),
            is_failure(step_view(r)) ==> writes_nothing(old(self)@, final(self)@),
        decreases depth, 41nat,
    {
        self.parse_arithmetic(depth, Operation::Mod)
    }

    pub fn parse_pow(&mut self, depth: usize) -> (r: StepResult<()>)
        requires
            old(self).wf(),
        ensures
            final(self).wf(),
            agrees(final(self)@, r, old(self)@.parse_arithmetic(depth as nat, Operation::Pow)),
            is_failure(step_view(r)) ==> writes_nothing(old(self)@, final(self)@),
        decreases depth, 41nat,
    {
        self.parse_arithmetic(depth, Operation::Pow)
    }

    /// `set`: binds a name to what its body renders. The tag itself
    /// writes nothing, whether it fails or not.
    pub fn parse_set(&mut self, depth: usize) -> (r: StepResult<()>)
        requires
            old(self).wf(),
        ensures
            final(self).wf(),
            agrees(final(self)@, r, old(self)@.parse_set(depth as nat)),
            r is Ok || is_failure(step_view(r)) ==> writes_nothing(old(self)@, final(self)@),
        decreases depth, 40nat,
    {
        proof {
            crate::reading::lemma_named_head_reads(old(self)@, "set"@);
        }
        if !self.bypass_whitespace_enforce_one()? {
            return self.unknown_tag();
        }
        self.clear_buffer();
        let variable = self.parse_variable_name("set")?;
        self.expect_end_of_tag("set")?;
        let content = into_step(self.parse_child(depth, ParseUntil::EndSet))?;
        let path = self.input.path().clone();
        self.context.add_variable(variable.as_str(), path.as_str(), content.as_str());
        Ok(())
    }

    pub fn parse_fn(&mut self, depth: usize) -> (r: StepResult<()>)
        requires
            old(self).wf(),
        ensures
            final(self).wf(),
            agrees(final(self)@, r, old(self)@.parse_fn(depth as nat)),
        decreases depth, 40nat,
    {
        if !self.bypass_whitespace_enforce_one()? {
            return self.unknown_tag();
        }
        self.clear_buffer();
        let name = self.parse_variable_name("fn")?;
        let args = self.parse_function_args("fn")?;
        self.expect_end_of_tag("fn")?;
        let (content, end_position) = into_step(self.parse_bypassed(depth, ParseUntil::EndFn))?;
        if end_position != EndPosition::Fn {
            return Err(Err(self.invalid_end("fn")));
        }
        self.context.add_function(name, args, content);
        Ok(())
    }

    /// Reads the condition of an `if`, up to the end of the tag.
    fn if_head(&mut self) -> (r: StepResult<bool>)
        requires
            old(self).wf(),
        ensures
            final(self).wf(),
            agrees(final(self)@, r, old(self)@.if_head()),
    {
        if !self.bypass_whitespace_enforce_one()? {
            return self.unknown_tag();
        }
        self.clear_buffer();
        let condition = IfParser::parse_result("if", self)?;
        self.clear_buffer();
        let _ = self.bypass_whitespace();
        self.expect_end_of_tag("if")?;
        Ok(condition.as_evaluation())
    }

    pub fn parse_if(&mut self, depth: usize) -> (r: StepResult<()>)
        requires
            old(self).wf(),
        ensures
            final(self).wf(),
            agrees(final(self)@, r, old(self)@.parse_if(depth as nat)),
        decreases depth, 40nat,
    {
        let holds = self.if_head()?;
        let (content, else_content) = into_step(self.capture(depth, Block::If))?;
        if holds {
            into_step(self.parse_limited(depth, content.as_str(), ParseUntil::EndIf))
        } else {
            match else_content {
                Some(e) => into_step(self.parse_limited(depth, e.as_str(), ParseUntil::EndIf)),
                None => Ok(()),
            }
        }
    }

    /// Writes the value of `alias` that the rendered index picks.
    fn write_nth(&mut self, alias: &str, text: &str) -> (r: StepResult<()>)
        requires
            old(self).wf(),
        ensures
            final(self).wf(),
            agrees(final(self)@, r, old(self)@.write_nth(alias@, text@)),
    {
        let values = match self.context.values(alias) {
            Some(v) => v,
            None => Vec::new(),
        };
        let ghost list = match self@.context.values(alias@) {
            Some(v) => v,
            None => Seq::empty(),
        };
        assert(texts(values@) =~= list);
        let digits = trim(text);
        let negative_zero = digits.len() == 2 && digits[0] == '-' && digits[1] == '0';
        assert(negative_zero == (trimmed(text@) =~= seq!['-', '0']));
        let index: i64 = if negative_zero {
            0
        } else {
            match parse_i64(&digits) {
                Some(i) => i,
                None => {
                    return Err(
                        Err(
                            self.fail2(ErrorKind::BadNumber, "Content was not an integer:\n", text),
                        ),
                    );
                },
            }
        };
        match nth_index(values.len(), index, negative_zero) {
            Some(i) => {
                assert(texts(values@)[i as int] == values@[i as int]@);
                self.write_str(values[i].as_str());
            },
            None => {
                self.write_str("");
                proof {
                    reveal_strlit("");
                    assert(""@ =~= Seq::<char>::empty());
                }
            },
        }
        self.flush();
        Ok(())
    }

    pub fn parse_nth(&mut self, depth: usize) -> (r: StepResult<()>)
        requires
            old(self).wf(),
        ensures
            final(self).wf(),
            agrees(final(self)@, r, old(self)@.parse_nth(depth as nat)),
        decreases depth, 40nat,
    {
        self.clear_buffer();
        let _ = self.bypass_whitespace();
        let alias = self.parse_variable_name("nth")?;
        self.expect_end_of_tag("nth")?;
        let text = into_step(self.parse_child(depth, ParseUntil::EndNth))?;
        self.write_nth(alias.as_str(), text.as_str())
    }

    /// Reads the path of a `call` or a `compile`, up to the end of the tag.
    fn template_path(&mut self, name: &str) -> (r: StepResult<String>)
        requires
            old(self).wf(),
        ensures
            final(self).wf(),
            agrees(final(self)@, r, old(self)@.template_path(name@)),
    {
        self.clear_buffer();
        if !self.bypass_whitespace_enforce_one()? {
            return self.unknown_tag();
        }
        let path = match self.parse_value_as_path(name)? {
            Some(p) => p,
            None => {
                return Err(
                    Err(self.fail(ErrorKind::MissingValue, "The path of the template was None")),
                );
            },
        };
        self.expect_end_of_self_close_tag(name)?;
        self.flush();
        Ok(path)
    }

    pub fn parse_call(&mut self, depth: usize) -> (r: StepResult<()>)
        requires
            old(self).wf(),
        ensures
            final(self).wf(),
            agrees(final(self)@, r, old(self)@.parse_call(depth as nat)),
        decreases depth, 40nat,
    {
        let path = self.template_path("call")?;
        into_step(self.parse_unsealed(depth, path.as_str()))
    }

    pub fn parse_compile(&mut self, depth: usize) -> (r: StepResult<()>)
        requires
            old(self).wf(),
        ensures
            final(self).wf(),
            agrees(final(self)@, r, old(self)@.parse_compile(depth as nat)),
        decreases depth, 40nat,
    {
        let path = self.template_path("compile")?;
        into_step(self.parse_sealed(depth, path.as_str()))
    }

    /// Renders the whole template and writes the content to the
    /// destination, behind what it holds. Nothing reaches the destination
    /// before the whole template is rendered: where the parse fails, the
    /// destination is as it was. Blocks, calls and files may nest as deep
    /// as `MAX_DEPTH`; a template that goes deeper fails with
    /// `ErrorKind::TooDeep`. `parse_within` takes the limit as an argument.
    pub fn parse(&mut self) -> (r: InternalResult<()>)
        requires
            old(self).wf(),
        ensures
            final(self).wf(),
            ends(final(self)@, r, old(self)@.parse()),
            r is Err ==> final(self)@.output.destination == old(self)@.output.destination,
    {
        self.parse_within(MAX_DEPTH)
    }

    /// Renders the whole template as `parse` does, with a limit of the
    /// caller's choice on how deep blocks, calls and files may nest.
    pub fn parse_within(&mut self, depth: usize) -> (r: InternalResult<()>)
        requires
            old(self).wf(),
        ensures
            final(self).wf(),
            ends(final(self)@, r, old(self)@.parse_within(depth as nat)),
            r is Err ==> final(self)@.output.destination == old(self)@.output.destination,
    {
        let destination = self.output.take_destination();
        let r = self.parse_internal(depth);
        self.output.set_destination(destination);
        match r {
            Ok(_) => self.write(),
            Err(e) => Err(e),
        }
    }

    /// Writes the content to the destination.
    pub fn write(&mut self) -> (r: InternalResult<()>)
        requires
            old(self).wf(),
        ensures
            final(self).wf(),
            r is Ok,
            final(self)@ == old(self)@.with_output(
                old(self)@.output.write_content_to_destination(),
            ),
    {
        self.output.write_content_to_destination()
    }
}

} // verus!
