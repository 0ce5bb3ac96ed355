//! The template parser: one value that owns the context, the input and the
//! output of a parse, reads the source character by character and acts on
//! each tag as it closes.

pub mod arith;
pub mod engine;
pub mod if_parser;
pub mod loops;
pub mod spawn;
pub mod steps;
pub mod tags;

use crate::context::{Context, CtxView};
use crate::error::{ErrorKind, ErrorView, InternalError, InternalResult};
use crate::files::{Files, FilesView};
use crate::input::{Input, InputView, TryIntoInput};
use crate::output::{Output, OutputView};
use crate::text::{concat, concat3};
use vstd::prelude::*;

verus! {

/// The token that ends a parse.
#[derive(Clone, Copy, Debug, PartialEq, Eq, Structural)]
pub enum ParseUntil {
    EndAdd,
    EndDiv,
    EndFn,
    EndForeach,
    EndFordir,
    EndForfile,
    EndForsplit,
    EndIf,
    EndMod,
    EndMul,
    EndNth,
    EndPow,
    EndSet,
    EndSub,
    Eof,
    /// The closing bracket of a group inside a condition.
    ConditionEnd,
    /// The end of the tag that holds a condition.
    Eot,
}

/// The token that a parse stopped at.
#[derive(Clone, Copy, Debug, PartialEq, Eq, Structural)]
pub enum EndPosition {
    Add,
    Else,
    Div,
    Fn,
    Foreach,
    Fordir,
    Forfile,
    Forsplit,
    Nth,
    If,
    Mod,
    Mul,
    Pow,
    SetBlock,
    Sub,
    Eof,
}

/// What a step asks of the loop around it, besides failing.
#[derive(Clone, Copy, Debug, PartialEq, Eq, Structural)]
pub enum FlowControl {
    Continue,
    Break,
}

pub type FlowResult = Result<FlowControl, InternalError>;

pub type StepResult<T> = Result<T, FlowResult>;

pub type FlowView = Result<FlowControl, ErrorView>;

pub type StepView<V> = Result<V, FlowView>;

/// The model of a step's result.
pub open spec fn step_view<T: DeepView>(r: StepResult<T>) -> StepView<T::V> {
    match r {
        Ok(v) => Ok(v.deep_view()),
        Err(Ok(flow)) => Err(Ok(flow)),
        Err(Err(e)) => Err(Err(e@)),
    }
}

/// A step that failed for good.
pub open spec fn is_failure<V>(r: StepView<V>) -> bool {
    r is Err && r->Err_0 is Err
}

/// How deep blocks, calls and files may nest in a parse that is started
/// by `TemplateParser::parse` or by a function of `Arcana`: a template that
/// goes deeper fails with `ErrorKind::TooDeep`. A template that includes
/// itself without end fails so, too. `TemplateParser::parse_within` takes a
/// limit of the caller's choice.
pub const MAX_DEPTH: usize = 128;

pub struct TemplateParser<'f> {
    extend: Option<String>,
    context: Context,
    input: Input,
    parse_until: ParseUntil,
    bypass: bool,
    output: Output,
    end_position: Option<EndPosition>,
    files: &'f Files,
}

pub struct ParserView {
    pub extend: Option<Seq<char>>,
    pub context: CtxView,
    pub input: InputView,
    pub parse_until: ParseUntil,
    pub bypass: bool,
    pub output: OutputView,
    pub end_position: Option<EndPosition>,
    pub files: FilesView,
}

pub open spec fn text_view(s: Option<String>) -> Option<Seq<char>> {
    match s {
        Some(t) => Some(t@),
        None => None,
    }
}

impl ParserView {
    pub open spec fn wf(self) -> bool {
        self.input.wf() && self.context.wf()
    }

    /// A parser at the start of `input`, for a whole template.
    pub open spec fn new(
        context: CtxView,
        input: InputView,
        destination: Seq<u8>,
        files: FilesView,
    ) -> ParserView {
        ParserView {
            extend: None,
            context,
            input,
            parse_until: ParseUntil::Eof,
            bypass: false,
            output: OutputView::new(destination),
            end_position: None,
            files,
        }
    }

    /// An error of this parser: it carries the place of the input.
    pub open spec fn fail(self, kind: ErrorKind, message: Seq<char>) -> ErrorView {
        ErrorView::new(kind, message).upgrade(self.input)
    }

    pub open spec fn with_input(self, input: InputView) -> ParserView {
        ParserView { input, ..self }
    }

    pub open spec fn with_output(self, output: OutputView) -> ParserView {
        ParserView { output, ..self }
    }

    pub open spec fn with_context(self, context: CtxView) -> ParserView {
        ParserView { context, ..self }
    }

    pub open spec fn set_end_position(self, end_position: EndPosition) -> ParserView {
        ParserView { end_position: Some(end_position), ..self }
    }

    pub open spec fn set_extend(self, path: Seq<char>) -> ParserView {
        ParserView { extend: Some(path), ..self }
    }
}

/// A step whose result and final state are those of a model, also where
/// it fails.
pub open spec fn agrees<T: DeepView>(
    post: ParserView,
    r: StepResult<T>,
    model: (ParserView, StepView<T::V>),
) -> bool {
    post == model.0 && step_view(r) == model.1
}

impl<'f> View for TemplateParser<'f> {
    type V = ParserView;

    closed spec fn view(&self) -> ParserView {
        ParserView {
            extend: text_view(self.extend),
            context: self.context@,
            input: self.input@,
            parse_until: self.parse_until,
            bypass: self.bypass,
            output: self.output@,
            end_position: self.end_position,
            files: self.files@,
        }
    }
}

impl<'f> TemplateParser<'f> {
    pub closed spec fn wf(&self) -> bool {
        self.input.wf() && self.context.wf() && self.files.wf()
    }

    pub fn bypass(&self) -> (r: bool)
        ensures
            r == self@.bypass,
    {
        self.bypass
    }

    pub fn parse_until(&self) -> (r: ParseUntil)
        ensures
            r == self@.parse_until,
    {
        self.parse_until
    }

    pub fn set_end_position(&mut self, end_position: EndPosition)
        requires
            old(self).wf(),
        ensures
            final(self).wf(),
            final(self)@ == old(self)@.set_end_position(end_position),
    {
        self.end_position = Some(end_position);
    }

    pub fn set_extend(&mut self, path: String)
        requires
            old(self).wf(),
        ensures
            final(self).wf(),
            final(self)@ == old(self)@.set_extend(path@),
    {
        self.extend = Some(path);
    }

    pub fn context(&self) -> (r: InternalResult<&Context>)
        requires
            self.wf(),
        ensures
            r is Ok,
            r->Ok_0.wf(),
            r->Ok_0@ == self@.context,
    {
        Ok(&self.context)
    }

    /// Takes the context out of the parser, which keeps an empty one.
    pub fn take_context(&mut self) -> (r: InternalResult<Context>)
        requires
            old(self).wf(),
        ensures
            final(self).wf(),
            r is Ok,
            r->Ok_0.wf(),
            r->Ok_0@ == old(self)@.context,
            final(self)@ == old(self)@.with_context(CtxView::empty()),
    {
        let mut context = Context::new();
        core::mem::swap(&mut self.context, &mut context);
        Ok(context)
    }

    pub fn input(&self) -> (r: &Input)
        requires
            self.wf(),
        ensures
            r.wf(),
            r@ == self@.input,
    {
        &self.input
    }

    pub fn output(&self) -> (r: &Output)
        ensures
            r@ == self@.output,
    {
        &self.output
    }

    /// Gives up the parser for what it wrote to the destination.
    pub fn into_destination(self) -> (r: Vec<u8>)
        ensures
            r@ == self@.output.destination,
    {
        self.output.into_destination()
    }

    pub fn new_internal<I: TryIntoInput>(
        context: Context,
        into_input: I,
        output: Output,
        parse_until: ParseUntil,
        bypass: bool,
        files: &'f Files,
    ) -> (r: InternalResult<Self>)
        requires
            context.wf(),
            files.wf(),
        ensures
            match r {
                Ok(p) => p.wf() && into_input.input_of(files@) is Ok && p@ == (ParserView {
                    extend: None,
                    context: context@,
                    input: into_input.input_of(files@)->Ok_0,
                    parse_until,
                    bypass,
                    output: output@,
                    end_position: None,
                    files: files@,
                }),
                Err(e) => into_input.input_of(files@) == Err::<InputView, ErrorView>(e@),
            },
    {
        let input = into_input.try_into_input(files)?;
        Ok(
            Self {
                extend: None,
                context,
                input,
                parse_until,
                bypass,
                output,
                end_position: None,
                files,
            },
        )
    }

    /// A parser for a whole template: it reads `into_input`, starts from
    /// `context`, and writes behind what `destination` holds.
    pub fn new<I: TryIntoInput>(
        context: Context,
        into_input: I,
        destination: Vec<u8>,
        files: &'f Files,
    ) -> (r: InternalResult<Self>)
        requires
            context.wf(),
            files.wf(),
        ensures
            match r {
                Ok(p) => p.wf() && into_input.input_of(files@) is Ok && p@ == ParserView::new(
                    context@,
                    into_input.input_of(files@)->Ok_0,
                    destination@,
                    files@,
                ),
                Err(e) => into_input.input_of(files@) == Err::<InputView, ErrorView>(e@),
            },
    {
        Self::new_internal(
            context,
            into_input,
            Output::new(destination),
            ParseUntil::Eof,
            false,
            files,
        )
    }

    /// An error of this parser, placed where its input stands.
    pub fn fail(&self, kind: ErrorKind, message: &str) -> (r: InternalError)
        requires
            self.wf(),
        ensures
            r@ == self@.fail(kind, message@),
    {
        let mut e = InternalError::new(kind, message);
        e.upgrade_from_input(&self.input);
        e
    }

    /// An error whose message is made of two parts.
    pub fn fail2(&self, kind: ErrorKind, a: &str, b: &str) -> (r: InternalError)
        requires
            self.wf(),
        ensures
            r@ == self@.fail(kind, a@ + b@),
    {
        let message = concat(a, b);
        self.fail(kind, message.as_str())
    }

    /// An error whose message is made of three parts.
    pub fn fail3(&self, kind: ErrorKind, a: &str, b: &str, c: &str) -> (r: InternalError)
        requires
            self.wf(),
        ensures
            r@ == self@.fail(kind, a@ + b@ + c@),
    {
        let message = concat3(a, b, c);
        self.fail(kind, message.as_str())
    }
}

impl InternalError {
    /// Gives the error the place at which the parser's input stands, unless
    /// it has a place already.
    pub fn upgrade<'f>(&mut self, parser: &TemplateParser<'f>)
        requires
            parser.wf(),
        ensures
            final(self)@ == old(self)@.upgrade(parser@.input),
    {
        self.upgrade_from_input(&parser.input);
    }
}

} // verus!
