//! Parsers inside parsers. A parser hands its context, its input or its
//! output to a child, lets the child parse, and takes them back as the
//! child left them, also where the child failed:
//!
//! - a *bypassed* child reads on in the same input without evaluating, to
//!   capture the text of a block up to its end;
//! - a *child* reads on in the same input and renders into an output of its
//!   own;
//! - a *limited* child renders a captured text into the parent's output;
//! - a *sealed* child works on a copy of the context, so that its bindings
//!   do not leak; an *unsealed* one works on the context itself.

use crate::context::{Context, CtxView};
use crate::error::{ErrorKind, ErrorView, InternalError, InternalResult};
use crate::input::{open_input, Input, InputView};
use crate::output::{Output, OutputView};
use crate::parser::{EndPosition, ParseUntil, ParserView, TemplateParser};
use vstd::prelude::*;

verus! {

/// The name that the content of an extending template is bound to.
pub open spec fn content_name() -> Seq<char> {
    "CONTENT"@
}

impl ParserView {
    pub open spec fn too_deep(self) -> ErrorView {
        self.fail(ErrorKind::TooDeep, "Templates are nested too deep"@)
    }

    pub open spec fn no_end_position(self) -> ErrorView {
        self.fail(ErrorKind::UnexpectedEof, "End position was None"@)
    }

    /// The input over a file of the snapshot; a failure carries the place
    /// of this parser.
    pub open spec fn open(self, path: Seq<char>) -> Result<InputView, ErrorView> {
        match open_input(path, self.files) {
            Ok(input) => Ok(input),
            Err(e) => Err(e.upgrade(self.input)),
        }
    }

    /// A fresh parser over the parts given.
    pub open spec fn child(
        self,
        context: CtxView,
        input: InputView,
        output: OutputView,
        parse_until: ParseUntil,
        bypass: bool,
    ) -> ParserView {
        ParserView {
            extend: None,
            context,
            input,
            parse_until,
            bypass,
            output,
            end_position: None,
            files: self.files,
        }
    }

    /// What is left of a parser whose context, input and output are with a
    /// child.
    pub open spec fn without(self, context: bool, input: bool, output: bool) -> ParserView {
        ParserView {
            context: if context {
                CtxView::empty()
            } else {
                self.context
            },
            input: if input {
                InputView::start(Seq::empty(), Seq::empty())
            } else {
                self.input
            },
            output: if output {
                OutputView::new(Seq::empty())
            } else {
                self.output
            },
            ..self
        }
    }

    pub open spec fn spawn_bypassed(self, parse_until: ParseUntil) -> ParserView {
        self.child(self.context, self.input, OutputView::new(Seq::empty()), parse_until, true)
    }

    pub open spec fn consume_bypassed(self, child: ParserView) -> ParserView {
        ParserView { context: child.context, input: child.input, ..self }
    }

    pub open spec fn spawn_child(self, parse_until: ParseUntil) -> ParserView {
        self.child(
            self.context,
            self.input,
            OutputView::new(Seq::empty()),
            parse_until,
            self.bypass,
        )
    }

    pub open spec fn consume_child(self, child: ParserView) -> ParserView {
        ParserView { context: child.context, input: child.input, ..self }
    }

    /// The input over a captured text; it belongs to the file being read.
    pub open spec fn limited_input(self, body: Seq<char>) -> InputView {
        InputView::start(Seq::empty(), body).set_path(self.input.path)
    }

    pub open spec fn spawn_limited(self, body: Seq<char>, parse_until: ParseUntil) -> ParserView {
        self.child(self.context, self.limited_input(body), self.output, parse_until, self.bypass)
    }

    pub open spec fn consume_limited(self, child: ParserView) -> ParserView {
        ParserView { context: child.context, output: child.output, ..self }
    }

    pub open spec fn spawn_limited_sealed(
        self,
        context: CtxView,
        body: Seq<char>,
        parse_until: ParseUntil,
    ) -> ParserView {
        self.child(context, self.limited_input(body), self.output, parse_until, self.bypass)
    }

    pub open spec fn consume_limited_sealed(self, child: ParserView) -> ParserView {
        ParserView { output: child.output, ..self }
    }

    pub open spec fn spawn_sealed(self, input: InputView) -> ParserView {
        self.child(self.context, input, self.output, ParseUntil::Eof, self.bypass)
    }

    pub open spec fn consume_sealed(self, child: ParserView) -> ParserView {
        ParserView { output: child.output, ..self }
    }

    pub open spec fn spawn_unsealed(self, input: InputView) -> ParserView {
        self.child(
            self.context,
            input,
            self.output.flush_buffer_to_content(),
            ParseUntil::Eof,
            self.bypass,
        )
    }

    pub open spec fn consume_unsealed(self, child: ParserView) -> ParserView {
        ParserView { context: child.context, output: child.output, ..self }
    }

    /// The child that renders the template being extended: all content so
    /// far becomes the variable `CONTENT`.
    pub open spec fn spawn_extend(self, input: InputView) -> ParserView {
        let flushed = self.output.flush_buffer_to_content();
        self.child(
            self.context.add_variable(content_name(), self.input.path, flushed.content),
            input,
            flushed.take_content(),
            ParseUntil::Eof,
            self.bypass,
        )
    }

    pub open spec fn consume_extend(self, child: ParserView) -> ParserView {
        ParserView {
            context: child.context.remove_variable(content_name()),
            output: child.output,
            ..self
        }
    }
}

impl<'f> TemplateParser<'f> {
    pub fn too_deep(&self) -> (r: InternalError)
        requires
            self.wf(),
        ensures
            r@ == self@.too_deep(),
    {
        self.fail(ErrorKind::TooDeep, "Templates are nested too deep")
    }

    /// The input over a file of the snapshot.
    pub fn open(&self, path: &str) -> (r: InternalResult<Input>)
        requires
            self.wf(),
        ensures
            match r {
                Ok(input) => input.wf() && self@.open(path@) == Ok::<InputView, ErrorView>(input@),
                Err(e) => self@.open(path@) == Err::<InputView, ErrorView>(e@),
            },
    {
        match Input::open(path, self.files) {
            Ok(input) => Ok(input),
            Err(e) => {
                let mut e = e;
                e.upgrade_from_input(&self.input);
                Err(e)
            },
        }
    }

    fn take_own_context(&mut self) -> (r: Context)
        requires
            old(self).wf(),
        ensures
            final(self).wf(),
            r.wf(),
            r@ == old(self)@.context,
            final(self)@ == old(self)@.without(true, false, false),
    {
        let mut context = Context::new();
        core::mem::swap(&mut self.context, &mut context);
        context
    }

    fn take_own_input(&mut self) -> (r: Input)
        requires
            old(self).wf(),
        ensures
            final(self).wf(),
            r.wf(),
            r@ == old(self)@.input,
            final(self)@ == old(self)@.without(false, true, false),
    {
        let mut input = Input::new("", "");
        proof {
            reveal_strlit("");
            assert(""@ =~= Seq::<char>::empty());
        }
        core::mem::swap(&mut self.input, &mut input);
        input
    }

    fn take_own_output(&mut self) -> (r: Output)
        requires
            old(self).wf(),
        ensures
            final(self).wf(),
            r@ == old(self)@.output,
            final(self)@ == old(self)@.without(false, false, true),
    {
        let mut output = Output::new(Vec::new());
        core::mem::swap(&mut self.output, &mut output);
        output
    }

    /// The input over a captured text.
    pub fn limited_input(&self, body: &str) -> (r: Input)
        requires
            self.wf(),
        ensures
            r.wf(),
            r@ == self@.limited_input(body@),
    {
        let mut input = Input::new("", body);
        proof {
            reveal_strlit("");
            assert(""@ =~= Seq::<char>::empty());
        }
        input.set_path(self.input.path().as_str());
        input
    }

    pub fn spawn_bypassed(&mut self, parse_until: ParseUntil) -> (child: TemplateParser<'f>)
        requires
            old(self).wf(),
        ensures
            final(self).wf(),
            child.wf(),
            child@ == old(self)@.spawn_bypassed(parse_until),
            final(self)@ == old(self)@.without(true, true, false),
    {
        let context = self.take_own_context();
        let input = self.take_own_input();
        TemplateParser {
            extend: None,
            context,
            input,
            parse_until,
            bypass: true,
            output: Output::new(Vec::new()),
            end_position: None,
            files: self.files,
        }
    }

    pub fn consume_bypassed(&mut self, bypassed: TemplateParser<'f>) -> (r: InternalResult<
        EndPosition,
    >)
        requires
            old(self).wf(),
            bypassed.wf(),
        ensures
            final(self).wf(),
            final(self)@ == old(self)@.consume_bypassed(bypassed@),
            match r {
                Ok(p) => bypassed@.end_position == Some(p),
                Err(e) => bypassed@.end_position is None && e@ == final(self)@.no_end_position(),
            },
    {
        self.context = bypassed.context;
        self.input = bypassed.input;
        match bypassed.end_position {
            Some(p) => Ok(p),
            None => Err(self.fail(ErrorKind::UnexpectedEof, "End position was None")),
        }
    }

    pub fn spawn_limited(&mut self, input: Input, parse_until: ParseUntil) -> (child:
        TemplateParser<'f>)
        requires
            old(self).wf(),
            input.wf(),
        ensures
            final(self).wf(),
            child.wf(),
            child@ == old(self)@.child(
                old(self)@.context,
                input@,
                old(self)@.output,
                parse_until,
                old(self)@.bypass,
            ),
            final(self)@ == old(self)@.without(true, false, true),
    {
        let context = self.take_own_context();
        let output = self.take_own_output();
        TemplateParser {
            extend: None,
            context,
            input,
            parse_until,
            bypass: self.bypass,
            output,
            end_position: None,
            files: self.files,
        }
    }

    pub fn consume_limited(&mut self, limited: TemplateParser<'f>)
        requires
            old(self).wf(),
            limited.wf(),
        ensures
            final(self).wf(),
            final(self)@ == old(self)@.consume_limited(limited@),
    {
        self.context = limited.context;
        self.output = limited.output;
    }

    pub fn spawn_limited_sealed(
        &mut self,
        context: Context,
        input: Input,
        parse_until: ParseUntil,
    ) -> (child: TemplateParser<'f>)
        requires
            old(self).wf(),
            context.wf(),
            input.wf(),
        ensures
            final(self).wf(),
            child.wf(),
            child@ == old(self)@.child(
                context@,
                input@,
                old(self)@.output,
                parse_until,
                old(self)@.bypass,
            ),
            final(self)@ == old(self)@.without(false, false, true),
    {
        let output = self.take_own_output();
        TemplateParser {
            extend: None,
            context,
            input,
            parse_until,
            bypass: self.bypass,
            output,
            end_position: None,
            files: self.files,
        }
    }

    pub fn consume_limited_sealed(&mut self, limited: TemplateParser<'f>)
        requires
            old(self).wf(),
            limited.wf(),
        ensures
            final(self).wf(),
            final(self)@ == old(self)@.consume_limited_sealed(limited@),
    {
        self.output = limited.output;
    }

    pub fn spawn_child(&mut self, output: Output, parse_until: ParseUntil) -> (child:
        TemplateParser<'f>)
        requires
            old(self).wf(),
        ensures
            final(self).wf(),
            child.wf(),
            child@ == old(self)@.child(
                old(self)@.context,
                old(self)@.input,
                output@,
                parse_until,
                old(self)@.bypass,
            ),
            final(self)@ == old(self)@.without(true, true, false),
    {
        let context = self.take_own_context();
        let input = self.take_own_input();
        TemplateParser {
            extend: None,
            context,
            input,
            parse_until,
            bypass: self.bypass,
            output,
            end_position: None,
            files: self.files,
        }
    }

    pub fn consume_child(&mut self, child: TemplateParser<'f>) -> (output: Output)
        requires
            old(self).wf(),
            child.wf(),
        ensures
            final(self).wf(),
            final(self)@ == old(self)@.consume_child(child@),
            output@ == child@.output,
    {
        self.context = child.context;
        self.input = child.input;
        child.output
    }

    pub fn spawn_sealed(&mut self, path: &str) -> (r: InternalResult<TemplateParser<'f>>)
        requires
            old(self).wf(),
        ensures
            final(self).wf(),
            match r {
                Ok(child) => child.wf() && old(self)@.open(path@) is Ok && child@ == old(
                    self,
                )@.spawn_sealed(old(self)@.open(path@)->Ok_0) && final(self)@ == old(
                    self,
                )@.without(false, false, true),
                Err(e) => old(self)@.open(path@) == Err::<InputView, ErrorView>(e@) && final(self)@
                    == old(self)@,
            },
    {
        let input = self.open(path)?;
        let context = self.context.duplicate();
        let output = self.take_own_output();
        Ok(
            TemplateParser {
                extend: None,
                context,
                input,
                parse_until: ParseUntil::Eof,
                bypass: self.bypass,
                output,
                end_position: None,
                files: self.files,
            },
        )
    }

    pub fn consume_sealed(&mut self, sealed: TemplateParser<'f>)
        requires
            old(self).wf(),
            sealed.wf(),
        ensures
            final(self).wf(),
            final(self)@ == old(self)@.consume_sealed(sealed@),
    {
        self.output = sealed.output;
    }

    pub fn spawn_unsealed(&mut self, file: &str) -> (r: InternalResult<TemplateParser<'f>>)
        requires
            old(self).wf(),
        ensures
            final(self).wf(),
            match r {
                Ok(child) => child.wf() && old(self)@.open(file@) is Ok && child@ == old(
                    self,
                )@.spawn_unsealed(old(self)@.open(file@)->Ok_0) && final(self)@ == old(
                    self,
                )@.without(true, false, true),
                Err(e) => old(self)@.open(file@) == Err::<InputView, ErrorView>(e@) && final(self)@
                    == old(self)@,
            },
    {
        let input = self.open(file)?;
        self.output.flush_buffer_to_content();
        let context = self.take_own_context();
        let output = self.take_own_output();
        Ok(
            TemplateParser {
                extend: None,
                context,
                input,
                parse_until: ParseUntil::Eof,
                bypass: self.bypass,
                output,
                end_position: None,
                files: self.files,
            },
        )
    }

    pub fn consume_unsealed(&mut self, unsealed: TemplateParser<'f>)
        requires
            old(self).wf(),
            unsealed.wf(),
        ensures
            final(self).wf(),
            final(self)@ == old(self)@.consume_unsealed(unsealed@),
    {
        self.context = unsealed.context;
        self.output = unsealed.output;
    }

    pub fn spawn_extend(&mut self, extend: &str) -> (r: InternalResult<TemplateParser<'f>>)
        requires
            old(self).wf(),
        ensures
            final(self).wf(),
            match r {
                Ok(child) => child.wf() && old(self)@.open(extend@) is Ok && child@ == old(
                    self,
                )@.spawn_extend(old(self)@.open(extend@)->Ok_0) && final(self)@ == old(
                    self,
                )@.without(true, false, true),
                Err(e) => old(self)@.open(extend@) == Err::<InputView, ErrorView>(e@) && final(self)@
                    == old(self)@,
            },
    {
        let input = self.open(extend)?;
        self.output.flush_buffer_to_content();
        let content = self.output.take_content();
        self.context.add_variable("CONTENT", self.input.path().as_str(), content.as_str());
        let context = self.take_own_context();
        let output = self.take_own_output();
        Ok(
            TemplateParser {
                extend: None,
                context,
                input,
                parse_until: ParseUntil::Eof,
                bypass: self.bypass,
                output,
                end_position: None,
                files: self.files,
            },
        )
    }

    pub fn consume_extend(&mut self, extend: TemplateParser<'f>)
        requires
            old(self).wf(),
            extend.wf(),
        ensures
            final(self).wf(),
            final(self)@ == old(self)@.consume_extend(extend@),
    {
        self.context = extend.context;
        let _ = self.context.remove_variable("CONTENT");
        self.output = extend.output;
    }
}

} // verus!
