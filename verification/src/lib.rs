//! A text templating engine. A template is text with tags in it; compiling
//! it against a context of variables and functions gives the expanded text.
//!
//! - `{{ name }}` writes a variable, `{{ name(..) }}` what a function
//!   renders; `{# .. #}` is a comment.
//! - `{% set %}`, `{% fn %}`, `{% if %}`, the four loops, the six arithmetic
//!   tags and `{% nth %}` are blocks, closed by `{% /name %}`.
//! - `{% call /%}`, `{% compile /%}`, `{% include /%}`, `{% extend /%}`,
//!   `{% assert /%}`, `{% count /%}`, `{% length /%}` and the three path tags
//!   close themselves.
//! - A backslash outside a tag goes away: with the white space behind it,
//!   or leaving the character behind it a character like others.
//!
//! The engine does no input or output of its own. It reads files from a
//! snapshot, [`files::Files`], and where the snapshot does not say what
//! stands at a path it fails with that path, so that the caller can look,
//! add the answer and compile again.
//!
//! Every function is stated over a model: [`parser::ParserView`] is the
//! state of a parser, and its functions say what each step makes of it.
//! [`laws`] holds what follows for whole templates, [`progress`] that the
//! loops of the engine always move on, [`reading`] that reading the
//! arguments of a tag writes nothing.

pub mod args;
pub mod context;
pub mod error;
pub mod files;
pub mod input;
pub mod laws;
pub mod lemmas;
pub mod output;
pub mod parser;
pub mod path;
pub mod progress;
pub mod reading;
pub mod table;
pub mod text;

pub use context::{Context, Function};
pub use error::{ErrorKind, ErrorPosition, InternalError, InternalResult};
pub use files::{Entry, Files, Node};
pub use input::{FilePath, Input, TryIntoInput};
pub use output::Output;
pub use parser::TemplateParser;

use context::CtxView;
use error::ErrorView;
use files::FilesView;
use input::InputView;
use parser::ParserView;
use vstd::prelude::*;

verus! {

/// What compiling an input gives: the bytes that reach the destination.
pub open spec fn compiled(
    input: Result<InputView, ErrorView>,
    context: CtxView,
    files: FilesView,
) -> Result<Seq<u8>, ErrorView> {
    match input {
        Err(e) => Err(e),
        Ok(i) => {
            let (s, r) = ParserView::new(context, i, Seq::empty(), files).parse();
            match r {
                Ok(_) => Ok(s.output.destination),
                Err(e) => Err(e),
            }
        },
    }
}

/// What a compilation does to its output: it appends what was compiled, or
/// fails and leaves the output as it was.
pub open spec fn appends(
    before: Seq<u8>,
    after: Seq<u8>,
    r: InternalResult<()>,
    model: Result<Seq<u8>, ErrorView>,
) -> bool {
    match r {
        Ok(_) => model is Ok && after == before + model->Ok_0,
        Err(e) => model == Err::<Seq<u8>, ErrorView>(e@) && after == before,
    }
}

/// The compiler.
pub struct Arcana;

impl Arcana {
    /// Compiles a template in a given context and appends the result to
    /// `output`. On failure `output` is as it was. Blocks, calls and files
    /// may nest as deep as [`parser::MAX_DEPTH`]; a template that goes
    /// deeper fails with [`ErrorKind::TooDeep`].
    pub fn compile_with_ctx<I: TryIntoInput>(
        input: I,
        output: &mut Vec<u8>,
        ctx: Context,
        files: &Files,
    ) -> (r: InternalResult<()>)
        requires
            ctx.wf(),
            files.wf(),
        ensures
            appends(
                old(output)@,
                final(output)@,
                r,
                compiled(input.input_of(files@), ctx@, files@),
            ),
    {
        let mut parser = TemplateParser::new(ctx, input, Vec::new(), files)?;
        parser.parse()?;
        let mut rendered = parser.into_destination();
        output.append(&mut rendered);
        Ok(())
    }

    /// Compiles a template in an empty context, with the same limit.
    pub fn compile<I: TryIntoInput>(input: I, output: &mut Vec<u8>, files: &Files) -> (r:
        InternalResult<()>)
        requires
            files.wf(),
        ensures
            appends(
                old(output)@,
                final(output)@,
                r,
                compiled(input.input_of(files@), CtxView::empty(), files@),
            ),
    {
        Self::compile_with_ctx(input, output, Context::new(), files)
    }

    /// Compiles a template file in a given context, with the same limit.
    pub fn compile_file_with_ctx(
        path: &str,
        output: &mut Vec<u8>,
        ctx: Context,
        files: &Files,
    ) -> (r: InternalResult<()>)
        requires
            ctx.wf(),
            files.wf(),
        ensures
            appends(
                old(output)@,
                final(output)@,
                r,
                compiled(input::open_input(path@, files@), ctx@, files@),
            ),
    {
        Self::compile_with_ctx(FilePath::new(path), output, ctx, files)
    }

    /// Compiles a template file in an empty context, with the same limit.
    pub fn compile_file(path: &str, output: &mut Vec<u8>, files: &Files) -> (r: InternalResult<()>)
        requires
            files.wf(),
        ensures
            appends(
                old(output)@,
                final(output)@,
                r,
                compiled(input::open_input(path@, files@), CtxView::empty(), files@),
            ),
    {
        Self::compile_file_with_ctx(path, output, Context::new(), files)
    }
}

} // verus!
