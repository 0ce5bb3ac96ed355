//! The four loops: over the values of a name, over the directories or the
//! files of a directory, and over the pieces of a text.

use crate::context::{Context, CtxView};
use crate::error::{ErrorKind, ErrorView, InternalError, InternalResult};
use crate::files::{Entry, EntryView, Known, Node, NodeView};
use crate::parser::engine::{as_step, ends};
use crate::parser::steps::{into_step, just};
use crate::parser::tags::{failing, Block};
use crate::parser::{
    agrees, step_view, FlowResult, FlowView, ParseUntil, ParserView, StepResult, StepView,
    TemplateParser,
};
use crate::path::{join, path_join};
use crate::text::{
    concat, nat_text, singletons, sort_strings, sort_texts, split, split_chars, split_text,
    texts, to_chars, usize_text,
};
use vstd::prelude::*;

verus! {

/// The kinds of loop.
#[derive(Clone, Copy, Debug, PartialEq, Eq, Structural)]
pub enum LoopKind {
    Foreach,
    Fordir,
    Forfile,
    Forsplit,
}

impl LoopKind {
    pub open spec fn spec_block(self) -> Block {
        match self {
            LoopKind::Foreach => Block::Foreach,
            LoopKind::Fordir => Block::Fordir,
            LoopKind::Forfile => Block::Forfile,
            LoopKind::Forsplit => Block::Forsplit,
        }
    }

    pub fn block(self) -> (r: Block)
        ensures
            r == self.spec_block(),
    {
        match self {
            LoopKind::Foreach => Block::Foreach,
            LoopKind::Fordir => Block::Fordir,
            LoopKind::Forfile => Block::Forfile,
            LoopKind::Forsplit => Block::Forsplit,
        }
    }
}

/// What a loop runs over.
pub enum Source {
    /// The values of a name.
    Values(String),
    /// The directories (`true`) or the files (`false`) of a directory.
    Directory(String, bool),
    /// The pieces of a text that a delimiter separates.
    Split(Option<String>, Option<String>),
}

pub enum SourceView {
    Values(Seq<char>),
    Directory(Seq<char>, bool),
    Split(Option<Seq<char>>, Option<Seq<char>>),
}

impl DeepView for Source {
    type V = SourceView;

    open spec fn deep_view(&self) -> SourceView {
        match self {
            Source::Values(alias) => SourceView::Values(alias@),
            Source::Directory(path, dirs) => SourceView::Directory(path@, *dirs),
            Source::Split(text, delimiter) => SourceView::Split(
                crate::parser::text_view(*text),
                crate::parser::text_view(*delimiter),
            ),
        }
    }
}

/// What may stand behind the source of a loop.
pub struct LoopOptions {
    pub from: Option<i64>,
    pub to: Option<i64>,
    pub loop_variable: Option<String>,
    pub reversed: bool,
}

pub struct OptionsView {
    pub from: Option<i64>,
    pub to: Option<i64>,
    pub loop_variable: Option<Seq<char>>,
    pub reversed: bool,
}

impl DeepView for LoopOptions {
    type V = OptionsView;

    open spec fn deep_view(&self) -> OptionsView {
        OptionsView {
            from: self.from,
            to: self.to,
            loop_variable: crate::parser::text_view(self.loop_variable),
            reversed: self.reversed,
        }
    }
}

/// What every iteration of a loop needs.
pub struct LoopPlan {
    pub variable: String,
    pub loop_variable: Option<String>,
    pub body: String,
    pub until: ParseUntil,
}

pub struct LoopView {
    pub variable: Seq<char>,
    pub loop_variable: Option<Seq<char>>,
    pub body: Seq<char>,
    pub until: ParseUntil,
}

impl View for LoopPlan {
    type V = LoopView;

    open spec fn view(&self) -> LoopView {
        LoopView {
            variable: self.variable@,
            loop_variable: crate::parser::text_view(self.loop_variable),
            body: self.body@,
            until: self.until,
        }
    }
}

/// The bounds of a slice of `len` items: the first index and the index
/// behind the last, as `from` and `to` give them; without them, all items.
pub open spec fn slice_bounds(len: nat, from: Option<i64>, to: Option<i64>) -> (int, int) {
    let low_wanted = match from {
        Some(n) => n as int,
        None => 0,
    };
    let high_wanted = match to {
        Some(n) => n as int,
        None => len as int,
    };
    let low = if low_wanted < 0 {
        0
    } else if low_wanted > len {
        len as int
    } else {
        low_wanted
    };
    let high = if high_wanted < low {
        low
    } else if high_wanted > len {
        len as int
    } else {
        high_wanted
    };
    (low, high)
}

/// The items of a loop in the order in which it runs over them: the slice
/// from `from` up to `to`, turned round where the loop is reversed.
pub open spec fn order_items(items: Seq<Seq<char>>, options: OptionsView) -> Seq<Seq<char>> {
    let (low, high) = slice_bounds(items.len(), options.from, options.to);
    let slice = items.subrange(low, high);
    if options.reversed {
        slice.reverse()
    } else {
        slice
    }
}

/// The names of the entries of a directory that are directories (`dirs`)
/// or files, from index `i` on, in the order of the entries.
pub open spec fn chosen_names(entries: Seq<EntryView>, dirs: bool, i: int) -> Seq<Seq<char>>
    decreases entries.len() + 1 - i,
{
    if i < 0 || i >= entries.len() {
        Seq::empty()
    } else if (dirs && entries[i].is_dir) || (!dirs && entries[i].is_file) {
        seq![entries[i].name] + chosen_names(entries, dirs, i + 1)
    } else {
        chosen_names(entries, dirs, i + 1)
    }
}

/// The paths of the directories or files of a directory, in the order of
/// their names.
pub open spec fn listing(entries: Seq<EntryView>, path: Seq<char>, dirs: bool) -> Seq<Seq<char>> {
    sort_texts(chosen_names(entries, dirs, 0)).map_values(|name: Seq<char>| path_join(path, name))
}

/// The pieces of a value: split at the delimiter, or into its characters
/// where the delimiter is empty or absent; none where the value is absent.
pub open spec fn split_value(text: Option<Seq<char>>, delimiter: Option<Seq<char>>) -> Seq<Seq<char>> {
    match text {
        None => Seq::empty(),
        Some(t) => match delimiter {
            Some(d) => if d.len() > 0 {
                split(t, d)
            } else {
                singletons(t)
            },
            None => singletons(t),
        },
    }
}

pub open spec fn flag(b: bool) -> Seq<char> {
    if b {
        "1"@
    } else {
        "0"@
    }
}

impl CtxView {
    /// The bindings of one iteration: the loop's variable holds the item
    /// and, where the loop has a loop variable, four names under it hold
    /// the index, the number of items, and whether the item is the first
    /// and the last.
    pub open spec fn bind_iteration(
        self,
        lp: LoopView,
        path: Seq<char>,
        item: Seq<char>,
        index: nat,
        size: nat,
    ) -> CtxView {
        let bound = self.add_variable(lp.variable, path, item);
        match lp.loop_variable {
            None => bound,
            Some(lv) => bound.add_variable(lv + ".index"@, path, nat_text(index)).add_variable(
                lv + ".size"@,
                path,
                nat_text(size),
            ).add_variable(lv + ".isfirst"@, path, flag(index == 0)).add_variable(
                lv + ".islast"@,
                path,
                flag(index + 1 == size),
            ),
        }
    }

    /// The context without the bindings of an iteration.
    pub open spec fn unbind_iteration(self, lp: LoopView) -> CtxView {
        match lp.loop_variable {
            None => self.pop_variable(lp.variable),
            Some(lv) => self.pop_variable(lv + ".islast"@).pop_variable(
                lv + ".isfirst"@,
            ).pop_variable(lv + ".size"@).pop_variable(lv + ".index"@).pop_variable(lp.variable),
        }
    }
}

impl ParserView {
    /// Copies the characters of `word` from index `i` on, which must stand
    /// in the source.
    pub open spec fn expect_word(self, name: Seq<char>, word: Seq<char>, i: int) -> (ParserView, StepView<()>)
        decreases word.len() + 1 - i,
    {
        if i < 0 || i >= word.len() {
            (self, Ok(()))
        } else {
            let (s1, r1) = self.tag_expect_buffer_char(name, just(word[i]));
            match r1 {
                Err(e) => (s1, Err(e)),
                Ok(_) => s1.expect_word(name, word, i + 1),
            }
        }
    }

    /// Reads a keyword, if its first character stands in the source: the
    /// rest of it must follow.
    pub open spec fn keyword(self, name: Seq<char>, first: char, rest: Seq<char>) -> (ParserView, StepView<bool>) {
        match self.tag_current_or_unexpected_eof(name) {
            Err(e) => (self, Err(e)),
            Ok(c) => if c == first {
                let (s1, r1) = self.push_step().0.expect_word(name, rest, 0);
                match r1 {
                    Err(e) => (s1, Err(e)),
                    Ok(_) => (s1, Ok(true)),
                }
            } else {
                (self, Ok(false))
            },
        }
    }

    /// Reads a number behind a keyword, if the keyword stands in the
    /// source.
    pub open spec fn option_number(self, name: Seq<char>, first: char, rest: Seq<char>) -> (ParserView, StepView<Option<i64>>) {
        let (s1, r1) = self.keyword(name, first, rest);
        match r1 {
            Err(e) => (s1, Err(e)),
            Ok(false) => (s1, Ok(None)),
            Ok(true) => {
                let (s2, r2) = s1.bypass_whitespace().parse_value_as_number(name);
                match r2 {
                    Err(e) => (s2, Err(e)),
                    Ok(n) => (s2.bypass_whitespace(), Ok(Some(n))),
                }
            },
        }
    }

    /// Reads `as` and the loop variable, if `as` stands in the source.
    pub open spec fn option_loop_variable(self, name: Seq<char>) -> (ParserView, StepView<Option<Seq<char>>>) {
        let (s1, r1) = self.keyword(name, 'a', "s"@);
        match r1 {
            Err(e) => (s1, Err(e)),
            Ok(false) => (s1, Ok(None)),
            Ok(true) => {
                let (s2, r2) = s1.bypass_whitespace().parse_variable_name(name);
                match r2 {
                    Err(e) => (s2, Err(e)),
                    Ok(v) => (s2.bypass_whitespace(), Ok(Some(v))),
                }
            },
        }
    }

    /// Reads `reversed`, if it stands in the source.
    pub open spec fn option_reversed(self, name: Seq<char>) -> (ParserView, StepView<bool>) {
        let (s1, r1) = self.keyword(name, 'r', "eversed"@);
        match r1 {
            Err(e) => (s1, Err(e)),
            Ok(false) => (s1, Ok(false)),
            Ok(true) => (s1.clear_buffer().bypass_whitespace(), Ok(true)),
        }
    }

    /// Reads what stands behind the source of a loop, in this order:
    /// `from n`, `to n`, `as name`, `reversed`, all optional, and the end
    /// of the tag.
    pub open spec fn parse_loop_options(self, name: Seq<char>) -> (ParserView, StepView<OptionsView>) {
        let (s1, r1) = self.option_number(name, 'f', "rom"@);
        match r1 {
            Err(e) => (s1, Err(e)),
            Ok(from) => {
                let (s2, r2) = s1.option_number(name, 't', "o"@);
                match r2 {
                    Err(e) => (s2, Err(e)),
                    Ok(to) => {
                        let (s3, r3) = s2.option_loop_variable(name);
                        match r3 {
                            Err(e) => (s3, Err(e)),
                            Ok(loop_variable) => {
                                let (s4, r4) = s3.option_reversed(name);
                                match r4 {
                                    Err(e) => (s4, Err(e)),
                                    Ok(reversed) => {
                                        let (s5, r5) = s4.expect_end_of_tag(name);
                                        match r5 {
                                            Err(e) => (s5, Err(e)),
                                            Ok(_) => (
                                                s5,
                                                Ok(
                                                    OptionsView {
                                                        from,
                                                        to,
                                                        loop_variable,
                                                        reversed,
                                                    },
                                                ),
                                            ),
                                        }
                                    },
                                }
                            },
                        }
                    },
                }
            },
        }
    }

    pub open spec fn loop_unexpected_char(self, name: Seq<char>) -> ErrorView {
        self.fail(ErrorKind::UnexpectedCharacter, "Unexpected character in '"@ + name + "' tag"@)
    }

    /// Reads the start of a loop: the variable and `in`, white space
    /// around them.
    pub open spec fn loop_head(self, name: Seq<char>) -> (ParserView, StepView<Seq<char>>) {
        let (s0, space) = self.bypass_whitespace_enforce_one();
        if !space {
            failing(s0.unknown_tag())
        } else {
            let (s1, r1) = s0.clear_buffer().parse_variable_name(name);
            match r1 {
                Err(e) => (s1, Err(e)),
                Ok(variable) => {
                    let (s2, space2) = s1.bypass_whitespace_enforce_one();
                    if !space2 {
                        (s2, Err(Err(s2.loop_unexpected_char(name))))
                    } else {
                        let (s3, r3) = s2.tag_expect_char(name, just('i'));
                        match r3 {
                            Err(e) => (s3, Err(e)),
                            Ok(_) => {
                                let (s4, r4) = s3.tag_expect_char(name, just('n'));
                                match r4 {
                                    Err(e) => (s4, Err(e)),
                                    Ok(_) => {
                                        let (s5, space5) = s4.bypass_whitespace_enforce_one();
                                        if !space5 {
                                            (s5, Err(Err(s5.loop_unexpected_char(name))))
                                        } else {
                                            (s5, Ok(variable))
                                        }
                                    },
                                }
                            },
                        }
                    }
                },
            }
        }
    }

    /// Reads the delimiter of a `forsplit`: `on` and a value.
    pub open spec fn split_delimiter(self, name: Seq<char>) -> (ParserView, StepView<Option<Seq<char>>>) {
        let (s1, r1) = self.bypass_whitespace().tag_expect_char(name, just('o'));
        match r1 {
            Err(e) => (s1, Err(e)),
            Ok(_) => {
                let (s2, r2) = s1.tag_expect_char(name, just('n'));
                match r2 {
                    Err(e) => (s2, Err(e)),
                    Ok(_) => {
                        let (s3, r3) = s2.bypass_whitespace().parse_value(name);
                        match r3 {
                            Err(e) => (s3, Err(e)),
                            Ok(delimiter) => (s3.bypass_whitespace(), Ok(delimiter)),
                        }
                    },
                }
            },
        }
    }

    /// Reads what a loop runs over: a name, a path, or a text and its
    /// delimiter.
    pub open spec fn loop_source(self, kind: LoopKind) -> (ParserView, StepView<SourceView>) {
        let name = kind.spec_block().spec_name();
        match kind {
            LoopKind::Foreach => {
                let (s1, r1) = self.parse_variable_name(name);
                match r1 {
                    Err(e) => (s1, Err(e)),
                    Ok(alias) => (s1.bypass_whitespace(), Ok(SourceView::Values(alias))),
                }
            },
            LoopKind::Forsplit => {
                let (s1, r1) = self.parse_value(name);
                match r1 {
                    Err(e) => (s1, Err(e)),
                    Ok(text) => {
                        let (s2, r2) = s1.split_delimiter(name);
                        match r2 {
                            Err(e) => (s2, Err(e)),
                            Ok(delimiter) => (s2, Ok(SourceView::Split(text, delimiter))),
                        }
                    },
                }
            },
            _ => {
                let (s1, r1) = self.parse_value_as_path(name);
                match r1 {
                    Err(e) => (s1, Err(e)),
                    Ok(None) => (
                        s1,
                        Err(Err(s1.no_path("Cannot iterate over the entries of a None path"@))),
                    ),
                    Ok(Some(path)) => (
                        s1.bypass_whitespace(),
                        Ok(SourceView::Directory(path, kind is Fordir)),
                    ),
                }
            },
        }
    }

    pub open spec fn cannot_list(self) -> ErrorView {
        self.fail(ErrorKind::IoFailure, "Failed to read directory"@)
    }

    /// The items of a source, before slicing and ordering.
    pub open spec fn loop_items(self, source: SourceView) -> Result<Seq<Seq<char>>, ErrorView> {
        match source {
            SourceView::Values(alias) => Ok(
                match self.context.values(alias) {
                    Some(v) => v,
                    None => Seq::empty(),
                },
            ),
            SourceView::Directory(path, dirs) => match self.files.node(path) {
                Known::Unknown => Err(self.unresolved(path)),
                Known::Known(NodeView::Directory(entries)) => Ok(listing(entries, path, dirs)),
                Known::Known(_) => Err(self.cannot_list()),
            },
            SourceView::Split(text, delimiter) => Ok(split_value(text, delimiter)),
        }
    }

    /// Reads the tag of a loop. Gives its variable, its loop variable and
    /// the items in the order in which the loop runs over them.
    #[verifier::opaque]
    pub open spec fn loop_tag(self, kind: LoopKind) -> (
        ParserView,
        StepView<(Seq<char>, Option<Seq<char>>, Seq<Seq<char>>)>,
    ) {
        let name = kind.spec_block().spec_name();
        let (s1, r1) = self.loop_head(name);
        match r1 {
            Err(e) => (s1, Err(e)),
            Ok(variable) => {
                let (s2, r2) = s1.loop_source(kind);
                match r2 {
                    Err(e) => (s2, Err(e)),
                    Ok(source) => {
                        let (s3, r3) = s2.parse_loop_options(name);
                        match r3 {
                            Err(e) => (s3, Err(e)),
                            Ok(options) => match s3.loop_items(source) {
                                Err(e) => (s3, Err(Err(e))),
                                Ok(items) => (
                                    s3,
                                    Ok(
                                        (
                                            variable,
                                            options.loop_variable,
                                            order_items(items, options),
                                        ),
                                    ),
                                ),
                            },
                        }
                    },
                }
            },
        }
    }

    pub open spec fn bind_iteration(self, lp: LoopView, item: Seq<char>, index: nat, size: nat) -> ParserView {
        self.with_context(self.context.bind_iteration(lp, self.input.path, item, index, size))
    }

    pub open spec fn unbind_iteration(self, lp: LoopView) -> ParserView {
        self.with_context(self.context.unbind_iteration(lp))
    }

    /// Runs the iterations from index `index` on: each binds its names,
    /// renders the body and takes its names away again.
    pub open spec fn run_items(self, depth: nat, lp: LoopView, items: Seq<Seq<char>>, index: nat) -> (
        ParserView,
        Result<(), ErrorView>,
    )
        decreases depth, 30nat, items.len() - index,
    {
        if index >= items.len() {
            (self, Ok(()))
        } else {
            let (s1, r1) = self.bind_iteration(
                lp,
                items[index as int],
                index,
                items.len(),
            ).parse_limited(depth, lp.body, lp.until);
            match r1 {
                Err(e) => (s1, Err(e)),
                Ok(_) => s1.unbind_iteration(lp).run_items(depth, lp, items, index + 1),
            }
        }
    }

    /// A loop: its body is rendered once for each item; without an item,
    /// what stands behind its `else` is rendered, if it has one.
    pub open spec fn parse_loop_tag(self, depth: nat, kind: LoopKind) -> (ParserView, StepView<()>)
        decreases depth, 40nat,
    {
        let (s1, r1) = self.loop_tag(kind);
        match r1 {
            Err(e) => (s1, Err(e)),
            Ok((variable, loop_variable, items)) => {
                let (s2, r2) = s1.capture(depth, kind.spec_block());
                match r2 {
                    Err(e) => (s2, Err(Err(e))),
                    Ok((content, else_content)) => if items.len() > 0 {
                        as_step(
                            s2.run_items(
                                depth,
                                LoopView {
                                    variable,
                                    loop_variable,
                                    body: content,
                                    until: kind.spec_block().spec_until(),
                                },
                                items,
                                0,
                            ),
                        )
                    } else {
                        match else_content {
                            Some(e) => as_step(
                                s2.parse_limited(depth, e, kind.spec_block().spec_until()),
                            ),
                            None => (s2, Ok(())),
                        }
                    },
                }
            },
        }
    }
}

/// The items of a loop in the order in which it runs over them.
pub fn ordered(items: &Vec<String>, options: &LoopOptions) -> (r: Vec<String>)
    ensures
        texts(r@) == order_items(texts(items@), options.deep_view()),
{
    let len = items.len();
    let low: usize = match options.from {
        Some(n) => {
            if n < 0 {
                0
            } else if (n as u64) > (len as u64) {
                len
            } else {
                n as usize
            }
        },
        None => 0,
    };
    let high: usize = match options.to {
        Some(n) => {
            if n < 0 || (n as u64) < (low as u64) {
                low
            } else if (n as u64) > (len as u64) {
                len
            } else {
                n as usize
            }
        },
        None => len,
    };
    assert((low as int, high as int) == slice_bounds(len as nat, options.from, options.to));
    let ghost slice = texts(items@).subrange(low as int, high as int);
    let mut out: Vec<String> = Vec::new();
    let mut k: usize = 0;
    let count: usize = high - low;
    while k < count
        invariant
            k <= count,
            count == high - low,
            low <= high <= len,
            len == items@.len(),
            out@.len() == k,
            forall|j: int|
                0 <= j < k ==> out@[j]@ == (if options.reversed {
                    items@[high - 1 - j]@
                } else {
                    items@[low + j]@
                }),
        decreases count - k,
    {
        if options.reversed {
            out.push(items[high - 1 - k].clone());
        } else {
            out.push(items[low + k].clone());
        }
        k += 1;
    }
    proof {
        if options.reversed {
            assert(texts(out@) =~= slice.reverse());
        } else {
            assert(texts(out@) =~= slice);
        }
    }
    out
}

/// The names of the entries that are directories (`dirs`) or files.
pub fn choose_names(entries: &Vec<Entry>, dirs: bool) -> (r: Vec<String>)
    ensures
        texts(r@) == chosen_names(crate::files::entries_view(entries@), dirs, 0),
{
    let ghost view = crate::files::entries_view(entries@);
    let mut out: Vec<String> = Vec::new();
    let mut i: usize = 0;
    assert(texts(out@) + chosen_names(view, dirs, 0) =~= chosen_names(view, dirs, 0));
    while i < entries.len()
        invariant
            i <= entries.len(),
            view == crate::files::entries_view(entries@),
            texts(out@) + chosen_names(view, dirs, i as int) == chosen_names(view, dirs, 0),
        decreases entries.len() - i,
    {
        assert(view[i as int] == entries@[i as int]@);
        let entry = &entries[i];
        if (dirs && entry.is_dir) || (!dirs && entry.is_file) {
            let name = entry.name.clone();
            proof {
                crate::text::lemma_texts_push(out@, name);
                assert(texts(out@).push(name@) + chosen_names(view, dirs, i + 1) =~= texts(out@)
                    + (seq![name@] + chosen_names(view, dirs, i + 1)));
            }
            out.push(name);
        }
        i += 1;
    }
    assert(texts(out@) + chosen_names(view, dirs, entries.len() as int) =~= texts(out@));
    out
}

/// The paths of the directories or files of a directory, in the order of
/// their names.
pub fn list_entries(entries: &Vec<Entry>, path: &str, dirs: bool) -> (r: Vec<String>)
    ensures
        texts(r@) == listing(crate::files::entries_view(entries@), path@, dirs),
{
    let names = sort_strings(choose_names(entries, dirs));
    let mut out: Vec<String> = Vec::new();
    let mut i: usize = 0;
    while i < names.len()
        invariant
            i <= names.len(),
            out@.len() == i,
            forall|j: int| 0 <= j < i ==> out@[j]@ == path_join(path@, names@[j]@),
        decreases names.len() - i,
    {
        out.push(join(path, names[i].as_str()));
        i += 1;
    }
    assert(texts(out@) =~= texts(names@).map_values(|name: Seq<char>| path_join(path@, name)));
    out
}

/// The pieces of a value.
pub fn split_pieces(text: &Option<String>, delimiter: &Option<String>) -> (r: Vec<String>)
    ensures
        texts(r@) == split_value(
            crate::parser::text_view(*text),
            crate::parser::text_view(*delimiter),
        ),
{
    match text {
        None => {
            let out: Vec<String> = Vec::new();
            assert(texts(out@) =~= Seq::<Seq<char>>::empty());
            out
        },
        Some(t) => match delimiter {
            Some(d) => {
                if to_chars(d.as_str()).len() > 0 {
                    split_text(t.as_str(), d.as_str())
                } else {
                    split_chars(t.as_str())
                }
            },
            None => split_chars(t.as_str()),
        },
    }
}

/// The parts of the tag of a loop.
pub struct LoopHead {
    pub variable: String,
    pub loop_variable: Option<String>,
    pub items: Vec<String>,
}

/// The model of the parts of the tag of a loop.
pub open spec fn head_step(r: StepResult<LoopHead>) -> StepView<
    (Seq<char>, Option<Seq<char>>, Seq<Seq<char>>),
> {
    match r {
        Ok(head) => Ok(
            (head.variable@, crate::parser::text_view(head.loop_variable), texts(head.items@)),
        ),
        Err(Ok(flow)) => Err(Ok(flow)),
        Err(Err(e)) => Err(Err(e@)),
    }
}

impl<'f> TemplateParser<'f> {
    /// Copies the characters of `word`, which must stand in the source.
    fn expect_word(&mut self, name: &str, word: &str) -> (r: StepResult<()>)
        requires
            old(self).wf(),
        ensures
            final(self).wf(),
            agrees(final(self)@, r, old(self)@.expect_word(name@, word@, 0)),
    {
        let chars = to_chars(word);
        let mut i: usize = 0;
        while i < chars.len()
            invariant
                i <= chars.len(),
                chars@ == word@,
                self.wf(),
                self@.expect_word(name@, word@, i as int) == old(self)@.expect_word(
                    name@,
                    word@,
                    0,
                ),
            decreases chars.len() - i,
        {
            self.expect_buffer(name, chars[i])?;
            i += 1;
        }
        Ok(())
    }

    /// Reads a keyword, if its first character stands in the source.
    fn keyword(&mut self, name: &str, first: char, rest: &str) -> (r: StepResult<bool>)
        requires
            old(self).wf(),
        ensures
            final(self).wf(),
            agrees(final(self)@, r, old(self)@.keyword(name@, first, rest@)),
    {
        let c = self.tag_current_or_unexpected_eof(name)?;
        if c == first {
            let _ = self.push_step();
            self.expect_word(name, rest)?;
            Ok(true)
        } else {
            Ok(false)
        }
    }

    /// Reads a number behind a keyword, if the keyword stands in the source.
    fn option_number(&mut self, name: &str, first: char, rest: &str) -> (r: StepResult<
        Option<i64>,
    >)
        requires
            old(self).wf(),
        ensures
            final(self).wf(),
            agrees(final(self)@, r, old(self)@.option_number(name@, first, rest@)),
    {
        if !self.keyword(name, first, rest)? {
            return Ok(None);
        }
        let _ = self.bypass_whitespace();
        let n = self.parse_value_as_number(name)?;
        let _ = self.bypass_whitespace();
        Ok(Some(n))
    }

    /// Reads `as` and the loop variable, if `as` stands in the source.
    fn option_loop_variable(&mut self, name: &str) -> (r: StepResult<Option<String>>)
        requires
            old(self).wf(),
        ensures
            final(self).wf(),
            agrees(final(self)@, r, old(self)@.option_loop_variable(name@)),
    {
        if !self.keyword(name, 'a', "s")? {
            return Ok(None);
        }
        let _ = self.bypass_whitespace();
        let v = self.parse_variable_name(name)?;
        let _ = self.bypass_whitespace();
        Ok(Some(v))
    }

    /// Reads `reversed`, if it stands in the source.
    fn option_reversed(&mut self, name: &str) -> (r: StepResult<bool>)
        requires
            old(self).wf(),
        ensures
            final(self).wf(),
            agrees(final(self)@, r, old(self)@.option_reversed(name@)),
    {
        if !self.keyword(name, 'r', "eversed")? {
            return Ok(false);
        }
        self.clear_buffer();
        let _ = self.bypass_whitespace();
        Ok(true)
    }

    /// Reads what stands behind the source of a loop, and the end of the
    /// tag.
    pub fn parse_loop_options(&mut self, name: &str) -> (r: StepResult<LoopOptions>)
        requires
            old(self).wf(),
        ensures
            final(self).wf(),
            agrees(final(self)@, r, old(self)@.parse_loop_options(name@)),
    {
        let from = self.option_number(name, 'f', "rom")?;
        let to = self.option_number(name, 't', "o")?;
        let loop_variable = self.option_loop_variable(name)?;
        let reversed = self.option_reversed(name)?;
        self.expect_end_of_tag(name)?;
        Ok(LoopOptions { from, to, loop_variable, reversed })
    }

    fn loop_unexpected_char(&self, name: &str) -> (r: InternalError)
        requires
            self.wf(),
        ensures
            r@ == self@.loop_unexpected_char(name@),
    {
        self.fail3(ErrorKind::UnexpectedCharacter, "Unexpected character in '", name, "' tag")
    }

    /// Reads the start of a loop: the variable and `in`.
    fn loop_head(&mut self, name: &str) -> (r: StepResult<String>)
        requires
            old(self).wf(),
        ensures
            final(self).wf(),
            agrees(final(self)@, r, old(self)@.loop_head(name@)),
    {
        if !self.bypass_whitespace_enforce_one()? {
            return self.unknown_tag();
        }
        self.clear_buffer();
        let variable = self.parse_variable_name(name)?;
        if !self.bypass_whitespace_enforce_one()? {
            return Err(Err(self.loop_unexpected_char(name)));
        }
        self.expect(name, 'i')?;
        self.expect(name, 'n')?;
        if !self.bypass_whitespace_enforce_one()? {
            return Err(Err(self.loop_unexpected_char(name)));
        }
        Ok(variable)
    }

    /// Reads the delimiter of a `forsplit`.
    fn split_delimiter(&mut self, name: &str) -> (r: StepResult<Option<String>>)
        requires
            old(self).wf(),
        ensures
            final(self).wf(),
            agrees(final(self)@, r, old(self)@.split_delimiter(name@)),
    {
        let _ = self.bypass_whitespace();
        self.expect(name, 'o')?;
        self.expect(name, 'n')?;
        let _ = self.bypass_whitespace();
        let delimiter = self.parse_value(name)?;
        let _ = self.bypass_whitespace();
        Ok(delimiter)
    }

    /// Reads what a loop runs over.
    fn loop_source(&mut self, kind: LoopKind) -> (r: StepResult<Source>)
        requires
            old(self).wf(),
        ensures
            final(self).wf(),
            agrees(final(self)@, r, old(self)@.loop_source(kind)),
    {
        let name = kind.block().name();
        match kind {
            LoopKind::Foreach => {
                let alias = self.parse_variable_name(name)?;
                let _ = self.bypass_whitespace();
                Ok(Source::Values(alias))
            },
            LoopKind::Forsplit => {
                let text = self.parse_value(name)?;
                let delimiter = self.split_delimiter(name)?;
                Ok(Source::Split(text, delimiter))
            },
            _ => {
                let path = match self.parse_value_as_path(name)? {
                    Some(p) => p,
                    None => {
                        return Err(
                            Err(
                                self.fail(
                                    ErrorKind::MissingValue,
                                    "Cannot iterate over the entries of a None path",
                                ),
                            ),
                        );
                    },
                };
                let _ = self.bypass_whitespace();
                Ok(Source::Directory(path, kind == LoopKind::Fordir))
            },
        }
    }

    /// The items of a source, before slicing and ordering.
    fn loop_items(&self, source: &Source) -> (r: InternalResult<Vec<String>>)
        requires
            self.wf(),
        ensures
            match r {
                Ok(items) => self@.loop_items(source.deep_view()) == Ok::<
                    Seq<Seq<char>>,
                    ErrorView,
                >(texts(items@)),
                Err(e) => self@.loop_items(source.deep_view()) == Err::<Seq<Seq<char>>, ErrorView>(
                    e@,
                ),
            },
    {
        match source {
            Source::Values(alias) => match self.context.values(alias.as_str()) {
                Some(v) => Ok(v),
                None => {
                    let out: Vec<String> = Vec::new();
                    assert(texts(out@) =~= Seq::<Seq<char>>::empty());
                    Ok(out)
                },
            },
            Source::Directory(path, dirs) => match self.files.node(path.as_str()) {
                Known::Unknown => Err(self.fail(ErrorKind::UnresolvedPath, path.as_str())),
                Known::Known(node) => match node {
                    Node::Directory(entries) => Ok(list_entries(entries, path.as_str(), *dirs)),
                    _ => Err(self.fail(ErrorKind::IoFailure, "Failed to read directory")),
                },
            },
            Source::Split(text, delimiter) => Ok(split_pieces(text, delimiter)),
        }
    }

    /// Reads the tag of a loop.
    fn loop_tag(&mut self, kind: LoopKind) -> (r: StepResult<LoopHead>)
        requires
            old(self).wf(),
        ensures
            final(self).wf(),
            final(self)@ == old(self)@.loop_tag(kind).0,
            head_step(r) == old(self)@.loop_tag(kind).1,
    {
        proof {
            reveal(ParserView::loop_tag);
        }
        let name = kind.block().name();
        let variable = match self.loop_head(name) {
            Ok(v) => v,
            Err(e) => {
                return Err(e);
            },
        };
        let source = match self.loop_source(kind) {
            Ok(s) => s,
            Err(e) => {
                return Err(e);
            },
        };
        let options = match self.parse_loop_options(name) {
            Ok(o) => o,
            Err(e) => {
                return Err(e);
            },
        };
        let items = match self.loop_items(&source) {
            Ok(items) => items,
            Err(e) => {
                return Err(Err(e));
            },
        };
        let items = ordered(&items, &options);
        Ok(LoopHead { variable, loop_variable: options.loop_variable, items })
    }

    /// Binds the names of one iteration.
    fn bind_iteration(&mut self, lp: &LoopPlan, item: &str, index: usize, size: usize)
        requires
            old(self).wf(),
            index < size,
        ensures
            final(self).wf(),
            final(self)@ == old(self)@.bind_iteration(lp@, item@, index as nat, size as nat),
    {
        let path = self.input.path().clone();
        self.context.add_variable(lp.variable.as_str(), path.as_str(), item);
        match &lp.loop_variable {
            Some(lv) => {
                let name = concat(lv.as_str(), ".index");
                let value = usize_text(index);
                self.context.add_variable(name.as_str(), path.as_str(), value.as_str());
                let name = concat(lv.as_str(), ".size");
                let value = usize_text(size);
                self.context.add_variable(name.as_str(), path.as_str(), value.as_str());
                let name = concat(lv.as_str(), ".isfirst");
                let value = if index == 0 {
                    "1"
                } else {
                    "0"
                };
                self.context.add_variable(name.as_str(), path.as_str(), value);
                let name = concat(lv.as_str(), ".islast");
                let value = if index + 1 == size {
                    "1"
                } else {
                    "0"
                };
                self.context.add_variable(name.as_str(), path.as_str(), value);
            },
            None => {},
        }
    }

    /// Takes the names of one iteration away.
    fn unbind_iteration(&mut self, lp: &LoopPlan)
        requires
            old(self).wf(),
        ensures
            final(self).wf(),
            final(self)@ == old(self)@.unbind_iteration(lp@),
    {
        match &lp.loop_variable {
            Some(lv) => {
                let name = concat(lv.as_str(), ".islast");
                let _ = self.context.pop_variable(name.as_str());
                let name = concat(lv.as_str(), ".isfirst");
                let _ = self.context.pop_variable(name.as_str());
                let name = concat(lv.as_str(), ".size");
                let _ = self.context.pop_variable(name.as_str());
                let name = concat(lv.as_str(), ".index");
                let _ = self.context.pop_variable(name.as_str());
            },
            None => {},
        }
        let _ = self.context.pop_variable(lp.variable.as_str());
    }

    /// Runs the iterations of a loop.
    pub fn run_items(&mut self, depth: usize, lp: &LoopPlan, items: &Vec<String>) -> (r:
        InternalResult<()>)
        requires
            old(self).wf(),
        ensures
            final(self).wf(),
            ends(final(self)@, r, old(self)@.run_items(depth as nat, lp@, texts(items@), 0)),
        decreases depth, 30nat,
    {
        let size = items.len();
        let mut index: usize = 0;
        while index < size
            invariant
                self.wf(),
                index <= size,
                size == items@.len(),
                self@.run_items(depth as nat, lp@, texts(items@), index as nat) == old(
                    self,
                )@.run_items(depth as nat, lp@, texts(items@), 0),
            decreases size - index,
        {
            assert(texts(items@)[index as int] == items@[index as int]@);
            self.bind_iteration(lp, items[index].as_str(), index, size);
            self.parse_limited(depth, lp.body.as_str(), lp.until)?;
            self.unbind_iteration(lp);
            index += 1;
        }
        Ok(())
    }

    /// A loop of the given kind.
    fn parse_loop_tag(&mut self, depth: usize, kind: LoopKind) -> (r: StepResult<()>)
        requires
            old(self).wf(),
        ensures
            final(self).wf(),
            agrees(final(self)@, r, old(self)@.parse_loop_tag(depth as nat, kind)),
        decreases depth, 40nat,
    {
        let head = match self.loop_tag(kind) {
            Ok(head) => head,
            Err(e) => {
                return Err(e);
            },
        };
        let ghost s1 = self@;
        let (content, else_content) = match self.capture(depth, kind.block()) {
            Ok(parts) => parts,
            Err(e) => {
                return Err(Err(e));
            },
        };
        let until = kind.block().until();
        if head.items.len() > 0 {
            let plan = LoopPlan {
                variable: head.variable,
                loop_variable: head.loop_variable,
                body: content,
                until,
            };
            match self.run_items(depth, &plan, &head.items) {
                Ok(_) => Ok(()),
                Err(e) => Err(Err(e)),
            }
        } else {
            match else_content {
                Some(e) => match self.parse_limited(depth, e.as_str(), until) {
                    Ok(_) => Ok(()),
                    Err(e) => Err(Err(e)),
                },
                None => Ok(()),
            }
        }
    }

    pub fn parse_foreach(&mut self, depth: usize) -> (r: StepResult<()>)
        requires
            old(self).wf(),
        ensures
            final(self).wf(),
            agrees(final(self)@, r, old(self)@.parse_loop_tag(depth as nat, LoopKind::Foreach)),
        decreases depth, 41nat,
    {
        self.parse_loop_tag(depth, LoopKind::Foreach)
    }

    pub fn parse_fordir(&mut self, depth: usize) -> (r: StepResult<()>)
        requires
            old(self).wf(),
        ensures
            final(self).wf(),
            agrees(final(self)@, r, old(self)@.parse_loop_tag(depth as nat, LoopKind::Fordir)),
        decreases depth, 41nat,
    {
        self.parse_loop_tag(depth, LoopKind::Fordir)
    }

    pub fn parse_forfile(&mut self, depth: usize) -> (r: StepResult<()>)
        requires
            old(self).wf(),
        ensures
            final(self).wf(),
            agrees(final(self)@, r, old(self)@.parse_loop_tag(depth as nat, LoopKind::Forfile)),
        decreases depth, 41nat,
    {
        self.parse_loop_tag(depth, LoopKind::Forfile)
    }

    pub fn parse_forsplit(&mut self, depth: usize) -> (r: StepResult<()>)
        requires
            old(self).wf(),
        ensures
            final(self).wf(),
            agrees(final(self)@, r, old(self)@.parse_loop_tag(depth as nat, LoopKind::Forsplit)),
        decreases depth, 41nat,
    {
        self.parse_loop_tag(depth, LoopKind::Forsplit)
    }
}

} // verus!
