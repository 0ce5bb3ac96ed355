//! What holds of the engine as a whole, proved from the models of its
//! parts.

use crate::context::{CtxView, VarView};
use crate::error::ErrorView;
use crate::files::FilesView;
use crate::input::InputView;
use crate::parser::if_parser::{Condition, IfState, Join};
use crate::parser::loops::{order_items, LoopKind, LoopView, OptionsView};
use crate::parser::tags::nth_value;
use crate::parser::{EndPosition, FlowControl, ParseUntil, ParserView, MAX_DEPTH};
use crate::text::{insert_position, nat_text, sort_texts, sort_texts_to, text_less, text_less_from};
use vstd::seq_lib::{to_multiset_build, to_multiset_insert};
use vstd::prelude::*;
use vstd::utf8::encode_utf8;

verus! {

/// The index behind the first `#}` from `i` on that no backslash hides;
/// none where the comment does not close.
pub open spec fn comment_end(t: Seq<char>, i: int) -> Option<int>
    decreases t.len() + 1 - i,
{
    if i < 0 || i >= t.len() {
        None
    } else if t[i] == '\\' {
        if i + 1 >= t.len() {
            None
        } else {
            comment_end(t, i + 2)
        }
    } else if i + 2 <= t.len() && t[i] == '#' && t[i + 1] == '}' {
        Some(i + 2)
    } else {
        comment_end(t, i + 1)
    }
}

/// Whether the text from `i` on holds nothing but characters and closed
/// comments: no backslash outside a comment, and no curly bracket that
/// opens a tag or an output.
pub open spec fn quiet(t: Seq<char>, i: int) -> bool
    decreases t.len() + 1 - i,
{
    if i < 0 || i >= t.len() {
        true
    } else if t[i] == '\\' {
        false
    } else if t[i] == '{' && i + 1 < t.len() && (t[i + 1] == '{' || t[i + 1] == '%') {
        false
    } else if t[i] == '{' && i + 1 < t.len() && t[i + 1] == '#' {
        match comment_end(t, i + 2) {
            Some(j) => i < j <= t.len() && quiet(t, j),
            None => false,
        }
    } else {
        quiet(t, i + 1)
    }
}

/// The text from `i` on without its comments.
pub open spec fn without_comments(t: Seq<char>, i: int) -> Seq<char>
    decreases t.len() + 1 - i,
{
    if i < 0 || i >= t.len() {
        Seq::empty()
    } else if t[i] == '{' && i + 1 < t.len() && t[i + 1] == '#' {
        match comment_end(t, i + 2) {
            Some(j) => if i < j <= t.len() {
                without_comments(t, j)
            } else {
                Seq::empty()
            },
            None => Seq::empty(),
        }
    } else {
        seq![t[i]] + without_comments(t, i + 1)
    }
}

/// A text without tags: no backslash, and no curly bracket that opens a
/// tag, an output or a comment.
pub open spec fn plain(t: Seq<char>) -> bool {
    forall|i: int|
        0 <= i < t.len() ==> #[trigger] t[i] != '\\' && (t[i] == '{' && i + 1 < t.len() ==> t[i
            + 1] != '{' && t[i + 1] != '%' && t[i + 1] != '#')
}

/// Two states of one parse that differ at most in the position of the
/// input, the output and the end position.
pub open spec fn same_frame(a: ParserView, b: ParserView) -> bool {
    &&& a.extend == b.extend
    &&& a.context == b.context
    &&& a.parse_until == b.parse_until
    &&& a.bypass == b.bypass
    &&& a.files == b.files
    &&& a.output.destination == b.output.destination
    &&& a.input.text == b.input.text
    &&& a.input.path == b.input.path
}

pub proof fn lemma_comment_end_bounds(t: Seq<char>, i: int)
    requires
        0 <= i,
    ensures
        match comment_end(t, i) {
            Some(j) => i < j <= t.len(),
            None => true,
        },
    decreases t.len() + 1 - i,
{
    if i >= t.len() {
    } else if t[i] == '\\' {
        if i + 1 < t.len() {
            lemma_comment_end_bounds(t, i + 2);
        }
    } else if i + 2 <= t.len() && t[i] == '#' && t[i + 1] == '}' {
    } else {
        lemma_comment_end_bounds(t, i + 1);
    }
}

/// A comment that closes is stepped over up to its end, and nothing else
/// changes; one that does not close fails.
pub proof fn lemma_skip_comment(s: ParserView)
    requires
        s.input.wf(),
    ensures
        match comment_end(s.input.text, s.input.pos as int) {
            Some(j) => {
                let (s2, r) = s.skip_comment();
                &&& r is Ok
                &&& same_frame(s, s2)
                &&& s2.output == s.output
                &&& s2.end_position == s.end_position
                &&& s2.input.wf()
                &&& s2.input.pos == j
            },
            None => crate::parser::is_failure(s.skip_comment().1),
        },
    decreases s.input.remaining(),
{
    let t = s.input.text;
    let i = s.input.pos as int;
    if i >= t.len() {
    } else if t[i] == '\\' {
        let s1 = s.step();
        if i + 1 < t.len() {
            lemma_skip_comment(s1.step());
        }
    } else {
        let end = seq!['#', '}'];
        if s.at_sequence(end) {
            assert(t.subrange(i, i + 2)[0] == end[0]);
            assert(t.subrange(i, i + 2)[1] == end[1]);
        } else if i + 2 <= t.len() && t[i] == '#' && t[i + 1] == '}' {
            assert(t.subrange(i, i + 2) =~= end);
        } else {
            lemma_skip_comment(s.step());
        }
    }
}

/// A source of characters and closed comments is copied to the output
/// without its comments.
pub proof fn lemma_quiet_pieces(s: ParserView, depth: nat)
    requires
        s.input.wf(),
        !s.bypass,
        s.output.buffer.len() == 0,
        quiet(s.input.text, s.input.pos as int),
    ensures
        ({
            let (s2, r) = s.parse_pieces(depth);
            &&& r is Ok
            &&& same_frame(s, s2)
            &&& s2.output.content + s2.output.buffer == s.output.content + without_comments(
                s.input.text,
                s.input.pos as int,
            )
        }),
    decreases s.input.remaining(),
{
    let t = s.input.text;
    let i = s.input.pos as int;
    let before = s.input.remaining();
    if i >= t.len() {
        assert(s.output.content + s.output.buffer =~= s.output.content + without_comments(t, i));
    } else {
        let c = t[i];
        if c == '{' {
            let s1 = s.write_char(c).step();
            assert(s1.output.buffer =~= seq!['{']);
            let (s2, r2) = s1.parse_bracket(depth);
            if i + 1 >= t.len() {
                assert(s1.current() is None);
                assert(s2 == s1);
                assert(s1.parse_pieces(depth) == (s1, Ok::<(), ErrorView>(())));
                assert(s.parse_pieces(depth) == s2.after_piece(depth, r2, before));
                assert(without_comments(t, i + 1) =~= Seq::<char>::empty());
                assert(without_comments(t, i) =~= seq!['{']);
                assert(s1.output.content + s1.output.buffer =~= s.output.content + seq!['{']);
            } else if t[i + 1] == '#' {
                let s3 = s1.push_step().0;
                assert(s3 == s1.write_char('#').step());
                let s4 = s3.clear_buffer();
                lemma_skip_comment(s4);
                lemma_comment_end_bounds(t, i + 2);
                let j = comment_end(t, i + 2)->0;
                assert(s2 == s4.skip_comment().0);
                let s5 = s2.set_end_position(EndPosition::Eof);
                assert(s5.input.remaining() < before);
                lemma_quiet_pieces(s5, depth);
                assert(s.parse_pieces(depth) == s2.after_piece(depth, r2, before));
                assert(s5.output.content =~= s.output.content);
            } else {
                assert(s2 == s1.flush());
                let s5 = s2.set_end_position(EndPosition::Eof);
                assert(s5.input.remaining() < before);
                lemma_quiet_pieces(s5, depth);
                assert(s.parse_pieces(depth) == s2.after_piece(depth, r2, before));
                assert(s.output.content + seq!['{'] + without_comments(t, i + 1)
                    =~= s.output.content + without_comments(t, i));
                assert(s5.output.content =~= s.output.content + seq!['{']);
            }
        } else {
            let s1 = s.write_char(c).step().flush();
            lemma_quiet_pieces(s1, depth);
            assert(s1.output.content =~= s.output.content + seq![c]);
            assert(s.output.content + seq![c] + without_comments(t, i + 1) =~= s.output.content
                + without_comments(t, i));
        }
    }
}

/// A plain text is quiet, and has no comment to lose.
pub proof fn lemma_plain_is_quiet(t: Seq<char>, i: int)
    requires
        plain(t),
        0 <= i <= t.len(),
    ensures
        quiet(t, i),
        without_comments(t, i) == t.subrange(i, t.len() as int),
    decreases t.len() - i,
{
    if i < t.len() {
        lemma_plain_is_quiet(t, i + 1);
        assert(t[i] != '\\');
        assert(seq![t[i]] + t.subrange(i + 1, t.len() as int) =~= t.subrange(i, t.len() as int));
    } else {
        assert(without_comments(t, i) =~= t.subrange(i, t.len() as int));
    }
}

/// Compiling a template of characters and closed comments gives the
/// template without its comments, as UTF-8.
pub proof fn law_comments_are_removed(
    path: Seq<char>,
    template: Seq<char>,
    context: CtxView,
    files: FilesView,
)
    requires
        quiet(template, 0),
    ensures
        crate::compiled(Ok(InputView::start(path, template)), context, files) == Ok::<
            Seq<u8>,
            ErrorView,
        >(encode_utf8(without_comments(template, 0))),
{
    let s = ParserView::new(context, InputView::start(path, template), Seq::empty(), files);
    lemma_quiet_pieces(s, MAX_DEPTH as nat);
    let (s1, r1) = s.parse_pieces(MAX_DEPTH as nat);
    let (s2, r2) = s.parse_internal(MAX_DEPTH as nat);
    assert(s2 == s1.flush());
    assert(s2.output.content =~= without_comments(template, 0)) by {
        assert(s.output.content + without_comments(template, 0) =~= without_comments(template, 0));
    }
    assert(Seq::<u8>::empty() + encode_utf8(s2.output.content) =~= encode_utf8(
        s2.output.content,
    ));
}

/// Compiling a template without tags gives exactly the bytes of the
/// template.
pub proof fn law_plain_text_is_copied(
    path: Seq<char>,
    template: Seq<char>,
    context: CtxView,
    files: FilesView,
)
    requires
        plain(template),
    ensures
        crate::compiled(Ok(InputView::start(path, template)), context, files) == Ok::<
            Seq<u8>,
            ErrorView,
        >(encode_utf8(template)),
{
    lemma_plain_is_quiet(template, 0);
    assert(template.subrange(0, template.len() as int) =~= template);
    law_comments_are_removed(path, template, context, files);
}


// ---------------------------------------------------------------------------
// Bindings
// ---------------------------------------------------------------------------

/// A new binding makes the stack of its name one longer and leaves the
/// other stacks alone.
pub proof fn lemma_add_variable_sizes(
    context: CtxView,
    name: Seq<char>,
    path: Seq<char>,
    value: Seq<char>,
    k: Seq<char>,
)
    ensures
        context.add_variable(name, path, value).stack(k).len() == context.stack(k).len() + (if k
            == name {
            1nat
        } else {
            0nat
        }),
        context.add_variable(name, path, value).value(name) == Some(value),
        k != name ==> context.add_variable(name, path, value).stack(k) == context.stack(k),
{
}

/// Popping makes the stack of the name one shorter, if it holds anything,
/// and leaves the other stacks alone.
pub proof fn lemma_pop_variable_sizes(context: CtxView, name: Seq<char>, k: Seq<char>)
    ensures
        context.pop_variable(name).stack(k).len() == (if k == name && context.stack(k).len() > 0 {
            (context.stack(k).len() - 1) as nat
        } else {
            context.stack(k).len()
        }),
        k != name ==> context.pop_variable(name).stack(k) == context.stack(k),
{
}

/// The bindings of an iteration and their removal cancel: with a body in
/// between that leaves the size of a stack alone, the stack is as long
/// after the iteration as it was before.
pub proof fn lemma_iteration_sizes(
    before: CtxView,
    after_body: CtxView,
    lp: LoopView,
    path: Seq<char>,
    item: Seq<char>,
    index: nat,
    size: nat,
    k: Seq<char>,
)
    requires
        after_body.stack(k).len() == before.bind_iteration(lp, path, item, index, size).stack(
            k,
        ).len(),
    ensures
        after_body.unbind_iteration(lp).stack(k).len() == before.stack(k).len(),
{
    let c1 = before.add_variable(lp.variable, path, item);
    lemma_add_variable_sizes(before, lp.variable, path, item, k);
    match lp.loop_variable {
        None => {
            lemma_pop_variable_sizes(after_body, lp.variable, k);
        },
        Some(lv) => {
            let c2 = c1.add_variable(lv + ".index"@, path, nat_text(index));
            let c3 = c2.add_variable(lv + ".size"@, path, nat_text(size));
            let c4 = c3.add_variable(
                lv + ".isfirst"@,
                path,
                crate::parser::loops::flag(index == 0),
            );
            lemma_add_variable_sizes(c1, lv + ".index"@, path, nat_text(index), k);
            lemma_add_variable_sizes(c2, lv + ".size"@, path, nat_text(size), k);
            lemma_add_variable_sizes(
                c3,
                lv + ".isfirst"@,
                path,
                crate::parser::loops::flag(index == 0),
                k,
            );
            lemma_add_variable_sizes(
                c4,
                lv + ".islast"@,
                path,
                crate::parser::loops::flag(index + 1 == size),
                k,
            );
            let d1 = after_body.pop_variable(lv + ".islast"@);
            let d2 = d1.pop_variable(lv + ".isfirst"@);
            let d3 = d2.pop_variable(lv + ".size"@);
            let d4 = d3.pop_variable(lv + ".index"@);
            lemma_pop_variable_sizes(after_body, lv + ".islast"@, k);
            lemma_pop_variable_sizes(d1, lv + ".isfirst"@, k);
            lemma_pop_variable_sizes(d2, lv + ".size"@, k);
            lemma_pop_variable_sizes(d3, lv + ".index"@, k);
            lemma_pop_variable_sizes(d4, lp.variable, k);
        },
    }
}

/// Whether the body of a loop, each time that the loop renders it from
/// iteration `index` on, leaves the stack of `k` as long as it found it.
pub open spec fn bodies_keep(
    s: ParserView,
    depth: nat,
    lp: LoopView,
    items: Seq<Seq<char>>,
    index: nat,
    k: Seq<char>,
) -> bool
    decreases items.len() - index,
{
    if index >= items.len() {
        true
    } else {
        let bound = s.bind_iteration(lp, items[index as int], index, items.len());
        let (s1, r1) = bound.parse_limited(depth, lp.body, lp.until);
        r1 is Ok ==> {
            &&& s1.context.stack(k).len() == bound.context.stack(k).len()
            &&& bodies_keep(s1.unbind_iteration(lp), depth, lp, items, index + 1, k)
        }
    }
}

/// A loop leaves every stack as long as it found it, where its body does
/// each time that it is rendered: the bindings of each iteration are gone
/// when the iteration is over. This holds of every name, also of the
/// loop's own.
pub proof fn law_loop_preserves_stacks(
    s: ParserView,
    depth: nat,
    lp: LoopView,
    items: Seq<Seq<char>>,
    index: nat,
    k: Seq<char>,
)
    requires
        bodies_keep(s, depth, lp, items, index, k),
        s.run_items(depth, lp, items, index).1 is Ok,
    ensures
        s.run_items(depth, lp, items, index).0.context.stack(k).len() == s.context.stack(k).len(),
    decreases items.len() - index,
{
    if index < items.len() {
        let bound = s.bind_iteration(lp, items[index as int], index, items.len());
        let (s1, r1) = bound.parse_limited(depth, lp.body, lp.until);
        assert(r1 is Ok);
        lemma_iteration_sizes(
            s.context,
            s1.context,
            lp,
            s.input.path,
            items[index as int],
            index,
            items.len(),
            k,
        );
        assert(s1.input.path == s.input.path);
        law_loop_preserves_stacks(s1.unbind_iteration(lp), depth, lp, items, index + 1, k);
    }
}

/// Taking a binding away changes the stack of a name in the same way in two
/// contexts that agree on that stack.
pub proof fn lemma_pop_alike(a: CtxView, b: CtxView, name: Seq<char>, k: Seq<char>)
    requires
        a.stack(k) == b.stack(k),
    ensures
        a.pop_variable(name).stack(k) == b.pop_variable(name).stack(k),
{
}

/// A binding that is pushed and popped again leaves every stack as it was.
pub proof fn lemma_push_pop_stack(
    context: CtxView,
    name: Seq<char>,
    path: Seq<char>,
    value: Seq<char>,
    k: Seq<char>,
)
    ensures
        context.add_variable(name, path, value).pop_variable(name).stack(k) == context.stack(k),
{
    let pushed = context.add_variable(name, path, value);
    assert(pushed.stack(name) =~= context.stack(name).push(VarView { path, value }));
    assert(pushed.stack(name).drop_last() =~= context.stack(name));
    if context.stack(name).len() == 0 {
        assert(context.stack(name) =~= Seq::<VarView>::empty());
    }
}

/// The bindings of an iteration are taken away in the reverse order: with a
/// body in between that leaves the stack of a name as it found it, the
/// stack holds after the iteration what it held before.
pub proof fn lemma_iteration_stacks(
    before: CtxView,
    after_body: CtxView,
    lp: LoopView,
    path: Seq<char>,
    item: Seq<char>,
    index: nat,
    size: nat,
    k: Seq<char>,
)
    requires
        after_body.stack(k) == before.bind_iteration(lp, path, item, index, size).stack(k),
    ensures
        after_body.unbind_iteration(lp).stack(k) == before.stack(k),
{
    let c1 = before.add_variable(lp.variable, path, item);
    match lp.loop_variable {
        None => {
            lemma_pop_alike(after_body, c1, lp.variable, k);
            lemma_push_pop_stack(before, lp.variable, path, item, k);
        },
        Some(lv) => {
            let first = crate::parser::loops::flag(index == 0);
            let last = crate::parser::loops::flag(index + 1 == size);
            let c2 = c1.add_variable(lv + ".index"@, path, nat_text(index));
            let c3 = c2.add_variable(lv + ".size"@, path, nat_text(size));
            let c4 = c3.add_variable(lv + ".isfirst"@, path, first);
            let c5 = c4.add_variable(lv + ".islast"@, path, last);
            let d1 = after_body.pop_variable(lv + ".islast"@);
            let d2 = d1.pop_variable(lv + ".isfirst"@);
            let d3 = d2.pop_variable(lv + ".size"@);
            let d4 = d3.pop_variable(lv + ".index"@);
            lemma_pop_alike(after_body, c5, lv + ".islast"@, k);
            lemma_push_pop_stack(c4, lv + ".islast"@, path, last, k);
            assert(d1.stack(k) == c4.stack(k));
            lemma_pop_alike(d1, c4, lv + ".isfirst"@, k);
            lemma_push_pop_stack(c3, lv + ".isfirst"@, path, first, k);
            assert(d2.stack(k) == c3.stack(k));
            lemma_pop_alike(d2, c3, lv + ".size"@, k);
            lemma_push_pop_stack(c2, lv + ".size"@, path, nat_text(size), k);
            assert(d3.stack(k) == c2.stack(k));
            lemma_pop_alike(d3, c2, lv + ".index"@, k);
            lemma_push_pop_stack(c1, lv + ".index"@, path, nat_text(index), k);
            assert(d4.stack(k) == c1.stack(k));
            lemma_pop_alike(d4, c1, lp.variable, k);
            lemma_push_pop_stack(before, lp.variable, path, item, k);
        },
    }
}

/// Whether the body of a loop, each time that the loop renders it from
/// iteration `index` on, leaves the stack of `k` as it found it: the same
/// bindings in the same order.
pub open spec fn bodies_leave(
    s: ParserView,
    depth: nat,
    lp: LoopView,
    items: Seq<Seq<char>>,
    index: nat,
    k: Seq<char>,
) -> bool
    decreases items.len() - index,
{
    if index >= items.len() {
        true
    } else {
        let bound = s.bind_iteration(lp, items[index as int], index, items.len());
        let (s1, r1) = bound.parse_limited(depth, lp.body, lp.until);
        r1 is Ok ==> {
            &&& s1.context.stack(k) == bound.context.stack(k)
            &&& bodies_leave(s1.unbind_iteration(lp), depth, lp, items, index + 1, k)
        }
    }
}

/// A loop leaves the stack of a name as it found it, the same bindings in
/// the same order, where its body does each time that it is rendered. This
/// holds of every name, also of the loop's own, and whatever the loop runs
/// over; a name that was unbound is unbound again.
pub proof fn law_loop_restores_stacks(
    s: ParserView,
    depth: nat,
    lp: LoopView,
    items: Seq<Seq<char>>,
    index: nat,
    k: Seq<char>,
)
    requires
        bodies_leave(s, depth, lp, items, index, k),
        s.run_items(depth, lp, items, index).1 is Ok,
    ensures
        s.run_items(depth, lp, items, index).0.context.stack(k) == s.context.stack(k),
    decreases items.len() - index,
{
    if index < items.len() {
        let bound = s.bind_iteration(lp, items[index as int], index, items.len());
        let (s1, r1) = bound.parse_limited(depth, lp.body, lp.until);
        assert(r1 is Ok);
        lemma_iteration_stacks(
            s.context,
            s1.context,
            lp,
            s.input.path,
            items[index as int],
            index,
            items.len(),
            k,
        );
        law_loop_restores_stacks(s1.unbind_iteration(lp), depth, lp, items, index + 1, k);
    }
}

/// A binding that is pushed and popped again leaves the context as it was.
pub proof fn lemma_push_pop(context: CtxView, name: Seq<char>, path: Seq<char>, value: Seq<char>)
    requires
        context.wf(),
    ensures
        context.add_variable(name, path, value).wf(),
        context.add_variable(name, path, value).pop_variable(name) == context,
{
    let pushed = context.add_variable(name, path, value);
    let stack = context.stack(name);
    assert(pushed.stack(name) =~= stack.push(VarView { path, value }));
    assert(pushed.stack(name).drop_last() =~= stack);
    assert(pushed.pop_variable(name).variables =~= context.variables);
}

/// The bindings of an iteration, taken away again, leave the context as it
/// was.
pub proof fn lemma_bind_unbind(
    context: CtxView,
    lp: LoopView,
    path: Seq<char>,
    item: Seq<char>,
    index: nat,
    size: nat,
)
    requires
        context.wf(),
    ensures
        context.bind_iteration(lp, path, item, index, size).unbind_iteration(lp) == context,
{
    lemma_push_pop(context, lp.variable, path, item);
    match lp.loop_variable {
        None => {},
        Some(lv) => {
            let c1 = context.add_variable(lp.variable, path, item);
            let c2 = c1.add_variable(lv + ".index"@, path, nat_text(index));
            let c3 = c2.add_variable(lv + ".size"@, path, nat_text(size));
            let c4 = c3.add_variable(
                lv + ".isfirst"@,
                path,
                crate::parser::loops::flag(index == 0),
            );
            lemma_push_pop(c1, lv + ".index"@, path, nat_text(index));
            lemma_push_pop(c2, lv + ".size"@, path, nat_text(size));
            lemma_push_pop(c3, lv + ".isfirst"@, path, crate::parser::loops::flag(index == 0));
            lemma_push_pop(
                c4,
                lv + ".islast"@,
                path,
                crate::parser::loops::flag(index + 1 == size),
            );
        },
    }
}

/// A loop whose body is characters and closed comments leaves the context
/// exactly as it found it, whatever it runs over: every stack, that of the
/// loop's own names too, holds what it held.
pub proof fn law_quiet_loop_restores_context(
    s: ParserView,
    depth: nat,
    kind: LoopKind,
    variable: Seq<char>,
    loop_variable: Option<Seq<char>>,
    body: Seq<char>,
    items: Seq<Seq<char>>,
    index: nat,
)
    requires
        s.input.wf(),
        s.context.wf(),
        !s.bypass,
        s.output.buffer.len() == 0,
        depth > 0,
        quiet(body, 0),
        body.len() > 0 ==> body.last() != '{',
    ensures
        ({
            let lp = LoopView {
                variable,
                loop_variable,
                body: body + crate::lemmas::block_end(kind.spec_block().spec_name()),
                until: kind.spec_block().spec_until(),
            };
            let (after, result) = s.run_items(depth, lp, items, index);
            &&& result is Ok
            &&& after.context == s.context
            &&& after.input == s.input
        }),
    decreases items.len() - index,
{
    let block = kind.spec_block();
    let end = crate::lemmas::block_end(block.spec_name());
    let lp = LoopView { variable, loop_variable, body: body + end, until: block.spec_until() };
    if index < items.len() {
        let bound = s.bind_iteration(lp, items[index as int], index, items.len());
        let child = bound.spawn_limited(lp.body, lp.until);
        assert(lp.body.subrange(0, 0 + body.len() as int) =~= body);
        let at_end = crate::lemmas::lemma_quiet_region(child, (depth - 1) as nat, 0, body, 0);
        crate::lemmas::lemma_loops_in_blocks(kind);
        let k = match kind {
            LoopKind::Fordir => 3int,
            LoopKind::Foreach => 4int,
            LoopKind::Forfile => 5int,
            LoopKind::Forsplit => 6int,
        };
        assert forall|i: int| 0 <= i < end.len() implies lp.body[body.len() + i] == end[i] by {}
        let closed = crate::lemmas::lemma_block_end(at_end, (depth - 1) as nat, block, k);
        assert(child.parse_pieces((depth - 1) as nat) == (closed, Ok::<(), ErrorView>(())));
        assert(child.parse_internal((depth - 1) as nat) == (
            closed.flush(),
            Ok::<(), ErrorView>(()),
        ));
        let (s1, r1) = bound.parse_limited(depth, lp.body, lp.until);
        assert(r1 is Ok);
        assert(s1.context == bound.context);
        lemma_bind_unbind(
            s.context,
            lp,
            s.input.path,
            items[index as int],
            index,
            items.len(),
        );
        let s2 = s1.unbind_iteration(lp);
        assert(s2.context == s.context);
        assert(s2.output.buffer.len() == 0) by {
            assert(closed.flush().output.buffer =~= Seq::<char>::empty());
        }
        law_quiet_loop_restores_context(
            s2,
            depth,
            kind,
            variable,
            loop_variable,
            body,
            items,
            index + 1,
        );
    }
}

/// A reversed loop runs over the same items as the loop that is not
/// reversed, from the last to the first.
pub proof fn law_reversed_runs_backwards(items: Seq<Seq<char>>, options: OptionsView, i: int)
    requires
        options.reversed,
        0 <= i < order_items(items, options).len(),
    ensures
        order_items(items, options).len() == order_items(
            items,
            OptionsView { reversed: false, ..options },
        ).len(),
        order_items(items, options)[i] == order_items(
            items,
            OptionsView { reversed: false, ..options },
        )[order_items(items, options).len() - 1 - i],
{
}

/// Whatever the order of the items, iteration `index` binds the loop
/// variable's index to `index` and its size to the number of items: the
/// index counts from zero up to the size less one.
pub proof fn law_iteration_counts_up(
    context: CtxView,
    lp: LoopView,
    path: Seq<char>,
    item: Seq<char>,
    index: nat,
    size: nat,
)
    requires
        lp.loop_variable is Some,
    ensures
        context.bind_iteration(lp, path, item, index, size).value(
            lp.loop_variable->0 + ".index"@,
        ) == Some(nat_text(index)),
        context.bind_iteration(lp, path, item, index, size).value(lp.loop_variable->0 + ".size"@)
            == Some(nat_text(size)),
{
    let lv = lp.loop_variable->0;
    reveal_strlit(".index");
    reveal_strlit(".size");
    reveal_strlit(".isfirst");
    reveal_strlit(".islast");
    assert((lv + ".index"@).len() == lv.len() + 6);
    assert((lv + ".size"@).len() == lv.len() + 5);
    assert((lv + ".isfirst"@).len() == lv.len() + 8);
    assert((lv + ".islast"@).len() == lv.len() + 7);
    let c1 = context.add_variable(lp.variable, path, item);
    let c2 = c1.add_variable(lv + ".index"@, path, nat_text(index));
    let c3 = c2.add_variable(lv + ".size"@, path, nat_text(size));
    let c4 = c3.add_variable(lv + ".isfirst"@, path, crate::parser::loops::flag(index == 0));
    lemma_add_variable_sizes(c1, lv + ".index"@, path, nat_text(index), lv + ".index"@);
    lemma_add_variable_sizes(c2, lv + ".size"@, path, nat_text(size), lv + ".index"@);
    lemma_add_variable_sizes(c2, lv + ".size"@, path, nat_text(size), lv + ".size"@);
    lemma_add_variable_sizes(
        c3,
        lv + ".isfirst"@,
        path,
        crate::parser::loops::flag(index == 0),
        lv + ".index"@,
    );
    lemma_add_variable_sizes(
        c3,
        lv + ".isfirst"@,
        path,
        crate::parser::loops::flag(index == 0),
        lv + ".size"@,
    );
    lemma_add_variable_sizes(
        c4,
        lv + ".islast"@,
        path,
        crate::parser::loops::flag(index + 1 == size),
        lv + ".index"@,
    );
    lemma_add_variable_sizes(
        c4,
        lv + ".islast"@,
        path,
        crate::parser::loops::flag(index + 1 == size),
        lv + ".size"@,
    );
}

/// `nth` counts a negative index around from the end, takes `-0` for the
/// last element, and gives nothing for an index at or behind the end.
pub proof fn law_nth_picks(values: Seq<Seq<char>>, index: int)
    ensures
        values.len() > 0 && index < 0 ==> nth_value(values, index, false) == values[index % (
        values.len() as int)],
        values.len() > 0 ==> nth_value(values, 0, true) == values[values.len() - 1],
        index >= values.len() ==> nth_value(values, index, false) == Seq::<char>::empty(),
        0 <= index < values.len() ==> nth_value(values, index, false) == values[index],
{
}

/// `set` binds its name to what its body renders, whatever the body
/// holds. Where the tag is read without failure, the context behind it is
/// that of the body's parser with one binding more on the stack of the
/// name: the text that the body's parser rendered, owned by the file being
/// read. Where the body leaves the name unbound, that binding is the only
/// one of the name. The tag adds nothing to the output.
pub proof fn law_set_binds_rendered_body(s: ParserView, depth: nat)
    requires
        s.input.wf(),
        s.parse_set(depth).1 is Ok,
    ensures
        ({
            let s0 = s.bypass_whitespace_enforce_one().0.clear_buffer();
            let (s1, name) = s0.parse_variable_name("set"@);
            let s2 = s1.expect_end_of_tag("set"@).0;
            let (body, rendered) = s2.spawn_child(ParseUntil::EndSet).parse_internal(
                (depth - 1) as nat,
            );
            let bound = s.parse_set(depth).0.context;
            &&& depth > 0
            &&& name is Ok
            &&& rendered is Ok
            &&& bound.stack(name->Ok_0) == body.context.stack(name->Ok_0).push(
                VarView { path: body.input.path, value: body.output.content },
            )
            &&& bound.value(name->Ok_0) == Some(body.output.content)
            &&& body.context.stack(name->Ok_0).len() == 0 ==> bound.stack(name->Ok_0) == seq![
                VarView { path: s.input.path, value: body.output.content },
            ]
            &&& s.parse_set(depth).0.output.content == s.output.content
            &&& s.parse_set(depth).0.output.destination == s.output.destination
        }),
{
    let s0 = s.bypass_whitespace_enforce_one().0.clear_buffer();
    let (s1, name) = s0.parse_variable_name("set"@);
    let s2 = s1.expect_end_of_tag("set"@).0;
    let (s3, r3) = s2.parse_child(depth, ParseUntil::EndSet);
    assert(r3 is Ok);
    crate::reading::lemma_named_head_reads(s, "set"@);
    let (body, rendered) = s2.spawn_child(ParseUntil::EndSet).parse_internal((depth - 1) as nat);
    assert(crate::progress::advances(s, s2)) by {
        broadcast use crate::progress::group_runs;
        broadcast use crate::progress::group_chars;
        broadcast use crate::progress::group_names;

    }
    crate::progress::lemma_parse_internal(
        s2.spawn_child(ParseUntil::EndSet),
        (depth - 1) as nat,
    );
    assert(body.input.path == s.input.path);
    if body.context.stack(name->Ok_0).len() == 0 {
        assert(body.context.stack(name->Ok_0) =~= Seq::<VarView>::empty());
        assert(Seq::<VarView>::empty().push(
            VarView { path: body.input.path, value: body.output.content },
        ) =~= seq![VarView { path: body.input.path, value: body.output.content }]);
    }
}


/// `set` in full: a template that is one `set` block with a body of
/// characters and closed comments writes nothing and binds the name once,
/// to the text that compiling the body alone gives.
///
/// The body must not end in a curly bracket, which would open an output
/// together with the bracket of the end tag; and the name must be unbound
/// before.
pub proof fn law_set_binds_its_body_once(
    path: Seq<char>,
    name: Seq<char>,
    body: Seq<char>,
    context: CtxView,
    files: FilesView,
)
    requires
        crate::lemmas::is_name(name),
        quiet(body, 0),
        body.len() > 0 ==> body.last() != '{',
        context.stack(name).len() == 0,
    ensures
        ({
            let template = crate::lemmas::set_start() + name + crate::lemmas::tag_close() + body
                + crate::lemmas::set_end();
            let (after, result) = ParserView::new(
                context,
                InputView::start(path, template),
                Seq::empty(),
                files,
            ).parse();
            &&& result is Ok
            &&& after.output.destination == Seq::<u8>::empty()
            &&& after.context.stack(name) == seq![
                VarView { path, value: without_comments(body, 0) },
            ]
            &&& crate::compiled(Ok(InputView::start(path, body)), context, files) == Ok::<
                Seq<u8>,
                ErrorView,
            >(encode_utf8(without_comments(body, 0)))
        }),
{
    let open = crate::lemmas::set_start() + name + crate::lemmas::tag_close();
    let template = open + body + crate::lemmas::set_end();
    let depth = MAX_DEPTH as nat;
    let s0 = ParserView::new(context, InputView::start(path, template), Seq::empty(), files);
    let start = open.len() as int;
    assert(start == 10 + name.len());
    assert(template.len() == start + body.len() + 10);
    assert forall|i: int| 0 <= i < open.len() implies template[0 + i] == open[i] by {}
    let head = crate::lemmas::lemma_set_start(s0, depth, name);
    let child = head.spawn_child(ParseUntil::EndSet);
    assert(template.subrange(start, start + body.len()) =~= body);
    let at_end = crate::lemmas::lemma_quiet_region(child, (depth - 1) as nat, start, body, 0);
    assert forall|i: int| 0 <= i < 10 implies template[start + body.len() + i]
        == crate::lemmas::set_end()[i] by {}
    let closed = crate::lemmas::lemma_set_end(at_end, (depth - 1) as nat);
    assert(child.parse_pieces((depth - 1) as nat) == (closed, Ok::<(), ErrorView>(())));
    assert(child.parse_internal((depth - 1) as nat) == (closed.flush(), Ok::<(), ErrorView>(())));
    let rendered = closed.flush().output.content;
    assert(rendered =~= without_comments(body, 0)) by {
        assert(child.output.content + without_comments(body, 0) =~= without_comments(body, 0));
        assert(closed.output.content + closed.output.buffer =~= closed.output.content);
    }
    assert(closed.flush().closed());
    let (s3, r3) = head.parse_child(depth, ParseUntil::EndSet);
    assert(r3 == Ok::<Seq<char>, ErrorView>(rendered));
    let (s4, r4) = crate::lemmas::set_body(head, depth, name);
    assert(r4 is Ok);
    assert(s4.context == context.add_variable(name, path, rendered));
    let s5 = s4.set_end_position(EndPosition::Eof);
    assert(s5.input.pos == template.len());
    assert(s5.parse_pieces(depth) == (s5, Ok::<(), ErrorView>(())));
    assert(s0.parse_pieces(depth) == (s5, Ok::<(), ErrorView>(())));
    assert(s0.parse_internal(depth) == (s5.flush(), Ok::<(), ErrorView>(())));
    assert(s5.flush().output.content =~= Seq::<char>::empty());
    assert(encode_utf8(Seq::<char>::empty()) =~= Seq::<u8>::empty());
    assert(Seq::<u8>::empty() + encode_utf8(Seq::<char>::empty()) =~= Seq::<u8>::empty());
    assert(context.add_variable(name, path, rendered).stack(name) =~= seq![
        VarView { path, value: rendered },
    ]);
    law_comments_are_removed(path, body, context, files);
}


// ---------------------------------------------------------------------------
// The order of listings
// ---------------------------------------------------------------------------

/// Texts in the order of strings: none comes before one that stands
/// before it.
pub open spec fn ordered(s: Seq<Seq<char>>) -> bool {
    forall|i: int, j: int| 0 <= i < j < s.len() ==> !text_less(#[trigger] s[j], #[trigger] s[i])
}

/// The order of strings is transitive.
pub proof fn lemma_text_less_transitive(a: Seq<char>, b: Seq<char>, c: Seq<char>, i: int)
    requires
        0 <= i,
        text_less_from(a, b, i),
        text_less_from(b, c, i),
    ensures
        text_less_from(a, c, i),
    decreases a.len() - i,
{
    if i < a.len() && i < b.len() && i < c.len() && a[i] == b[i] && b[i] == c[i] {
        lemma_text_less_transitive(a, b, c, i + 1);
    }
}

/// The place at which a text is put into an ordered list: behind all that
/// do not come behind it, before the first that does.
pub proof fn lemma_insert_position(sorted: Seq<Seq<char>>, x: Seq<char>, i: int)
    requires
        0 <= i <= sorted.len(),
    ensures
        i <= insert_position(sorted, x, i) <= sorted.len(),
        forall|k: int| i <= k < insert_position(sorted, x, i) ==> !text_less(x, #[trigger] sorted[k]),
        insert_position(sorted, x, i) < sorted.len() ==> text_less(
            x,
            sorted[insert_position(sorted, x, i)],
        ),
    decreases sorted.len() - i,
{
    if i < sorted.len() && !text_less(x, sorted[i]) {
        lemma_insert_position(sorted, x, i + 1);
    }
}

/// Sorting gives the same texts, in the order of strings.
pub proof fn law_sorting_orders(s: Seq<Seq<char>>, n: nat)
    requires
        n <= s.len(),
    ensures
        ordered(sort_texts_to(s, n)),
        sort_texts_to(s, n).len() == n,
        sort_texts_to(s, n).to_multiset() == s.take(n as int).to_multiset(),
    decreases n,
{
    if n == 0 {
        assert(s.take(0) =~= Seq::<Seq<char>>::empty());
        assert(sort_texts_to(s, 0) =~= Seq::<Seq<char>>::empty());
    } else {
        let before = sort_texts_to(s, (n - 1) as nat);
        law_sorting_orders(s, (n - 1) as nat);
        let x = s[n - 1];
        let pos = insert_position(before, x, 0);
        lemma_insert_position(before, x, 0);
        let after = before.insert(pos, x);
        assert(sort_texts_to(s, n) == after);
        assert forall|i: int, j: int| 0 <= i < j < after.len() implies !text_less(
            #[trigger] after[j],
            #[trigger] after[i],
        ) by {
            if j == pos {
                assert(after[i] == before[i]);
            } else if i == pos {
                assert(after[j] == before[j - 1]);
                if text_less(after[j], x) {
                    lemma_text_less_transitive(before[j - 1], x, before[pos], 0);
                    assert(before[j - 1] == before[pos] || !text_less(before[j - 1], before[pos]));
                    if j - 1 == pos {
                        lemma_text_less_transitive(before[pos], x, before[pos], 0);
                        lemma_text_less_irreflexive(before[pos], 0);
                    }
                }
            } else {
                let i0 = if i < pos { i } else { i - 1 };
                let j0 = if j < pos { j } else { j - 1 };
                assert(after[i] == before[i0]);
                assert(after[j] == before[j0]);
            }
        }
        to_multiset_insert(before, pos, x);
        to_multiset_build(s.take(n - 1), x);
        assert(s.take(n - 1).push(x) =~= s.take(n as int));
    }
}

/// No text comes before itself.
pub proof fn lemma_text_less_irreflexive(a: Seq<char>, i: int)
    requires
        0 <= i,
    ensures
        !text_less_from(a, a, i),
    decreases a.len() - i,
{
    if i < a.len() {
        lemma_text_less_irreflexive(a, i + 1);
    }
}

/// The listing of a directory is in the order of the names.
pub proof fn law_listing_is_ordered(names: Seq<Seq<char>>)
    ensures
        ordered(sort_texts(names)),
        sort_texts(names).to_multiset() == names.to_multiset(),
{
    law_sorting_orders(names, names.len());
    assert(names.take(names.len() as int) =~= names);
}

/// The value of `so_far`, joined to a term of value `term` by the join
/// that `so_far` carries.
pub open spec fn joined(so_far: Condition, term: bool) -> bool {
    match so_far.join {
        Some(Join::And) => so_far.evaluation && term,
        Some(Join::Or) => so_far.evaluation || term,
        None => term,
    }
}

/// Joins are taken from the left. In a group that is evaluated, where
/// the terms so far have the value and the join of `so_far`, the value
/// behind the next term is that value joined to the term's own: the
/// term's value is `value`, negated where an odd number of `!` stands
/// before it. So `a && b || c` is `(a && b) || c`.
pub proof fn law_joins_from_the_left(
    s: ParserView,
    st: IfState,
    so_far: Condition,
    value: bool,
    negate: bool,
)
    requires
        st.bypass is None,
        st.condition == Some(so_far),
        so_far.join is Some,
        s.after_term(st, st.term(value), negate).1 is Ok,
    ensures
        s.after_term(st, st.term(value), negate).1->Ok_0.evaluation == joined(
            so_far,
            value != negate,
        ),
{
}

/// In a group that is evaluated, the term behind a join is read without
/// being evaluated exactly where the value so far and the join decide:
/// behind `false &&` and behind `true ||`.
pub proof fn law_terms_are_skipped_where_decided(st: IfState, so_far: Condition)
    requires
        st.bypass is None,
        st.condition == Some(so_far),
    ensures
        st.fixed() is Some <==> (so_far.join == Some(Join::And) && !so_far.evaluation) || (
        so_far.join == Some(Join::Or) && so_far.evaluation),
        st.fixed() is Some ==> st.fixed() == Some(so_far.evaluation),
{
}

/// A term that is read without being evaluated leaves the value so far
/// as it is, whatever the term holds.
pub proof fn law_decided_terms_change_nothing(
    s: ParserView,
    st: IfState,
    value: bool,
    negate: bool,
)
    requires
        st.fixed() is Some,
        s.after_term(st, st.term(value), negate).1 is Ok,
    ensures
        s.after_term(st, st.term(value), negate).1->Ok_0.evaluation == st.fixed()->0,
{
}

} // verus!
