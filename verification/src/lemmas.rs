//! Lemmas on how tags are read, for the laws that follow a whole template
//! through the engine.

use crate::error::ErrorView;
use crate::laws::{comment_end, lemma_comment_end_bounds, lemma_skip_comment, quiet, same_frame, without_comments};
use crate::parser::steps::just;
use crate::parser::tags::{
    any_prefixed, block_at, block_names, has_prefix, named, tag_at, tag_names, Block, Tag,
};
use crate::parser::{EndPosition, FlowControl, FlowView, ParseUntil, ParserView, StepView};
use crate::text::{spec_is_name_char, spec_is_name_start, spec_is_whitespace};
use vstd::prelude::*;

verus! {

/// The names of the tags, spelled out.
pub proof fn lemma_tag_names()
    ensures
        tag_names().len() == 26,
        tag_names()[0] =~= seq!['a', 'd', 'd'],
        tag_names()[1] =~= seq!['d', 'i', 'v'],
        tag_names()[2] =~= seq!['f', 'n'],
        tag_names()[3] =~= seq!['f', 'o', 'r', 'd', 'i', 'r'],
        tag_names()[4] =~= seq!['f', 'o', 'r', 'e', 'a', 'c', 'h'],
        tag_names()[5] =~= seq!['f', 'o', 'r', 'f', 'i', 'l', 'e'],
        tag_names()[6] =~= seq!['f', 'o', 'r', 's', 'p', 'l', 'i', 't'],
        tag_names()[7] =~= seq!['i', 'f'],
        tag_names()[8] =~= seq!['m', 'o', 'd'],
        tag_names()[9] =~= seq!['m', 'u', 'l'],
        tag_names()[10] =~= seq!['n', 't', 'h'],
        tag_names()[11] =~= seq!['p', 'o', 'w'],
        tag_names()[12] =~= seq!['s', 'e', 't'],
        tag_names()[13] =~= seq!['s', 'u', 'b'],
        tag_names()[14] =~= seq!['a', 's', 's', 'e', 'r', 't'],
        tag_names()[15] =~= seq!['b', 'a', 's', 'e', 'n', 'a', 'm', 'e'],
        tag_names()[16] =~= seq!['c', 'a', 'l', 'l'],
        tag_names()[17] =~= seq!['c', 'o', 'm', 'p', 'i', 'l', 'e'],
        tag_names()[18] =~= seq!['c', 'o', 'u', 'n', 't'],
        tag_names()[19] =~= seq!['d', 'i', 'r', 'n', 'a', 'm', 'e'],
        tag_names()[20] =~= seq!['e', 'x', 't', 'e', 'n', 'd'],
        tag_names()[21] =~= seq!['i', 'n', 'c', 'l', 'u', 'd', 'e'],
        tag_names()[22] =~= seq!['l', 'e', 'n', 'g', 't', 'h'],
        tag_names()[23] =~= seq!['p', 'a', 't', 'h'],
        tag_names()[24] =~= seq!['e', 'l', 's', 'e'],
        tag_names()[25] =~= seq!['/'],
        block_names().len() == 14,
        forall|i: int| 0 <= i < 14 ==> block_names()[i] == tag_names()[i],
{
    reveal_strlit("add");
    reveal_strlit("div");
    reveal_strlit("fn");
    reveal_strlit("fordir");
    reveal_strlit("foreach");
    reveal_strlit("forfile");
    reveal_strlit("forsplit");
    reveal_strlit("if");
    reveal_strlit("mod");
    reveal_strlit("mul");
    reveal_strlit("nth");
    reveal_strlit("pow");
    reveal_strlit("set");
    reveal_strlit("sub");
    reveal_strlit("assert");
    reveal_strlit("basename");
    reveal_strlit("call");
    reveal_strlit("compile");
    reveal_strlit("count");
    reveal_strlit("dirname");
    reveal_strlit("extend");
    reveal_strlit("include");
    reveal_strlit("length");
    reveal_strlit("path");
    reveal_strlit("else");
    reveal_strlit("/");
}

/// A name that stands in a list makes its prefixes prefixes of the list.
pub proof fn lemma_any_prefixed(names: Seq<Seq<char>>, p: Seq<char>, k: int, from: int)
    requires
        0 <= from <= k < names.len(),
        has_prefix(names[k], p),
    ensures
        any_prefixed(names, p, from),
    decreases k - from,
{
    if from < k && !has_prefix(names[from], p) {
        lemma_any_prefixed(names, p, k, from + 1);
    }
}

/// `named` finds the first place of a text in a list, and no place where
/// the text is not in the list.
pub proof fn lemma_named(names: Seq<Seq<char>>, p: Seq<char>, from: int)
    requires
        0 <= from,
    ensures
        match named(names, p, from) {
            Some(k) => from <= k < names.len() && names[k] =~= p && forall|i: int|
                from <= i < k ==> !(#[trigger] names[i] =~= p),
            None => forall|i: int| from <= i < names.len() ==> !(#[trigger] names[i] =~= p),
        },
    decreases names.len() + 1 - from,
{
    if from < names.len() && !(names[from] =~= p) {
        lemma_named(names, p, from + 1);
    }
}

/// Where the rest of a name stands in the source, and no shorter text of
/// the list is a prefix of the name, the name is read to its end: its
/// characters go to the buffer, and its index in the list is the result.
pub proof fn lemma_match_name(
    s: ParserView,
    names: Seq<Seq<char>>,
    w: Seq<char>,
    j: int,
    k: int,
    end_tag: bool,
)
    requires
        s.input.wf(),
        0 <= j <= w.len(),
        0 <= k < names.len(),
        names[k] =~= w,
        forall|i: int| 0 <= i < k ==> !(#[trigger] names[i] =~= w),
        forall|i: int, n: int|
            0 <= i < names.len() && 0 <= n < w.len() ==> !(#[trigger] names[i] =~= #[trigger] w.take(
                n,
            )),
        s.input.pos + (w.len() - j) <= s.input.text.len(),
        forall|i: int| j <= i < w.len() ==> s.input.text[s.input.pos as int + i - j] == w[i],
    ensures
        ({
            let (s2, r) = s.match_name(names, w.take(j), end_tag);
            &&& r == Ok::<usize, crate::parser::FlowView>(k as usize)
            &&& s2.input.wf()
            &&& s2.input.pos == s.input.pos + (w.len() - j)
            &&& s2.input.text == s.input.text
            &&& s2.input.path == s.input.path
            &&& s2.output.buffer == s.output.buffer + w.subrange(j, w.len() as int)
            &&& s2.output.content == s.output.content
            &&& s2.output.destination == s.output.destination
            &&& s2.context == s.context
            &&& s2.extend == s.extend
            &&& s2.parse_until == s.parse_until
            &&& s2.bypass == s.bypass
            &&& s2.end_position == s.end_position
            &&& s2.files == s.files
        }),
    decreases w.len() - j,
{
    lemma_named(names, w.take(j), 0);
    if j == w.len() {
        assert(w.take(j) =~= w);
        assert(s.output.buffer + w.subrange(j, w.len() as int) =~= s.output.buffer);
    } else {
        assert(named(names, w.take(j), 0) is None);
        let c = w[j];
        assert(s.input.text[s.input.pos as int] == c);
        assert(w.take(j).push(c) =~= w.take(j + 1));
        assert(has_prefix(names[k], w.take(j + 1))) by {
            assert(names[k].subrange(0, j + 1) =~= w.take(j + 1));
        }
        lemma_any_prefixed(names, w.take(j + 1), k, 0);
        let s1 = s.write_char(c).step();
        lemma_match_name(s1, names, w, j + 1, k, end_tag);
        assert(s.output.buffer.push(c) + w.subrange(j + 1, w.len() as int) =~= s.output.buffer
            + w.subrange(j, w.len() as int));
    }
}


/// A parser that stands before one white space and something else behind
/// it steps over just the white space.
pub proof fn lemma_bypass_one_space(s: ParserView)
    requires
        s.input.wf(),
        s.input.pos + 1 < s.input.text.len(),
        spec_is_whitespace(s.input.text[s.input.pos as int]),
        !spec_is_whitespace(s.input.text[s.input.pos as int + 1]),
    ensures
        s.bypass_whitespace() == s.step(),
        s.bypass_whitespace_enforce_one() == (s.step(), true),
        s.buffer_whitespace() == s.write_char(s.input.text[s.input.pos as int]).step(),
        s.step().input.pos == s.input.pos + 1,
        s.step().input.wf(),
{
    let p = |c: char| !spec_is_whitespace(c);
    let q = |c: char| spec_is_whitespace(c);
    let s1 = s.step();
    assert(s1.input.current() == Some(s.input.text[s.input.pos as int + 1]));
    assert(s1.bypass_all_until(p) == s1);
    assert(s.bypass_all_until(p) == s1.bypass_all_until(p));
    let s2 = s.write_char(s.input.text[s.input.pos as int]).step();
    assert(s2.input.current() == Some(s.input.text[s.input.pos as int + 1]));
    assert(s2.buffer_all_while(q) == s2);
    assert(s.buffer_all_while(q) == s2.buffer_all_while(q));
}

/// A parser that stands before something other than white space steps
/// over nothing.
pub proof fn lemma_bypass_no_space(s: ParserView)
    requires
        s.input.wf(),
        s.input.pos < s.input.text.len(),
        !spec_is_whitespace(s.input.text[s.input.pos as int]),
    ensures
        s.bypass_whitespace() == s,
        s.buffer_whitespace() == s,
{
    let p = |c: char| !spec_is_whitespace(c);
    let q = |c: char| spec_is_whitespace(c);
    assert(s.bypass_all_until(p) == s);
    assert(s.buffer_all_while(q) == s);
}

/// The characters of a name are copied to the buffer up to the first
/// character that is none.
pub proof fn lemma_buffer_name(s: ParserView, rest: Seq<char>)
    requires
        s.input.wf(),
        s.input.pos + rest.len() < s.input.text.len(),
        forall|i: int| 0 <= i < rest.len() ==> s.input.text[s.input.pos as int + i] == rest[i],
        forall|i: int| 0 <= i < rest.len() ==> spec_is_name_char(#[trigger] rest[i]),
        !spec_is_name_char(s.input.text[s.input.pos as int + rest.len()]),
    ensures
        ({
            let s2 = s.buffer_all_while(|c: char| spec_is_name_char(c));
            &&& s2.input.wf()
            &&& s2.input.pos == s.input.pos + rest.len()
            &&& s2.output.buffer == s.output.buffer + rest
            &&& s2 == ParserView { input: s2.input, output: s2.output, ..s }
            &&& s2.output.content == s.output.content
            &&& s2.output.destination == s.output.destination
            &&& s2.input.text == s.input.text
            &&& s2.input.path == s.input.path
        }),
    decreases rest.len(),
{
    let p = |c: char| spec_is_name_char(c);
    if rest.len() == 0 {
        assert(s.buffer_all_while(p) == s);
        assert(s.output.buffer + rest =~= s.output.buffer);
    } else {
        let c = rest[0];
        assert(s.input.text[s.input.pos as int + 0] == rest[0]);
        let s1 = s.write_char(c).step();
        let tail = rest.subrange(1, rest.len() as int);
        assert forall|i: int| 0 <= i < tail.len() implies s1.input.text[s1.input.pos as int + i]
            == tail[i] by {
            assert(s.input.text[s.input.pos as int + (i + 1)] == rest[i + 1]);
        }
        assert forall|i: int| 0 <= i < tail.len() implies spec_is_name_char(
            #[trigger] tail[i],
        ) by {
            assert(tail[i] == rest[i + 1]);
        }
        lemma_buffer_name(s1, tail);
        assert(s.buffer_all_while(p) == s1.buffer_all_while(p));
        assert(s.output.buffer.push(c) + tail =~= s.output.buffer + rest);
    }
}

/// A comment that closes inside a part of a text closes at the same
/// place in the whole text.
pub proof fn lemma_comment_end_inside(t: Seq<char>, start: int, body: Seq<char>, i: int)
    requires
        0 <= start,
        start + body.len() <= t.len(),
        t.subrange(start, start + body.len()) =~= body,
        0 <= i,
        comment_end(body, i) is Some,
    ensures
        comment_end(t, start + i) == Some(start + comment_end(body, i)->0),
    decreases body.len() + 1 - i,
{
    if i < body.len() {
        assert(t[start + i] == body[i]) by {
            assert(t.subrange(start, start + body.len())[i] == t[start + i]);
        }
        if body[i] == '\\' {
            if i + 1 < body.len() {
                lemma_comment_end_inside(t, start, body, i + 2);
            }
        } else if i + 2 <= body.len() && body[i] == '#' && body[i + 1] == '}' {
            assert(t.subrange(start, start + body.len())[i + 1] == t[start + i + 1]);
        } else {
            if i + 1 < body.len() {
                assert(t.subrange(start, start + body.len())[i + 1] == t[start + i + 1]);
            }
            lemma_comment_end_inside(t, start, body, i + 1);
            if i + 2 <= t.len() && t[start + i] == '#' && start + i + 1 < t.len() && t[start + i
                + 1] == '}' {
                if i + 1 < body.len() {
                } else {
                    assert(comment_end(body, i + 1) is None);
                }
            }
        }
    }
}


/// Whether the characters of `w` stand in `t` from index `p` on.
pub open spec fn stands(t: Seq<char>, p: int, w: Seq<char>) -> bool {
    0 <= p && p + w.len() <= t.len() && forall|i: int| 0 <= i < w.len() ==> t[p + i] == w[i]
}

/// The end of a `set` block: `{% /set %}`.
pub open spec fn set_end() -> Seq<char> {
    seq!['{', '%', ' ', '/', 's', 'e', 't', ' ', '%', '}']
}

/// A part of the source that is quiet is copied to the content without its
/// comments, and the parser goes on behind it.
pub proof fn lemma_quiet_region(
    s: ParserView,
    depth: nat,
    start: int,
    body: Seq<char>,
    i: int,
) -> (s2: ParserView)
    requires
        s.input.wf(),
        !s.bypass,
        s.output.buffer.len() == 0,
        0 <= start,
        0 <= i <= body.len(),
        start + body.len() <= s.input.text.len(),
        s.input.text.subrange(start, start + body.len()) =~= body,
        s.input.pos == start + i,
        quiet(body, i),
        body.len() > 0 ==> body.last() != '{',
    ensures
        s.parse_pieces(depth) == s2.parse_pieces(depth),
        s2.input.wf(),
        s2.input.pos == start + body.len(),
        same_frame(s, s2),
        s2.output.buffer.len() == 0,
        s2.output.content == s.output.content + without_comments(body, i),
    decreases body.len() - i,
{
    let t = s.input.text;
    let before = s.input.remaining();
    if i >= body.len() {
        assert(s.output.content + without_comments(body, i) =~= s.output.content);
        s
    } else {
        let c = body[i];
        assert(t[start + i] == c) by {
            assert(t.subrange(start, start + body.len())[i] == t[start + i]);
        }
        if c == '{' {
            assert(i + 1 < body.len());
            let d = body[i + 1];
            assert(t[start + i + 1] == d) by {
                assert(t.subrange(start, start + body.len())[i + 1] == t[start + i + 1]);
            }
            let s1 = s.write_char(c).step();
            let (s2, r2) = s1.parse_bracket(depth);
            assert(s.parse_pieces(depth) == s2.after_piece(depth, r2, before));
            if d == '#' {
                let s3 = s1.push_step().0;
                assert(s3 == s1.write_char('#').step());
                let s4 = s3.clear_buffer();
                lemma_comment_end_bounds(body, i + 2);
                lemma_comment_end_inside(t, start, body, i + 2);
                lemma_skip_comment(s4);
                let j = comment_end(body, i + 2)->0;
                assert(s2 == s4.skip_comment().0);
                let s5 = s2.set_end_position(EndPosition::Eof);
                assert(s5.input.remaining() < before);
                assert(s5.output.content =~= s.output.content);
                let s6 = lemma_quiet_region(s5, depth, start, body, j);
                s6
            } else {
                assert(s2 == s1.flush());
                let s5 = s2.set_end_position(EndPosition::Eof);
                assert(s5.input.remaining() < before);
                assert(s5.output.content =~= s.output.content + seq!['{']);
                let s6 = lemma_quiet_region(s5, depth, start, body, i + 1);
                assert(s.output.content + seq!['{'] + without_comments(body, i + 1)
                    =~= s.output.content + without_comments(body, i));
                s6
            }
        } else {
            let s1 = s.write_char(c).step().flush();
            assert(s1.output.content =~= s.output.content + seq![c]);
            let s6 = lemma_quiet_region(s1, depth, start, body, i + 1);
            assert(s.output.content + seq![c] + without_comments(body, i + 1)
                =~= s.output.content + without_comments(body, i));
            s6
        }
    }
}

/// The name of the `set` tag.
pub open spec fn set_name() -> Seq<char> {
    seq!['s', 'e', 't']
}

/// The slash that opens an end tag.
pub open spec fn slash() -> Seq<char> {
    seq!['/']
}

/// What the tables of names hold of `set` and of the slash.
pub proof fn lemma_set_in_tables()
    ensures
        forall|i: int, n: int|
            0 <= i < 26 && 0 <= n < 3 ==> !(#[trigger] tag_names()[i] =~= #[trigger] set_name().take(
                n,
            )),
        forall|i: int| 0 <= i < 12 ==> !(#[trigger] tag_names()[i] =~= set_name()),
        forall|i: int| 0 <= i < 25 ==> !(#[trigger] tag_names()[i] =~= slash()),
        forall|i: int| 0 <= i < 26 ==> !(#[trigger] tag_names()[i] =~= Seq::<char>::empty()),
        tag_names()[12] =~= set_name(),
        tag_names()[25] =~= slash(),
        tag_at(12) == Tag::Open(Block::SetBlock),
        tag_at(25) == Tag::End,
        block_at(12) == Block::SetBlock,
{
    lemma_tag_names();
    let w = set_name();
    assert forall|i: int, n: int| 0 <= i < 26 && 0 <= n < 3 implies !(#[trigger] tag_names()[i]
        =~= #[trigger] w.take(n)) by {
        let name = tag_names()[i];
        if n == 0 {
            assert(w.take(0).len() == 0);
            assert(name.len() > 0);
        } else if n == 1 {
            assert(w.take(1).len() == 1);
            assert(name.len() == 1 ==> name[0] == '/');
            assert(w.take(1)[0] == 's');
        } else {
            assert(w.take(2).len() == 2);
            assert(w.take(2)[0] == 's');
            assert(name.len() == 2 ==> name[0] != 's');
        }
    }
    assert forall|i: int| 0 <= i < 12 implies !(#[trigger] tag_names()[i] =~= w) by {
        let name = tag_names()[i];
        assert(name.len() == 3 ==> name[0] != 's');
    }
    assert forall|i: int| 0 <= i < 25 implies !(#[trigger] tag_names()[i] =~= slash()) by {
        let name = tag_names()[i];
        assert(name.len() > 1);
    }
    assert forall|i: int| 0 <= i < 26 implies !(#[trigger] tag_names()[i] =~= Seq::<
        char,
    >::empty()) by {
        assert(tag_names()[i].len() > 0);
    }
}


/// What the table of blocks holds of `set`.
pub proof fn lemma_set_in_blocks()
    ensures
        block_names().len() == 14,
        forall|i: int, n: int|
            0 <= i < 14 && 0 <= n < 3 ==> !(#[trigger] block_names()[i]
                =~= #[trigger] set_name().take(n)),
        forall|i: int| 0 <= i < 12 ==> !(#[trigger] block_names()[i] =~= set_name()),
        block_names()[12] =~= set_name(),
{
    lemma_tag_names();
    lemma_set_in_tables();
    assert forall|i: int, n: int| 0 <= i < 14 && 0 <= n < 3 implies !(#[trigger] block_names()[i]
        =~= #[trigger] set_name().take(n)) by {
        assert(block_names()[i] == tag_names()[i]);
    }
    assert forall|i: int| 0 <= i < 12 implies !(#[trigger] block_names()[i] =~= set_name()) by {
        assert(block_names()[i] == tag_names()[i]);
    }
    assert(block_names()[12] == tag_names()[12]);
}

/// A parser that evaluates the body of a `set` and stands before
/// `{% /set %}` reads it and stops behind it; its content is as it was.
#[verifier::rlimit(40)]
pub proof fn lemma_set_end(s: ParserView, depth: nat) -> (s9: ParserView)
    requires
        s.input.wf(),
        !s.bypass,
        s.parse_until == ParseUntil::EndSet,
        stands(s.input.text, s.input.pos as int, set_end()),
    ensures
        s.parse_pieces(depth) == (s9, Ok::<(), ErrorView>(())),
        s9.input.wf(),
        s9.input.pos == s.input.pos + 10,
        same_frame(s, s9),
        s9.output.buffer.len() == 0,
        s9.output.content == s.output.content,
        s9.end_position == Some(EndPosition::SetBlock),
{
    let t = s.input.text;
    let p = s.input.pos as int;
    let w = set_end();
    assert(t[p + 0] == w[0] && t[p + 1] == w[1] && t[p + 2] == w[2] && t[p + 3] == w[3] && t[p + 4]
        == w[4] && t[p + 5] == w[5] && t[p + 6] == w[6] && t[p + 7] == w[7] && t[p + 8] == w[8]
        && t[p + 9] == w[9]);
    let before = s.input.remaining();
    let s1 = s.write_char('{').step();
    let s2 = s1.write_char('%').step();
    assert(s1.push_step().0 == s2);
    let s3 = s2.clear_buffer();
    lemma_bypass_one_space(s3);
    let s4 = s3.write_char(' ').step();
    assert(s3.buffer_whitespace() == s4);
    lemma_set_in_tables();
    lemma_tag_names();
    assert(slash().take(0) =~= Seq::<char>::empty());
    assert forall|i: int, n: int| 0 <= i < tag_names().len() && 0 <= n < slash().len() implies !(
    #[trigger] tag_names()[i] =~= #[trigger] slash().take(n)) by {
        assert(slash().take(n) =~= Seq::<char>::empty());
    }
    lemma_match_name(s4, tag_names(), slash(), 0, 25, false);
    let (s5, r5) = s4.match_name(tag_names(), Seq::empty(), false);
    assert(r5 == Ok::<usize, FlowView>(25usize));
    assert(s2.parse_tag(depth) == s5.dispatch(depth, tag_at(25)));
    assert(s5.dispatch(depth, Tag::End) == s5.parse_end());
    let s6 = s5.clear_buffer();
    lemma_bypass_no_space(s6);
    lemma_set_in_blocks();
    assert(set_name().take(0) =~= Seq::<char>::empty());
    assert forall|i: int| 0 <= i < 3 implies s6.input.text[s6.input.pos as int + i - 0]
        == set_name()[i] by {
        assert(t[p + 4 + i] == w[4 + i]);
    }
    lemma_match_name(s6, block_names(), set_name(), 0, 12, true);
    let (s7, r7) = s6.match_name(block_names(), Seq::empty(), true);
    assert(r7 == Ok::<usize, FlowView>(12usize));
    assert(s5.parse_end() == s7.end_block(block_at(12)));
    let s7c = s7.clear_buffer();
    lemma_bypass_one_space(s7c);
    let s8 = s7c.step();
    lemma_bypass_no_space(s8);
    let s8c = s8.step().step();
    let s9 = s8c.set_end_position(EndPosition::SetBlock);
    assert(s8.end_tag_expect_char("set"@, just('%')) == (s8.step(), Ok::<(), FlowView>(())));
    assert(s8.step().end_tag_expect_char("set"@, just('}')) == (s8c, Ok::<(), FlowView>(())));
    assert(s8.expect_end_of_end_tag("set"@) == (s8c, Ok::<(), FlowView>(())));
    assert(Block::SetBlock.spec_name() == "set"@);
    assert(Block::SetBlock.spec_end() == EndPosition::SetBlock);
    assert(s7.end_block(Block::SetBlock) == (s9, Err::<(), FlowView>(Ok(FlowControl::Break))));
    assert(s1.parse_bracket(depth) == s2.parse_tag(depth));
    assert(s.parse_pieces(depth) == s9.after_piece(
        depth,
        Err::<(), FlowView>(Ok(FlowControl::Break)),
        before,
    ));
    s9
}


/// The start of a `set` tag: `{% set `.
pub open spec fn set_start() -> Seq<char> {
    seq!['{', '%', ' ', 's', 'e', 't', ' ']
}

/// The end of a tag behind its last argument: ` %}`.
pub open spec fn tag_close() -> Seq<char> {
    seq![' ', '%', '}']
}

/// A name: `[A-Za-z_][A-Za-z0-9_.]*`.
pub open spec fn is_name(name: Seq<char>) -> bool {
    &&& name.len() > 0
    &&& spec_is_name_start(name[0])
    &&& forall|i: int| 0 <= i < name.len() ==> spec_is_name_char(#[trigger] name[i])
}

/// What `set` does behind its tag: its body is rendered by a child, and
/// the name is bound to what the child rendered.
pub open spec fn set_body(head: ParserView, depth: nat, name: Seq<char>) -> (
    ParserView,
    StepView<()>,
) {
    let (s3, r3) = head.parse_child(depth, ParseUntil::EndSet);
    match r3 {
        Err(e) => (s3, Err(Err(e))),
        Ok(content) => (
            s3.with_context(s3.context.add_variable(name, s3.input.path, content)),
            Ok(()),
        ),
    }
}

/// A parser that evaluates and stands before `{% set name %}` reads the
/// tag and goes on with the body of the block.
#[verifier::rlimit(40)]
pub proof fn lemma_set_start(s: ParserView, depth: nat, name: Seq<char>) -> (head: ParserView)
    requires
        s.input.wf(),
        !s.bypass,
        is_name(name),
        stands(s.input.text, s.input.pos as int, set_start() + name + tag_close()),
    ensures
        s.parse_pieces(depth) == set_body(head, depth, name).0.after_piece(
            depth,
            set_body(head, depth, name).1,
            s.input.remaining(),
        ),
        head.input.wf(),
        head.input.pos == s.input.pos + 10 + name.len(),
        same_frame(s, head),
        head.output.buffer.len() == 0,
        head.output.content == s.output.content,
        head.end_position == s.end_position,
{
    let t = s.input.text;
    let p = s.input.pos as int;
    let w = set_start() + name + tag_close();
    let n = name.len() as int;
    assert(w.len() == 10 + n);
    assert forall|i: int| 0 <= i < 7 implies t[p + i] == set_start()[i] by {
        assert(t[p + i] == w[i]);
    }
    assert forall|i: int| 0 <= i < n implies t[p + 7 + i] == name[i] by {
        assert(t[p + (7 + i)] == w[7 + i]);
    }
    assert forall|i: int| 0 <= i < 3 implies t[p + 7 + n + i] == tag_close()[i] by {
        assert(t[p + (7 + n + i)] == w[7 + n + i]);
    }
    assert(t[p + 0] == '{' && t[p + 1] == '%' && t[p + 2] == ' ' && t[p + 3] == 's' && t[p + 4]
        == 'e' && t[p + 5] == 't' && t[p + 6] == ' ');
    assert(t[p + 7 + n + 0] == ' ' && t[p + 7 + n + 1] == '%' && t[p + 7 + n + 2] == '}');
    assert(t[p + 7 + 0] == name[0]);
    let s1 = s.write_char('{').step();
    let s2 = s1.write_char('%').step();
    assert(s1.push_step().0 == s2);
    let s3 = s2.clear_buffer();
    lemma_bypass_one_space(s3);
    let s4 = s3.write_char(' ').step();
    lemma_set_in_tables();
    lemma_tag_names();
    assert(set_name().take(0) =~= Seq::<char>::empty());
    assert forall|i: int| 0 <= i < 3 implies s4.input.text[s4.input.pos as int + i - 0]
        == set_name()[i] by {
        assert(t[p + 3 + i] == set_start()[3 + i]);
    }
    lemma_match_name(s4, tag_names(), set_name(), 0, 12, false);
    let (s5, r5) = s4.match_name(tag_names(), Seq::empty(), false);
    assert(r5 == Ok::<usize, FlowView>(12usize));
    assert(s2.parse_tag(depth) == s5.dispatch(depth, tag_at(12)));
    assert(s5.dispatch(depth, Tag::Open(Block::SetBlock)) == s5.parse_block(
        depth,
        Block::SetBlock,
    ));
    assert(s5.parse_block(depth, Block::SetBlock) == s5.parse_set(depth));
    lemma_bypass_one_space(s5);
    let s6 = s5.step().clear_buffer();
    let s6c = s6.clear_buffer();
    lemma_bypass_no_space(s6c);
    let s7 = s6c.write_char(name[0]).step();
    assert(s6c.tag_expect_buffer_char("set"@, |c: char| spec_is_name_start(c)) == (
        s7,
        Ok::<(), FlowView>(()),
    ));
    let rest = name.subrange(1, n);
    assert forall|i: int| 0 <= i < rest.len() implies s7.input.text[s7.input.pos as int + i]
        == rest[i] by {
        assert(t[p + 7 + (i + 1)] == name[i + 1]);
    }
    assert forall|i: int| 0 <= i < rest.len() implies spec_is_name_char(#[trigger] rest[i]) by {
        assert(rest[i] == name[i + 1]);
    }
    lemma_buffer_name(s7, rest);
    let s8 = s7.buffer_all_while(|c: char| spec_is_name_char(c));
    assert(s8.output.buffer =~= name) by {
        assert(s7.output.buffer =~= seq![name[0]]);
        assert(seq![name[0]] + rest =~= name);
    }
    let s9 = s8.take_buffer();
    assert(s6.parse_variable_name("set"@) == (s9, Ok::<Seq<char>, FlowView>(name)));
    lemma_bypass_one_space(s9);
    let s10 = s9.step();
    let head = s10.step().step();
    assert(s10.tag_expect_char("set"@, just('%')) == (s10.step(), Ok::<(), FlowView>(())));
    assert(s10.step().tag_expect_char("set"@, just('}')) == (head, Ok::<(), FlowView>(())));
    assert(s9.expect_end_of_tag("set"@) == (head, Ok::<(), FlowView>(())));
    assert(s5.parse_set(depth) == set_body(head, depth, name));
    assert(s1.parse_bracket(depth) == s2.parse_tag(depth));
    head
}


/// The end of a block: `{% /name %}`.
pub open spec fn block_end(name: Seq<char>) -> Seq<char> {
    seq!['{', '%', ' ', '/'] + name + seq![' ', '%', '}']
}

/// A parser that evaluates the body of a block and stands before the end
/// of that block reads it and stops behind it; its content is as it was.
#[verifier::rlimit(40)]
pub proof fn lemma_block_end(s: ParserView, depth: nat, block: Block, k: int) -> (s9: ParserView)
    requires
        s.input.wf(),
        !s.bypass,
        s.parse_until == block.spec_until(),
        stands(s.input.text, s.input.pos as int, block_end(block.spec_name())),
        0 <= k < 14,
        block_at(k) == block,
        block.spec_name().len() > 0,
        !spec_is_whitespace(block.spec_name()[0]),
        forall|i: int| 0 <= i < k ==> !(#[trigger] block_names()[i] =~= block.spec_name()),
        forall|i: int, n: int|
            0 <= i < 14 && 0 <= n < block.spec_name().len() ==> !(#[trigger] block_names()[i]
                =~= #[trigger] block.spec_name().take(n)),
    ensures
        s.parse_pieces(depth) == (s9, Ok::<(), ErrorView>(())),
        s9.input.wf(),
        s9.input.pos == s.input.pos + block_end(block.spec_name()).len(),
        same_frame(s, s9),
        s9.output.buffer.len() == 0,
        s9.output.content == s.output.content,
        s9.end_position == Some(block.spec_end()),
{
    let t = s.input.text;
    let p = s.input.pos as int;
    let name = block.spec_name();
    let n = name.len() as int;
    let w = block_end(name);
    assert(w.len() == 7 + n);
    assert(t[p + 0] == w[0] && t[p + 1] == w[1] && t[p + 2] == w[2] && t[p + 3] == w[3]);
    assert forall|i: int| 0 <= i < n implies t[p + 4 + i] == name[i] by {
        assert(t[p + (4 + i)] == w[4 + i]);
    }
    assert(t[p + 4 + n + 0] == ' ' && t[p + 4 + n + 1] == '%' && t[p + 4 + n + 2] == '}') by {
        assert(t[p + (4 + n)] == w[4 + n]);
        assert(t[p + (4 + n + 1)] == w[4 + n + 1]);
        assert(t[p + (4 + n + 2)] == w[4 + n + 2]);
    }
    assert(t[p + 4 + 0] == name[0]);
    let before = s.input.remaining();
    let s1 = s.write_char('{').step();
    let s2 = s1.write_char('%').step();
    assert(s1.push_step().0 == s2);
    let s3 = s2.clear_buffer();
    lemma_bypass_one_space(s3);
    let s4 = s3.write_char(' ').step();
    assert(s3.buffer_whitespace() == s4);
    lemma_set_in_tables();
    lemma_tag_names();
    assert(slash().take(0) =~= Seq::<char>::empty());
    assert forall|i: int, m: int| 0 <= i < tag_names().len() && 0 <= m < slash().len() implies !(
    #[trigger] tag_names()[i] =~= #[trigger] slash().take(m)) by {
        assert(slash().take(m) =~= Seq::<char>::empty());
    }
    lemma_match_name(s4, tag_names(), slash(), 0, 25, false);
    let (s5, r5) = s4.match_name(tag_names(), Seq::empty(), false);
    assert(r5 == Ok::<usize, FlowView>(25usize));
    assert(s2.parse_tag(depth) == s5.dispatch(depth, tag_at(25)));
    assert(s5.dispatch(depth, Tag::End) == s5.parse_end());
    let s6 = s5.clear_buffer();
    lemma_bypass_no_space(s6);
    assert(name.take(0) =~= Seq::<char>::empty());
    assert(block_names()[k] == name);
    lemma_match_name(s6, block_names(), name, 0, k, true);
    let (s7, r7) = s6.match_name(block_names(), Seq::empty(), true);
    assert(r7 == Ok::<usize, FlowView>(k as usize));
    assert(s5.parse_end() == s7.end_block(block_at(k)));
    assert(name.subrange(0, n) =~= name);
    let s7c = s7.clear_buffer();
    lemma_bypass_one_space(s7c);
    let s8 = s7c.step();
    lemma_bypass_no_space(s8);
    let s8c = s8.step().step();
    let s9 = s8c.set_end_position(block.spec_end());
    assert(s8.end_tag_expect_char(name, just('%')) == (s8.step(), Ok::<(), FlowView>(())));
    assert(s8.step().end_tag_expect_char(name, just('}')) == (s8c, Ok::<(), FlowView>(())));
    assert(s8.expect_end_of_end_tag(name) == (s8c, Ok::<(), FlowView>(())));
    assert(s7.end_block(block) == (s9, Err::<(), FlowView>(Ok(FlowControl::Break))));
    assert(s1.parse_bracket(depth) == s2.parse_tag(depth));
    assert(s.parse_pieces(depth) == s9.after_piece(
        depth,
        Err::<(), FlowView>(Ok(FlowControl::Break)),
        before,
    ));
    s9
}

/// What the table of blocks holds of the four loops.
pub proof fn lemma_loops_in_blocks(kind: crate::parser::loops::LoopKind)
    ensures
        ({
            let block = kind.spec_block();
            let k = match kind {
                crate::parser::loops::LoopKind::Fordir => 3int,
                crate::parser::loops::LoopKind::Foreach => 4int,
                crate::parser::loops::LoopKind::Forfile => 5int,
                crate::parser::loops::LoopKind::Forsplit => 6int,
            };
            &&& block_at(k) == block
            &&& block.spec_name().len() > 0
            &&& !spec_is_whitespace(block.spec_name()[0])
            &&& forall|i: int| 0 <= i < k ==> !(#[trigger] block_names()[i] =~= block.spec_name())
            &&& forall|i: int, n: int|
                0 <= i < 14 && 0 <= n < block.spec_name().len() ==> !(#[trigger] block_names()[i]
                    =~= #[trigger] block.spec_name().take(n))
        }),
{
    lemma_tag_names();
    let block = kind.spec_block();
    let name = block.spec_name();
    assert(name[0] == 'f' && name[1] == 'o' && name[2] == 'r');
    assert(name.len() >= 6);
    assert forall|i: int, n: int| 0 <= i < 14 && 0 <= n < name.len() implies !(
    #[trigger] block_names()[i] =~= #[trigger] name.take(n)) by {
        let other = block_names()[i];
        assert(other == tag_names()[i]);
        let prefix = name.take(n);
        assert(prefix.len() == n);
        if other.len() == n {
            if n == 0 {
            } else if n == 1 {
                assert(false);
            } else if n == 2 {
                assert(prefix[0] == 'f' && prefix[1] == 'o');
                assert(other[0] != 'f' || other[1] != 'o');
            } else if n == 3 {
                assert(prefix[0] == 'f');
                assert(other[0] != 'f');
            } else {
                assert(prefix[0] == 'f' && prefix[1] == 'o' && prefix[2] == 'r');
                assert(other[0] == 'f' && other[1] == 'o' && other[2] == 'r' ==> 3 <= i <= 6);
                if 3 <= i <= 6 {
                    assert(prefix[3] == name[3]);
                    if other.len() < name.len() {
                        assert(other[3] != name[3]);
                    } else {
                        assert(n < name.len());
                    }
                }
            }
        }
    }
    assert forall|i: int| 0 <= i < 6 && block_names()[i] =~= name implies block_at(i)
        == block by {
        assert(block_names()[i] == tag_names()[i]);
        assert(name[3] == block_names()[i][3]);
    }
}

} // verus!
