//! Reading writes nothing. The steps that read the arguments of a tag use
//! the buffer as their scratch pad and move the input on; the content, the
//! destination and the context are as they were. Tags that render only once
//! all their parts are read state from this that they append nothing where
//! they fail.

use crate::laws::same_frame;
use crate::parser::ParserView;
use vstd::prelude::*;

verus! {

/// Whether nothing was rendered or bound between `a` and `b`: they differ
/// at most in the place of the input, in the buffer and in the end
/// position.
pub open spec fn only_read(a: ParserView, b: ParserView) -> bool {
    &&& same_frame(a, b)
    &&& b.output.content == a.output.content
}

pub broadcast proof fn lemma_buffer_all_while_reads(s: ParserView, p: spec_fn(char) -> bool)
    ensures
        only_read(s, #[trigger] s.buffer_all_while(p)),
    decreases s.input.remaining(),
{
    match s.input.current() {
        Some(c) => if p(c) {
            lemma_buffer_all_while_reads(s.write_char(c).step(), p);
        },
        None => {},
    }
}

pub broadcast proof fn lemma_buffer_all_until_reads(s: ParserView, p: spec_fn(char) -> bool)
    ensures
        only_read(s, #[trigger] s.buffer_all_until(p)),
    decreases s.input.remaining(),
{
    match s.input.current() {
        Some(c) => if !p(c) {
            lemma_buffer_all_until_reads(s.write_char(c).step(), p);
        },
        None => {},
    }
}

pub broadcast proof fn lemma_bypass_all_until_reads(s: ParserView, p: spec_fn(char) -> bool)
    ensures
        only_read(s, #[trigger] s.bypass_all_until(p)),
    decreases s.input.remaining(),
{
    match s.input.current() {
        Some(c) => if !p(c) {
            lemma_bypass_all_until_reads(s.step(), p);
        },
        None => {},
    }
}

pub broadcast group group_reads {
    lemma_buffer_all_while_reads,
    lemma_buffer_all_until_reads,
    lemma_bypass_all_until_reads,
}

/// Reading the inside of a quoted text writes nothing.
pub proof fn lemma_text_body_reads(s: ParserView, tag: Seq<char>)
    ensures
        only_read(s, s.text_body(tag).0),
    decreases s.input.remaining(),
{
    broadcast use group_reads;

    let a = s.buffer_all_until(|c: char| c == '"' || c == '\\');
    match a.current() {
        None => {},
        Some(c) => if c != '"' {
            let s1 = a.step();
            match s1.current() {
                None => {},
                Some(d) => {
                    let s2 = if d == '"' {
                        s1.write_char(d).step()
                    } else {
                        s1.write_char('\\').write_char(d).step()
                    };
                    if s2.input.remaining() < s.input.remaining() {
                        lemma_text_body_reads(s2, tag);
                    }
                },
            }
        },
    }
}

/// Reading a value (a quoted text, a number or a variable) writes nothing,
/// whether it succeeds or not.
pub proof fn lemma_value_reads(s: ParserView, tag: Seq<char>)
    ensures
        only_read(s, s.parse_value(tag).0),
        only_read(s, s.parse_value_as_number(tag).0),
{
    broadcast use group_reads;

    let s1 = s.clear_buffer().tag_expect_char(tag, crate::parser::steps::just('"')).0;
    lemma_text_body_reads(s1, tag);
}

/// Reading a name writes nothing.
pub proof fn lemma_name_reads(s: ParserView, tag: Seq<char>)
    ensures
        only_read(s, s.parse_variable_name(tag).0),
{
    broadcast use group_reads;

}

/// Reading the end of a tag writes nothing.
pub proof fn lemma_end_of_tag_reads(s: ParserView, tag: Seq<char>)
    ensures
        only_read(s, s.expect_end_of_tag(tag).0),
{
    broadcast use group_reads;

}

/// Failing on the name of a tag writes nothing.
pub proof fn lemma_unknown_tag_reads(s: ParserView)
    ensures
        only_read(s, s.unknown_tag().0),
{
    broadcast use group_reads;

}

/// Reading the head of a tag that takes one number, up to the end of the
/// tag, writes nothing, wherever it stops.
pub proof fn lemma_operand_reads(s: ParserView, tag: Seq<char>)
    ensures
        ({
            let s0 = s.bypass_whitespace_enforce_one().0;
            let s1 = s0.clear_buffer().parse_value_as_number(tag).0;
            let s2 = s1.expect_end_of_tag(tag).0;
            &&& only_read(s, s0)
            &&& only_read(s, s0.unknown_tag().0)
            &&& only_read(s, s1)
            &&& only_read(s, s2)
        }),
{
    broadcast use group_reads;

    let s0 = s.bypass_whitespace_enforce_one().0;
    lemma_unknown_tag_reads(s0);
    lemma_value_reads(s0.clear_buffer(), tag);
    let s1 = s0.clear_buffer().parse_value_as_number(tag).0;
    lemma_end_of_tag_reads(s1, tag);
}

/// Reading the head of a tag that takes one name, up to the end of the
/// tag, writes nothing, wherever it stops.
pub proof fn lemma_named_head_reads(s: ParserView, tag: Seq<char>)
    ensures
        ({
            let s0 = s.bypass_whitespace_enforce_one().0;
            let s1 = s0.clear_buffer().parse_variable_name(tag).0;
            let s2 = s1.expect_end_of_tag(tag).0;
            &&& only_read(s, s0)
            &&& only_read(s, s0.unknown_tag().0)
            &&& only_read(s, s1)
            &&& only_read(s, s2)
        }),
{
    broadcast use group_reads;

    let s0 = s.bypass_whitespace_enforce_one().0;
    lemma_unknown_tag_reads(s0);
    lemma_name_reads(s0.clear_buffer(), tag);
    let s1 = s0.clear_buffer().parse_variable_name(tag).0;
    lemma_end_of_tag_reads(s1, tag);
}

} // verus!
