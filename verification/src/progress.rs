//! Progress: no step of the parser moves its input backwards or changes its
//! text or its path. The models of the loops go on only where a round has
//! left less of the source than there was, which is what makes them well
//! defined; the laws here show that every round does, so that the loops
//! themselves need not look.

use crate::context::CtxView;
use crate::parser::arith::Operation;
use crate::parser::if_parser::{IfState, Onward, TermEnd};
use crate::parser::loops::{LoopKind, LoopView};
use crate::parser::steps::just;
use crate::parser::tags::{Block, PathPart, Simple, Tag};
use crate::parser::{EndPosition, FlowControl, ParseUntil, ParserView, StepView};
use vstd::prelude::*;

verus! {

/// Whether `b` reads the text of `a`, a source of the same path, at the
/// place of `a` or behind it.
pub open spec fn advances(a: ParserView, b: ParserView) -> bool {
    &&& b.input.wf()
    &&& b.input.text == a.input.text
    &&& b.input.path == a.input.path
    &&& b.input.pos >= a.input.pos
}

pub broadcast proof fn lemma_step(s: ParserView)
    requires
        s.input.wf(),
    ensures
        advances(s, #[trigger] s.step()),
        s.input.pos < s.input.text.len() ==> s.step().input.pos == s.input.pos + 1,
{
}

pub broadcast proof fn lemma_buffer_all_while(s: ParserView, p: spec_fn(char) -> bool)
    requires
        s.input.wf(),
    ensures
        advances(s, #[trigger] s.buffer_all_while(p)),
    decreases s.input.remaining(),
{
    match s.input.current() {
        Some(c) => if p(c) {
            lemma_buffer_all_while(s.write_char(c).step(), p);
        },
        None => {},
    }
}

pub broadcast proof fn lemma_buffer_all_until(s: ParserView, p: spec_fn(char) -> bool)
    requires
        s.input.wf(),
    ensures
        advances(s, #[trigger] s.buffer_all_until(p)),
    decreases s.input.remaining(),
{
    match s.input.current() {
        Some(c) => if !p(c) {
            lemma_buffer_all_until(s.write_char(c).step(), p);
        },
        None => {},
    }
}

pub broadcast proof fn lemma_bypass_all_until(s: ParserView, p: spec_fn(char) -> bool)
    requires
        s.input.wf(),
    ensures
        advances(s, #[trigger] s.bypass_all_until(p)),
    decreases s.input.remaining(),
{
    match s.input.current() {
        Some(c) => if !p(c) {
            lemma_bypass_all_until(s.step(), p);
        },
        None => {},
    }
}

pub broadcast proof fn lemma_buffer_count(s: ParserView, n: nat)
    requires
        s.input.wf(),
    ensures
        advances(s, #[trigger] s.buffer_count(n)),
    decreases n,
{
    if n > 0 {
        match s.current() {
            Some(c) => lemma_buffer_count(s.write_char(c).step(), (n - 1) as nat),
            None => {},
        }
    }
}

pub broadcast proof fn lemma_buffer_all_until_sequence(s: ParserView, tag: Seq<char>, seq: Seq<char>)
    requires
        s.input.wf(),
    ensures
        advances(s, (#[trigger] s.buffer_all_until_sequence(tag, seq)).0),
    decreases s.input.remaining(),
{
    if seq.len() > 0 {
        match s.input.current() {
            None => {},
            Some(c) => if c == '\\' {
                let s1 = s.write_char(c).step();
                match s1.input.current() {
                    None => {},
                    Some(d) => lemma_buffer_all_until_sequence(s1.write_char(d).step(), tag, seq),
                }
            } else if s.at_sequence(seq) {
                lemma_buffer_count(s, seq.len());
            } else {
                lemma_buffer_all_until_sequence(s.write_char(c).step(), tag, seq);
            },
        }
    }
}

pub broadcast group group_runs {
    lemma_step,
    lemma_buffer_all_while,
    lemma_buffer_all_until,
    lemma_bypass_all_until,
    lemma_buffer_count,
    lemma_buffer_all_until_sequence,
}

pub broadcast proof fn lemma_bypass_whitespace(s: ParserView)
    requires
        s.input.wf(),
    ensures
        advances(s, #[trigger] s.bypass_whitespace()),
{
    broadcast use group_runs;
}

pub broadcast proof fn lemma_buffer_whitespace(s: ParserView)
    requires
        s.input.wf(),
    ensures
        advances(s, #[trigger] s.buffer_whitespace()),
{
    broadcast use group_runs;
}

pub broadcast proof fn lemma_bypass_whitespace_enforce_one(s: ParserView)
    requires
        s.input.wf(),
    ensures
        advances(s, (#[trigger] s.bypass_whitespace_enforce_one()).0),
{
    broadcast use group_runs;
}

pub broadcast proof fn lemma_buffer_whitespace_enforce_one(s: ParserView)
    requires
        s.input.wf(),
    ensures
        advances(s, (#[trigger] s.buffer_whitespace_enforce_one()).0),
{
    broadcast use group_runs;
}

pub broadcast proof fn lemma_push_step(s: ParserView)
    requires
        s.input.wf(),
    ensures
        advances(s, (#[trigger] s.push_step()).0),
        s.push_step().1 is Ok ==> s.push_step().0.input.pos > s.input.pos,
{
    broadcast use group_runs;
}

pub broadcast proof fn lemma_buffer_rest_of_tagname(s: ParserView)
    requires
        s.input.wf(),
    ensures
        advances(s, (#[trigger] s.buffer_rest_of_tagname()).0),
{
    broadcast use group_runs;
}

pub broadcast proof fn lemma_tag_expect_char(s: ParserView, tag: Seq<char>, p: spec_fn(char) -> bool)
    requires
        s.input.wf(),
    ensures
        advances(s, (#[trigger] s.tag_expect_char(tag, p)).0),
        s.tag_expect_char(tag, p).1 is Ok ==> s.tag_expect_char(tag, p).0.input.pos > s.input.pos,
{
    broadcast use group_runs;
}

pub broadcast proof fn lemma_tag_expect_buffer_char(s: ParserView, tag: Seq<char>, p: spec_fn(char) -> bool)
    requires
        s.input.wf(),
    ensures
        advances(s, (#[trigger] s.tag_expect_buffer_char(tag, p)).0),
        s.tag_expect_buffer_char(tag, p).1 is Ok ==> s.tag_expect_buffer_char(tag, p).0.input.pos
            > s.input.pos,
{
    broadcast use group_runs;
}

pub broadcast proof fn lemma_end_tag_expect_char(s: ParserView, tag: Seq<char>, p: spec_fn(char) -> bool)
    requires
        s.input.wf(),
    ensures
        advances(s, (#[trigger] s.end_tag_expect_char(tag, p)).0),
{
    broadcast use group_runs;
}

pub broadcast proof fn lemma_end_tag_expect_buffer_char(s: ParserView, tag: Seq<char>, p: spec_fn(char) -> bool)
    requires
        s.input.wf(),
    ensures
        advances(s, (#[trigger] s.end_tag_expect_buffer_char(tag, p)).0),
{
    broadcast use group_runs;
}

pub broadcast group group_chars {
    lemma_bypass_whitespace,
    lemma_buffer_whitespace,
    lemma_bypass_whitespace_enforce_one,
    lemma_buffer_whitespace_enforce_one,
    lemma_push_step,
    lemma_buffer_rest_of_tagname,
    lemma_tag_expect_char,
    lemma_tag_expect_buffer_char,
    lemma_end_tag_expect_char,
    lemma_end_tag_expect_buffer_char,
}

pub broadcast proof fn lemma_fail_tagname(s: ParserView, kind: crate::error::ErrorKind, head: Seq<char>)
    requires
        s.input.wf(),
    ensures
        advances(s, (#[trigger] s.fail_tagname(kind, head)).0),
{
    broadcast use group_runs;
    broadcast use group_chars;
}

pub broadcast proof fn lemma_current_or_unexpected_eof_in_tag(s: ParserView)
    requires
        s.input.wf(),
    ensures
        advances(s, (#[trigger] s.current_or_unexpected_eof_in_tag()).0),
{
    broadcast use group_runs;
    broadcast use group_chars;
}

pub broadcast proof fn lemma_expect_end_of_self_close_tag(s: ParserView, tag: Seq<char>)
    requires
        s.input.wf(),
    ensures
        advances(s, (#[trigger] s.expect_end_of_self_close_tag(tag)).0),
{
    broadcast use group_runs;
    broadcast use group_chars;
}

pub broadcast proof fn lemma_expect_end_of_tag(s: ParserView, tag: Seq<char>)
    requires
        s.input.wf(),
    ensures
        advances(s, (#[trigger] s.expect_end_of_tag(tag)).0),
{
    broadcast use group_runs;
    broadcast use group_chars;
}

pub broadcast proof fn lemma_expect_end_of_end_tag(s: ParserView, tag: Seq<char>)
    requires
        s.input.wf(),
    ensures
        advances(s, (#[trigger] s.expect_end_of_end_tag(tag)).0),
{
    broadcast use group_runs;
    broadcast use group_chars;
}

pub broadcast proof fn lemma_expect_end_of_tag_buffer(s: ParserView, tag: Seq<char>)
    requires
        s.input.wf(),
    ensures
        advances(s, (#[trigger] s.expect_end_of_tag_buffer(tag)).0),
{
    broadcast use group_runs;
    broadcast use group_chars;
}

pub broadcast proof fn lemma_expect_end_of_end_tag_buffer(s: ParserView, tag: Seq<char>)
    requires
        s.input.wf(),
    ensures
        advances(s, (#[trigger] s.expect_end_of_end_tag_buffer(tag)).0),
{
    broadcast use group_runs;
    broadcast use group_chars;
}

pub broadcast proof fn lemma_parse_variable_name(s: ParserView, tag: Seq<char>)
    requires
        s.input.wf(),
    ensures
        advances(s, (#[trigger] s.parse_variable_name(tag)).0),
        s.parse_variable_name(tag).1 is Ok ==> s.parse_variable_name(tag).0.input.pos
            > s.input.pos,
{
    broadcast use group_runs;
    broadcast use group_chars;
}

pub broadcast proof fn lemma_parse_number(s: ParserView, tag: Seq<char>)
    requires
        s.input.wf(),
    ensures
        advances(s, (#[trigger] s.parse_number(tag)).0),
        s.parse_number(tag).1 is Ok ==> s.parse_number(tag).0.input.pos > s.input.pos,
{
    broadcast use group_runs;
    broadcast use group_chars;
}

pub broadcast group group_names {
    lemma_fail_tagname,
    lemma_current_or_unexpected_eof_in_tag,
    lemma_expect_end_of_self_close_tag,
    lemma_expect_end_of_tag,
    lemma_expect_end_of_end_tag,
    lemma_expect_end_of_tag_buffer,
    lemma_expect_end_of_end_tag_buffer,
    lemma_parse_variable_name,
    lemma_parse_number,
}

pub broadcast proof fn lemma_text_body(s: ParserView, tag: Seq<char>)
    requires
        s.input.wf(),
    ensures
        advances(s, (#[trigger] s.text_body(tag)).0),
    decreases s.input.remaining(),
{
    broadcast use group_runs;

    let a = s.buffer_all_until(|c: char| c == '"' || c == '\\');
    match a.current() {
        None => {},
        Some(c) => if c != '"' {
            let s1 = a.step();
            match s1.current() {
                None => {},
                Some(d) => {
                    let s2 = if d == '"' {
                        s1.write_char(d).step()
                    } else {
                        s1.write_char('\\').write_char(d).step()
                    };
                    if s2.input.remaining() < s.input.remaining() {
                        lemma_text_body(s2, tag);
                    }
                },
            }
        },
    }
}

/// A round of the loop that reads a quoted text moves on.
pub proof fn law_text_moves_on(s: ParserView, tag: Seq<char>)
    requires
        s.input.wf(),
    ensures
        ({
            let a = s.buffer_all_until(|c: char| c == '"' || c == '\\');
            let s1 = a.step();
            a.current() is Some && s1.current() is Some ==> {
                &&& s1.write_char(s1.current()->0).step().input.remaining() < s.input.remaining()
                &&& s1.write_char('\\').write_char(s1.current()->0).step().input.remaining()
                    < s.input.remaining()
            }
        }),
{
    broadcast use group_runs;

}

pub broadcast proof fn lemma_parse_text_string(s: ParserView, tag: Seq<char>)
    requires
        s.input.wf(),
    ensures
        advances(s, (#[trigger] s.parse_text_string(tag)).0),
        s.parse_text_string(tag).1 is Ok ==> s.parse_text_string(tag).0.input.pos > s.input.pos,
{
    broadcast use group_runs;
    broadcast use group_chars;
    broadcast use lemma_text_body;

}

pub broadcast proof fn lemma_parse_text_as_path(s: ParserView, tag: Seq<char>)
    requires
        s.input.wf(),
    ensures
        advances(s, (#[trigger] s.parse_text_as_path(tag)).0),
        s.parse_text_as_path(tag).1 is Ok ==> s.parse_text_as_path(tag).0.input.pos
            > s.input.pos,
{
    broadcast use lemma_parse_text_string;

}

pub broadcast proof fn lemma_parse_variable(s: ParserView, tag: Seq<char>)
    requires
        s.input.wf(),
    ensures
        advances(s, (#[trigger] s.parse_variable(tag)).0),
        s.parse_variable(tag).1 is Ok ==> s.parse_variable(tag).0.input.pos > s.input.pos,
{
    broadcast use group_names;

}

pub broadcast proof fn lemma_parse_variable_as_path(s: ParserView, tag: Seq<char>)
    requires
        s.input.wf(),
    ensures
        advances(s, (#[trigger] s.parse_variable_as_path(tag)).0),
        s.parse_variable_as_path(tag).1 is Ok ==> s.parse_variable_as_path(tag).0.input.pos
            > s.input.pos,
{
    broadcast use group_names;

}

pub broadcast proof fn lemma_parse_value(s: ParserView, tag: Seq<char>)
    requires
        s.input.wf(),
    ensures
        advances(s, (#[trigger] s.parse_value(tag)).0),
        s.parse_value(tag).1 is Ok ==> s.parse_value(tag).0.input.pos > s.input.pos,
{
    broadcast use group_names;
    broadcast use lemma_parse_text_string;
    broadcast use lemma_parse_variable;

}

pub broadcast proof fn lemma_parse_value_as_path(s: ParserView, tag: Seq<char>)
    requires
        s.input.wf(),
    ensures
        advances(s, (#[trigger] s.parse_value_as_path(tag)).0),
        s.parse_value_as_path(tag).1 is Ok ==> s.parse_value_as_path(tag).0.input.pos
            > s.input.pos,
{
    broadcast use lemma_parse_text_as_path;
    broadcast use lemma_parse_variable_as_path;

}

pub broadcast proof fn lemma_parse_value_as_number(s: ParserView, tag: Seq<char>)
    requires
        s.input.wf(),
    ensures
        advances(s, (#[trigger] s.parse_value_as_number(tag)).0),
        s.parse_value_as_number(tag).1 is Ok ==> s.parse_value_as_number(tag).0.input.pos
            > s.input.pos,
{
    broadcast use lemma_parse_value;

}

pub broadcast proof fn lemma_list_separator(s: ParserView, tag: Seq<char>, first: bool)
    requires
        s.input.wf(),
    ensures
        advances(s, (#[trigger] s.list_separator(tag, first)).0),
{
    broadcast use group_chars;

}

pub broadcast group group_values {
    lemma_text_body,
    lemma_parse_text_string,
    lemma_parse_text_as_path,
    lemma_parse_variable,
    lemma_parse_variable_as_path,
    lemma_parse_value,
    lemma_parse_value_as_path,
    lemma_parse_value_as_number,
    lemma_list_separator,
}

pub broadcast proof fn lemma_function_args_rest(s: ParserView, tag: Seq<char>, names: Seq<Seq<char>>)
    requires
        s.input.wf(),
    ensures
        advances(s, (#[trigger] s.function_args_rest(tag, names)).0),
    decreases s.input.remaining(),
{
    broadcast use group_chars;
    broadcast use group_names;
    broadcast use group_values;

    match s.tag_current_or_unexpected_eof(tag) {
        Err(e) => {},
        Ok(c) => if c != ')' {
            let (s1, r1) = s.list_separator(tag, names.len() == 0);
            if r1 is Ok {
                let (s2, r2) = s1.parse_variable_name(tag);
                if r2 is Ok {
                    let s3 = s2.bypass_whitespace();
                    if s3.input.remaining() < s.input.remaining() {
                        lemma_function_args_rest(s3, tag, names.push(r2->Ok_0));
                    }
                }
            }
        },
    }
}

pub broadcast proof fn lemma_function_values_rest(
    s: ParserView,
    tag: Seq<char>,
    values: Seq<Option<Seq<char>>>,
)
    requires
        s.input.wf(),
    ensures
        advances(s, (#[trigger] s.function_values_rest(tag, values)).0),
    decreases s.input.remaining(),
{
    broadcast use group_chars;
    broadcast use group_names;
    broadcast use group_values;

    match s.tag_current_or_unexpected_eof(tag) {
        Err(e) => {},
        Ok(c) => if c != ')' {
            let (s1, r1) = s.list_separator(tag, values.len() == 0);
            if r1 is Ok {
                let (s2, r2) = s1.parse_value(tag);
                if r2 is Ok {
                    let s3 = s2.bypass_whitespace();
                    if s3.input.remaining() < s.input.remaining() {
                        lemma_function_values_rest(s3, tag, values.push(r2->Ok_0));
                    }
                }
            }
        },
    }
}

/// A round of the loops that read a list moves on.
pub proof fn law_lists_move_on(s: ParserView, tag: Seq<char>, first: bool)
    requires
        s.input.wf(),
    ensures
        ({
            let (s1, r1) = s.list_separator(tag, first);
            let (s2, r2) = s1.parse_variable_name(tag);
            r1 is Ok && r2 is Ok ==> s2.bypass_whitespace().input.remaining()
                < s.input.remaining()
        }),
        ({
            let (s1, r1) = s.list_separator(tag, first);
            let (s2, r2) = s1.parse_value(tag);
            r1 is Ok && r2 is Ok ==> s2.bypass_whitespace().input.remaining()
                < s.input.remaining()
        }),
{
    broadcast use group_chars;
    broadcast use group_names;
    broadcast use group_values;

}

pub broadcast proof fn lemma_parse_function_args(s: ParserView, tag: Seq<char>)
    requires
        s.input.wf(),
    ensures
        advances(s, (#[trigger] s.parse_function_args(tag)).0),
{
    broadcast use group_chars;
    broadcast use lemma_function_args_rest;

}

pub broadcast proof fn lemma_parse_function_arg_values(s: ParserView, tag: Seq<char>)
    requires
        s.input.wf(),
    ensures
        advances(s, (#[trigger] s.parse_function_arg_values(tag)).0),
{
    broadcast use group_chars;
    broadcast use lemma_function_values_rest;

}

pub broadcast group group_lists {
    lemma_function_args_rest,
    lemma_function_values_rest,
    lemma_parse_function_args,
    lemma_parse_function_arg_values,
}


// ---------------------------------------------------------------------------
// Conditions
// ---------------------------------------------------------------------------

pub broadcast proof fn lemma_negations(s: ParserView, tag: Seq<char>)
    requires
        s.input.wf(),
    ensures
        advances(s, (#[trigger] s.negations(tag)).0),
        s.negations(tag).1 is Ok ==> s.negations(tag).0.current() is Some,
    decreases s.input.remaining(),
{
    broadcast use group_runs;

    match s.input.current() {
        None => {},
        Some(c) => if c == '!' {
            lemma_negations(s.step(), tag);
        },
    }
}

pub broadcast proof fn lemma_relation(s: ParserView, tag: Seq<char>)
    requires
        s.input.wf(),
    ensures
        advances(s, (#[trigger] s.relation(tag)).0),
{
    broadcast use group_runs;
    broadcast use group_chars;

}

pub broadcast proof fn lemma_join(s: ParserView, tag: Seq<char>)
    requires
        s.input.wf(),
    ensures
        advances(s, (#[trigger] s.join(tag)).0),
{
    broadcast use group_runs;

}

pub broadcast proof fn lemma_comparison(s: ParserView, st: IfState)
    requires
        s.input.wf(),
    ensures
        advances(s, (#[trigger] s.comparison(st)).0),
        s.comparison(st).1 is Ok ==> s.comparison(st).0.input.pos > s.input.pos,
{
    broadcast use group_chars;
    broadcast use group_values;
    broadcast use lemma_relation;

}

pub broadcast proof fn lemma_group_end(s: ParserView, st: IfState)
    requires
        s.input.wf(),
    ensures
        advances(s, (#[trigger] s.group_end(st)).0),
{
    broadcast use group_runs;

}

pub broadcast proof fn lemma_after_term(
    s: ParserView,
    st: IfState,
    term: crate::parser::if_parser::Condition,
    negate: bool,
)
    requires
        s.input.wf(),
    ensures
        advances(s, (#[trigger] s.after_term(st, term, negate)).0),
{
    broadcast use group_chars;
    broadcast use lemma_join;

}

pub broadcast group group_terms {
    lemma_negations,
    lemma_relation,
    lemma_join,
    lemma_comparison,
    lemma_group_end,
    lemma_after_term,
}

/// Reading a term moves on, and so does reading a condition; a term with
/// a join behind it has read something.
pub proof fn lemma_term(s: ParserView, st: IfState)
    requires
        s.input.wf(),
    ensures
        advances(s, s.term(st).0),
        s.term(st).1 matches Ok(TermEnd::Joined(_)) ==> s.term(st).0.input.pos > s.input.pos,
    decreases s.input.remaining(), 0nat,
{
    broadcast use group_runs;
    broadcast use group_chars;
    broadcast use group_terms;

    let (s1, r1) = s.negations(st.tagname);
    if r1 is Ok {
        if s1.current() == Some(')') {
        } else {
            if s1.current() == Some('(') {
                if st.group_bypass() is Ok && s1.step().input.remaining() < s.input.remaining() {
                    lemma_condition(
                        s1.step(),
                        IfState::new(
                            st.tagname,
                            crate::parser::ParseUntil::ConditionEnd,
                            st.group_bypass()->Ok_0,
                        ),
                    );
                }
            }
        }
    }
}

pub proof fn lemma_condition(s: ParserView, st: IfState)
    requires
        s.input.wf(),
    ensures
        advances(s, s.condition(st).0),
    decreases s.input.remaining(), 1nat,
{
    broadcast use group_runs;
    broadcast use group_chars;

    lemma_term(s, st);
    let (s1, r1) = s.term(st);
    match r1 {
        Ok(TermEnd::Joined(c)) => match st.onward(c) {
            Some(Onward::More(next)) => {
                let s2 = s1.bypass_whitespace();
                if s2.input.remaining() < s.input.remaining() {
                    lemma_condition(s2, next);
                }
            },
            _ => {},
        },
        _ => {},
    }
}

/// The rounds of the loops that read a condition move on: behind the
/// bracket that opens a group, and behind a term and the white space that
/// follows it.
pub proof fn law_conditions_move_on(s: ParserView, st: IfState)
    requires
        s.input.wf(),
    ensures
        ({
            let (s1, r1) = s.negations(st.tagname);
            r1 is Ok && s1.current() == Some('(') ==> s1.step().input.remaining()
                < s.input.remaining()
        }),
        s.term(st).1 matches Ok(TermEnd::Joined(_)) ==> s.term(
            st,
        ).0.bypass_whitespace().input.remaining() < s.input.remaining(),
{
    broadcast use group_runs;
    broadcast use group_chars;
    broadcast use group_terms;

    lemma_term(s, st);
}

pub broadcast proof fn lemma_parse_result(s: ParserView, tag: Seq<char>)
    requires
        s.input.wf(),
    ensures
        advances(s, (#[trigger] s.parse_result(tag)).0),
{
    lemma_condition(s, IfState::new(tag, crate::parser::ParseUntil::Eot, None));
}


// ---------------------------------------------------------------------------
// Tags
// ---------------------------------------------------------------------------

pub broadcast proof fn lemma_match_name(
    s: ParserView,
    names: Seq<Seq<char>>,
    prefix: Seq<char>,
    end_tag: bool,
)
    requires
        s.input.wf(),
    ensures
        advances(s, (#[trigger] s.match_name(names, prefix, end_tag)).0),
    decreases s.input.remaining(),
{
    broadcast use group_runs;
    broadcast use group_chars;
    broadcast use group_names;

    if crate::parser::tags::named(names, prefix, 0) is None {
        match s.input.current() {
            None => {},
            Some(c) => if crate::parser::tags::any_prefixed(names, prefix.push(c), 0) {
                lemma_match_name(s.write_char(c).step(), names, prefix.push(c), end_tag);
            },
        }
    }
}

pub broadcast proof fn lemma_skip_comment(s: ParserView)
    requires
        s.input.wf(),
    ensures
        advances(s, (#[trigger] s.skip_comment()).0),
    decreases s.input.remaining(),
{
    broadcast use group_runs;

    match s.input.current() {
        None => {},
        Some(c) => if c == '\\' {
            let s1 = s.step();
            match s1.input.current() {
                None => {},
                Some(_) => lemma_skip_comment(s1.step()),
            }
        } else if !s.at_sequence(seq!['#', '}']) {
            lemma_skip_comment(s.step());
        },
    }
}

pub broadcast proof fn lemma_expect_word(s: ParserView, name: Seq<char>, word: Seq<char>, i: int)
    requires
        s.input.wf(),
    ensures
        advances(s, (#[trigger] s.expect_word(name, word, i)).0),
    decreases word.len() + 1 - i,
{
    broadcast use group_chars;

    if 0 <= i < word.len() {
        let (s1, r1) = s.tag_expect_buffer_char(name, just(word[i]));
        if r1 is Ok {
            lemma_expect_word(s1, name, word, i + 1);
        }
    }
}

pub broadcast group group_scans {
    lemma_match_name,
    lemma_skip_comment,
    lemma_expect_word,
    lemma_parse_result,
}

pub broadcast proof fn lemma_bypass_self_closing(s: ParserView, name: Seq<char>)
    requires
        s.input.wf(),
    ensures
        advances(s, (#[trigger] s.bypass_self_closing(name)).0),
{
    broadcast use group_runs;
    broadcast use group_chars;
    broadcast use group_names;
    broadcast use group_values;
    broadcast use group_lists;
    broadcast use group_scans;
}

pub broadcast proof fn lemma_parse_else(s: ParserView)
    requires
        s.input.wf(),
    ensures
        advances(s, (#[trigger] s.parse_else()).0),
{
    broadcast use group_runs;
    broadcast use group_chars;
    broadcast use group_names;
    broadcast use group_values;
    broadcast use group_lists;
    broadcast use group_scans;
}

pub broadcast proof fn lemma_end_block(s: ParserView, block: Block)
    requires
        s.input.wf(),
    ensures
        advances(s, (#[trigger] s.end_block(block)).0),
{
    broadcast use group_runs;
    broadcast use group_chars;
    broadcast use group_names;
    broadcast use group_values;
    broadcast use group_lists;
    broadcast use group_scans;
}

pub broadcast proof fn lemma_handle_escape(s: ParserView)
    requires
        s.input.wf(),
    ensures
        advances(s, (#[trigger] s.handle_escape()).0),
{
    broadcast use group_runs;
    broadcast use group_chars;
    broadcast use group_names;
    broadcast use group_values;
    broadcast use group_lists;
    broadcast use group_scans;
}

pub broadcast proof fn lemma_parse_comment(s: ParserView)
    requires
        s.input.wf(),
    ensures
        advances(s, (#[trigger] s.parse_comment()).0),
{
    broadcast use group_runs;
    broadcast use group_chars;
    broadcast use group_names;
    broadcast use group_values;
    broadcast use group_lists;
    broadcast use group_scans;
}

pub broadcast proof fn lemma_parse_assert(s: ParserView)
    requires
        s.input.wf(),
    ensures
        advances(s, (#[trigger] s.parse_assert()).0),
{
    broadcast use group_runs;
    broadcast use group_chars;
    broadcast use group_names;
    broadcast use group_values;
    broadcast use group_lists;
    broadcast use group_scans;
}

pub broadcast proof fn lemma_parse_count(s: ParserView)
    requires
        s.input.wf(),
    ensures
        advances(s, (#[trigger] s.parse_count()).0),
{
    broadcast use group_runs;
    broadcast use group_chars;
    broadcast use group_names;
    broadcast use group_values;
    broadcast use group_lists;
    broadcast use group_scans;
}

pub broadcast proof fn lemma_parse_length(s: ParserView)
    requires
        s.input.wf(),
    ensures
        advances(s, (#[trigger] s.parse_length()).0),
{
    broadcast use group_runs;
    broadcast use group_chars;
    broadcast use group_names;
    broadcast use group_values;
    broadcast use group_lists;
    broadcast use group_scans;
}

pub broadcast proof fn lemma_parse_extend_tag(s: ParserView)
    requires
        s.input.wf(),
    ensures
        advances(s, (#[trigger] s.parse_extend_tag()).0),
{
    broadcast use group_runs;
    broadcast use group_chars;
    broadcast use group_names;
    broadcast use group_values;
    broadcast use group_lists;
    broadcast use group_scans;
}

pub broadcast proof fn lemma_copy_file(s: ParserView, path: Seq<char>)
    requires
        s.input.wf(),
    ensures
        advances(s, (#[trigger] s.copy_file(path)).0),
{
    broadcast use group_runs;
    broadcast use group_chars;
    broadcast use group_names;
    broadcast use group_values;
    broadcast use group_lists;
    broadcast use group_scans;
}

pub broadcast proof fn lemma_path_base(s: ParserView, name: Seq<char>)
    requires
        s.input.wf(),
    ensures
        advances(s, (#[trigger] s.path_base(name)).0),
{
    broadcast use group_runs;
    broadcast use group_chars;
    broadcast use group_names;
    broadcast use group_values;
    broadcast use group_lists;
    broadcast use group_scans;
}

pub broadcast proof fn lemma_output_end(s: ParserView)
    requires
        s.input.wf(),
    ensures
        advances(s, (#[trigger] s.output_end()).0),
{
    broadcast use group_runs;
    broadcast use group_chars;
    broadcast use group_names;
    broadcast use group_values;
    broadcast use group_lists;
    broadcast use group_scans;
}

pub broadcast proof fn lemma_write_result(s: ParserView, op: Operation, value: i64, text: Seq<char>)
    requires
        s.input.wf(),
    ensures
        advances(s, (#[trigger] s.write_result(op, value, text)).0),
{
    broadcast use group_runs;
    broadcast use group_chars;
    broadcast use group_names;
    broadcast use group_values;
    broadcast use group_lists;
    broadcast use group_scans;
}

pub broadcast proof fn lemma_write_nth(s: ParserView, alias: Seq<char>, text: Seq<char>)
    requires
        s.input.wf(),
    ensures
        advances(s, (#[trigger] s.write_nth(alias, text)).0),
{
    broadcast use group_runs;
    broadcast use group_chars;
    broadcast use group_names;
    broadcast use group_values;
    broadcast use group_lists;
    broadcast use group_scans;
}

pub broadcast proof fn lemma_function_head(s: ParserView)
    requires
        s.input.wf(),
    ensures
        advances(s, (#[trigger] s.function_head()).0),
{
    broadcast use group_runs;
    broadcast use group_chars;
    broadcast use group_names;
    broadcast use group_values;
    broadcast use group_lists;
    broadcast use group_scans;
}

pub broadcast proof fn lemma_if_head(s: ParserView)
    requires
        s.input.wf(),
    ensures
        advances(s, (#[trigger] s.if_head()).0),
{
    broadcast use group_runs;
    broadcast use group_chars;
    broadcast use group_names;
    broadcast use group_values;
    broadcast use group_lists;
    broadcast use group_scans;
}

pub broadcast proof fn lemma_template_path(s: ParserView, name: Seq<char>)
    requires
        s.input.wf(),
    ensures
        advances(s, (#[trigger] s.template_path(name)).0),
{
    broadcast use group_runs;
    broadcast use group_chars;
    broadcast use group_names;
    broadcast use group_values;
    broadcast use group_lists;
    broadcast use group_scans;
}

pub broadcast proof fn lemma_keyword(s: ParserView, name: Seq<char>, first: char, rest: Seq<char>)
    requires
        s.input.wf(),
    ensures
        advances(s, (#[trigger] s.keyword(name, first, rest)).0),
{
    broadcast use group_runs;
    broadcast use group_chars;
    broadcast use group_names;
    broadcast use group_values;
    broadcast use group_lists;
    broadcast use group_scans;
}

pub broadcast proof fn lemma_loop_head(s: ParserView, name: Seq<char>)
    requires
        s.input.wf(),
    ensures
        advances(s, (#[trigger] s.loop_head(name)).0),
{
    broadcast use group_runs;
    broadcast use group_chars;
    broadcast use group_names;
    broadcast use group_values;
    broadcast use group_lists;
    broadcast use group_scans;
}

pub broadcast proof fn lemma_split_delimiter(s: ParserView, name: Seq<char>)
    requires
        s.input.wf(),
    ensures
        advances(s, (#[trigger] s.split_delimiter(name)).0),
{
    broadcast use group_runs;
    broadcast use group_chars;
    broadcast use group_names;
    broadcast use group_values;
    broadcast use group_lists;
    broadcast use group_scans;
}

pub broadcast proof fn lemma_bind_iteration(s: ParserView, lp: LoopView, item: Seq<char>, index: nat, size: nat)
    requires
        s.input.wf(),
    ensures
        advances(s, #[trigger] s.bind_iteration(lp, item, index, size)),
{
    broadcast use group_runs;
    broadcast use group_chars;
    broadcast use group_names;
    broadcast use group_values;
    broadcast use group_lists;
    broadcast use group_scans;
}

pub broadcast proof fn lemma_unbind_iteration(s: ParserView, lp: LoopView)
    requires
        s.input.wf(),
    ensures
        advances(s, #[trigger] s.unbind_iteration(lp)),
{
    broadcast use group_runs;
    broadcast use group_chars;
    broadcast use group_names;
    broadcast use group_values;
    broadcast use group_lists;
    broadcast use group_scans;
}

pub broadcast group group_tags {
    lemma_bypass_self_closing,
    lemma_parse_else,
    lemma_end_block,
    lemma_handle_escape,
    lemma_parse_comment,
    lemma_parse_assert,
    lemma_parse_count,
    lemma_parse_length,
    lemma_parse_extend_tag,
    lemma_copy_file,
    lemma_path_base,
    lemma_output_end,
    lemma_write_result,
    lemma_write_nth,
    lemma_function_head,
    lemma_if_head,
    lemma_template_path,
    lemma_keyword,
    lemma_loop_head,
    lemma_split_delimiter,
    lemma_bind_iteration,
    lemma_unbind_iteration,
}

pub broadcast proof fn lemma_parse_end(s: ParserView)
    requires
        s.input.wf(),
    ensures
        advances(s, (#[trigger] s.parse_end()).0),
{
    broadcast use group_runs;
    broadcast use group_chars;
    broadcast use group_names;
    broadcast use group_values;
    broadcast use group_lists;
    broadcast use group_scans;
    broadcast use group_tags;
}

pub broadcast proof fn lemma_parse_include(s: ParserView)
    requires
        s.input.wf(),
    ensures
        advances(s, (#[trigger] s.parse_include()).0),
{
    broadcast use group_runs;
    broadcast use group_chars;
    broadcast use group_names;
    broadcast use group_values;
    broadcast use group_lists;
    broadcast use group_scans;
    broadcast use group_tags;
}

pub broadcast proof fn lemma_parse_path_part(s: ParserView, name: Seq<char>, part: PathPart)
    requires
        s.input.wf(),
    ensures
        advances(s, (#[trigger] s.parse_path_part(name, part)).0),
{
    broadcast use group_runs;
    broadcast use group_chars;
    broadcast use group_names;
    broadcast use group_values;
    broadcast use group_lists;
    broadcast use group_scans;
    broadcast use group_tags;
}

pub broadcast proof fn lemma_option_number(s: ParserView, name: Seq<char>, first: char, rest: Seq<char>)
    requires
        s.input.wf(),
    ensures
        advances(s, (#[trigger] s.option_number(name, first, rest)).0),
{
    broadcast use group_runs;
    broadcast use group_chars;
    broadcast use group_names;
    broadcast use group_values;
    broadcast use group_lists;
    broadcast use group_scans;
    broadcast use group_tags;
}

pub broadcast proof fn lemma_option_loop_variable(s: ParserView, name: Seq<char>)
    requires
        s.input.wf(),
    ensures
        advances(s, (#[trigger] s.option_loop_variable(name)).0),
{
    broadcast use group_runs;
    broadcast use group_chars;
    broadcast use group_names;
    broadcast use group_values;
    broadcast use group_lists;
    broadcast use group_scans;
    broadcast use group_tags;
}

pub broadcast proof fn lemma_option_reversed(s: ParserView, name: Seq<char>)
    requires
        s.input.wf(),
    ensures
        advances(s, (#[trigger] s.option_reversed(name)).0),
{
    broadcast use group_runs;
    broadcast use group_chars;
    broadcast use group_names;
    broadcast use group_values;
    broadcast use group_lists;
    broadcast use group_scans;
    broadcast use group_tags;
}

pub broadcast proof fn lemma_loop_source(s: ParserView, kind: LoopKind)
    requires
        s.input.wf(),
    ensures
        advances(s, (#[trigger] s.loop_source(kind)).0),
{
    broadcast use group_runs;
    broadcast use group_chars;
    broadcast use group_names;
    broadcast use group_values;
    broadcast use group_lists;
    broadcast use group_scans;
    broadcast use group_tags;
}

pub broadcast group group_options {
    lemma_parse_end,
    lemma_parse_include,
    lemma_parse_path_part,
    lemma_option_number,
    lemma_option_loop_variable,
    lemma_option_reversed,
    lemma_loop_source,
}

pub broadcast proof fn lemma_parse_loop_options(s: ParserView, name: Seq<char>)
    requires
        s.input.wf(),
    ensures
        advances(s, (#[trigger] s.parse_loop_options(name)).0),
{
    broadcast use group_runs;
    broadcast use group_chars;
    broadcast use group_names;
    broadcast use group_values;
    broadcast use group_lists;
    broadcast use group_scans;
    broadcast use group_tags;
    broadcast use group_options;
}

pub broadcast proof fn lemma_loop_tag(s: ParserView, kind: LoopKind)
    requires
        s.input.wf(),
    ensures
        advances(s, (#[trigger] s.loop_tag(kind)).0),
{
    broadcast use group_tags;
    broadcast use group_options;
    broadcast use lemma_parse_loop_options;

    reveal(ParserView::loop_tag);
}

pub broadcast group group_heads {
    lemma_parse_loop_options,
    lemma_loop_tag,
}


// ---------------------------------------------------------------------------
// Parsers inside the parser
// ---------------------------------------------------------------------------

pub broadcast proof fn lemma_parse_limited(
    s: ParserView,
    depth: nat,
    body: Seq<char>,
    parse_until: ParseUntil,
)
    requires
        s.input.wf(),
    ensures
        advances(s, (#[trigger] s.parse_limited(depth, body, parse_until)).0),
{
}

pub broadcast proof fn lemma_parse_limited_sealed(
    s: ParserView,
    depth: nat,
    context: CtxView,
    body: Seq<char>,
    parse_until: ParseUntil,
)
    requires
        s.input.wf(),
    ensures
        advances(s, (#[trigger] s.parse_limited_sealed(depth, context, body, parse_until)).0),
{
}

pub broadcast proof fn lemma_parse_sealed(s: ParserView, depth: nat, path: Seq<char>)
    requires
        s.input.wf(),
    ensures
        advances(s, (#[trigger] s.parse_sealed(depth, path)).0),
{
}

pub broadcast proof fn lemma_parse_unsealed(s: ParserView, depth: nat, path: Seq<char>)
    requires
        s.input.wf(),
    ensures
        advances(s, (#[trigger] s.parse_unsealed(depth, path)).0),
{
}

pub broadcast proof fn lemma_parse_extend(s: ParserView, depth: nat, path: Seq<char>)
    requires
        s.input.wf(),
    ensures
        advances(s, (#[trigger] s.parse_extend(depth, path)).0),
{
}

pub broadcast proof fn lemma_parse_call(s: ParserView, depth: nat)
    requires
        s.input.wf(),
    ensures
        advances(s, (#[trigger] s.parse_call(depth)).0),
{
    broadcast use group_tags;
    broadcast use lemma_parse_unsealed;

}

pub broadcast proof fn lemma_parse_compile(s: ParserView, depth: nat)
    requires
        s.input.wf(),
    ensures
        advances(s, (#[trigger] s.parse_compile(depth)).0),
{
    broadcast use group_tags;
    broadcast use lemma_parse_sealed;

}

pub broadcast proof fn lemma_call_function(s: ParserView, depth: nat, alias: Seq<char>)
    requires
        s.input.wf(),
    ensures
        advances(s, (#[trigger] s.call_function(depth, alias)).0),
{
    broadcast use group_lists;
    broadcast use lemma_parse_limited_sealed;

}

pub broadcast proof fn lemma_run_items(
    s: ParserView,
    depth: nat,
    lp: LoopView,
    items: Seq<Seq<char>>,
    index: nat,
)
    requires
        s.input.wf(),
    ensures
        advances(s, (#[trigger] s.run_items(depth, lp, items, index)).0),
    decreases items.len() - index,
{
    broadcast use group_tags;
    broadcast use lemma_parse_limited;

    if index < items.len() {
        let (s1, r1) = s.bind_iteration(lp, items[index as int], index, items.len()).parse_limited(
            depth,
            lp.body,
            lp.until,
        );
        if r1 is Ok {
            lemma_run_items(s1.unbind_iteration(lp), depth, lp, items, index + 1);
        }
    }
}

pub broadcast group group_files {
    lemma_parse_limited,
    lemma_parse_limited_sealed,
    lemma_parse_sealed,
    lemma_parse_unsealed,
    lemma_parse_extend,
    lemma_parse_call,
    lemma_parse_compile,
    lemma_call_function,
    lemma_run_items,
}

pub proof fn lemma_parse_bypassed(s: ParserView, depth: nat, parse_until: ParseUntil)
    requires
        s.input.wf(),
    ensures
        advances(s, s.parse_bypassed(depth, parse_until).0),
    decreases depth, 20nat,
{
    if depth > 0 {
        lemma_parse_internal(s.spawn_bypassed(parse_until), (depth - 1) as nat);
    }
}

pub proof fn lemma_parse_child(s: ParserView, depth: nat, parse_until: ParseUntil)
    requires
        s.input.wf(),
    ensures
        advances(s, s.parse_child(depth, parse_until).0),
    decreases depth, 20nat,
{
    if depth > 0 {
        lemma_parse_internal(s.spawn_child(parse_until), (depth - 1) as nat);
    }
}

pub proof fn lemma_capture(s: ParserView, depth: nat, block: Block)
    requires
        s.input.wf(),
    ensures
        advances(s, s.capture(depth, block).0),
    decreases depth, 25nat,
{
    lemma_parse_bypassed(s, depth, block.spec_until());
    let (s1, r1) = s.parse_bypassed(depth, block.spec_until());
    if r1 is Ok {
        lemma_parse_bypassed(s1, depth, block.spec_until());
    }
}

pub proof fn lemma_parse_internal(s: ParserView, depth: nat)
    requires
        s.input.wf(),
    ensures
        advances(s, s.parse_internal(depth).0),
    decreases depth, 90nat,
{
    broadcast use group_files;

    lemma_parse_pieces(s, depth);
}

pub proof fn lemma_after_piece(s: ParserView, depth: nat, r: StepView<()>, before: nat)
    requires
        s.input.wf(),
    ensures
        advances(s, s.after_piece(depth, r, before).0),
    decreases depth, 80nat, before, 0nat,
{
    match r {
        Err(Ok(FlowControl::Continue)) => if s.input.remaining() < before {
            lemma_parse_pieces(s, depth);
        },
        Ok(_) => {
            let s1 = s.set_end_position(EndPosition::Eof);
            if s1.input.remaining() < before {
                lemma_parse_pieces(s1, depth);
            }
        },
        _ => {},
    }
}

pub proof fn lemma_parse_pieces(s: ParserView, depth: nat)
    requires
        s.input.wf(),
    ensures
        advances(s, s.parse_pieces(depth).0),
    decreases depth, 80nat, s.input.remaining(), 1nat,
{
    broadcast use group_runs;
    broadcast use group_tags;

    match s.input.current() {
        None => {},
        Some(c) => if c == '{' {
            let s1 = s.write_char(c).step();
            lemma_parse_bracket(s1, depth);
            let (a, ra) = s1.parse_bracket(depth);
            lemma_after_piece(a, depth, ra, s.input.remaining());
        } else if c == '\\' {
            let s1 = s.write_char(c).step();
            let (a, ra) = s1.handle_escape();
            lemma_after_piece(a, depth, ra, s.input.remaining());
        } else {
            lemma_parse_pieces(s.write_char(c).step().flush(), depth);
        },
    }
}

pub proof fn lemma_parse_bracket(s: ParserView, depth: nat)
    requires
        s.input.wf(),
    ensures
        advances(s, s.parse_bracket(depth).0),
    decreases depth, 70nat,
{
    broadcast use group_runs;
    broadcast use group_chars;
    broadcast use group_tags;

    match s.current() {
        None => {},
        Some(c) => if c == '{' {
            lemma_parse_output(s.push_step().0, depth);
        } else if c == '%' {
            lemma_parse_tag(s.push_step().0, depth);
        },
    }
}

pub proof fn lemma_parse_output(s: ParserView, depth: nat)
    requires
        s.input.wf(),
    ensures
        advances(s, s.parse_output(depth).0),
    decreases depth, 60nat,
{
    broadcast use group_runs;
    broadcast use group_chars;
    broadcast use group_names;

    if s.bypass {
        let s0 = s.buffer_whitespace();
        lemma_buffer_all_until_sequence(s0, "output"@, seq!['}', '}']);
    } else {
        let (s1, r1) = s.clear_buffer().bypass_whitespace().parse_variable_name("output"@);
        if r1 is Ok {
            let (s2, r2) = s1.bypass_whitespace().current_or_unexpected_eof_in_tag();
            if r2 is Ok {
                let (s3, r3) = if r2->Ok_0 == '(' {
                    s2.call_function(depth, r1->Ok_0)
                } else {
                    (s2.write_str(s2.shown(r1->Ok_0)).flush(), Ok(()))
                };
                lemma_call_function(s2, depth, r1->Ok_0);
                if r3 is Ok {
                    lemma_output_end(s3.bypass_whitespace());
                }
            }
        }
    }
}

pub proof fn lemma_parse_tag(s: ParserView, depth: nat)
    requires
        s.input.wf(),
    ensures
        advances(s, s.parse_tag(depth).0),
    decreases depth, 60nat,
{
    broadcast use group_chars;
    broadcast use group_scans;

    let s0 = if s.bypass {
        s
    } else {
        s.clear_buffer()
    }.buffer_whitespace();
    let (s1, r1) = s0.match_name(crate::parser::tags::tag_names(), Seq::empty(), false);
    if r1 is Ok {
        lemma_dispatch(s1, depth, crate::parser::tags::tag_at(r1->Ok_0 as int));
    }
}

pub proof fn lemma_dispatch(s: ParserView, depth: nat, tag: Tag)
    requires
        s.input.wf(),
    ensures
        advances(s, s.dispatch(depth, tag).0),
    decreases depth, 50nat,
{
    broadcast use group_tags;
    broadcast use group_options;

    match tag {
        Tag::Open(block) => if s.bypass {
            lemma_bypass_block(s, depth, block);
        } else {
            lemma_parse_block(s, depth, block);
        },
        Tag::Closed(simple) => if !s.bypass {
            lemma_parse_simple(s, depth, simple);
        },
        _ => {},
    }
}

pub proof fn lemma_parse_simple(s: ParserView, depth: nat, simple: Simple)
    requires
        s.input.wf(),
    ensures
        advances(s, s.parse_simple(depth, simple).0),
    decreases depth, 45nat,
{
    broadcast use group_tags;
    broadcast use group_options;
    broadcast use group_files;

}

pub proof fn lemma_parse_block(s: ParserView, depth: nat, block: Block)
    requires
        s.input.wf(),
    ensures
        advances(s, s.parse_block(depth, block).0),
    decreases depth, 45nat,
{
    match block {
        Block::Add => lemma_parse_arithmetic(s, depth, Operation::Add),
        Block::Div => lemma_parse_arithmetic(s, depth, Operation::Div),
        Block::Mod => lemma_parse_arithmetic(s, depth, Operation::Mod),
        Block::Mul => lemma_parse_arithmetic(s, depth, Operation::Mul),
        Block::Pow => lemma_parse_arithmetic(s, depth, Operation::Pow),
        Block::Sub => lemma_parse_arithmetic(s, depth, Operation::Sub),
        Block::Fn => lemma_parse_fn(s, depth),
        Block::Fordir => lemma_parse_loop_tag(s, depth, LoopKind::Fordir),
        Block::Foreach => lemma_parse_loop_tag(s, depth, LoopKind::Foreach),
        Block::Forfile => lemma_parse_loop_tag(s, depth, LoopKind::Forfile),
        Block::Forsplit => lemma_parse_loop_tag(s, depth, LoopKind::Forsplit),
        Block::If => lemma_parse_if(s, depth),
        Block::Nth => lemma_parse_nth(s, depth),
        Block::SetBlock => lemma_parse_set(s, depth),
    }
}

pub proof fn lemma_bypass_block(s: ParserView, depth: nat, block: Block)
    requires
        s.input.wf(),
    ensures
        advances(s, s.bypass_block(depth, block).0),
    decreases depth, 40nat,
{
    broadcast use group_runs;
    broadcast use group_chars;
    broadcast use group_names;

    let (s1, space) = s.buffer_whitespace_enforce_one();
    if space {
        let (s2, r2) = s1.buffer_all_until_end_of_tag(block.spec_name());
        if r2 is Ok {
            lemma_capture(s2.flush(), depth, block);
        }
    }
}

pub proof fn lemma_parse_arithmetic(s: ParserView, depth: nat, op: Operation)
    requires
        s.input.wf(),
    ensures
        advances(s, s.parse_arithmetic(depth, op).0),
    decreases depth, 40nat,
{
    broadcast use group_chars;
    broadcast use group_names;
    broadcast use group_values;
    broadcast use group_tags;

    let name = op.spec_block().spec_name();
    let (s0, space) = s.bypass_whitespace_enforce_one();
    if space {
        let (s1, r1) = s0.clear_buffer().parse_value_as_number(name);
        if r1 is Ok {
            let (s2, r2) = s1.expect_end_of_tag(name);
            if r2 is Ok {
                lemma_parse_child(s2, depth, op.spec_block().spec_until());
            }
        }
    }
}

pub proof fn lemma_parse_set(s: ParserView, depth: nat)
    requires
        s.input.wf(),
    ensures
        advances(s, s.parse_set(depth).0),
    decreases depth, 40nat,
{
    broadcast use group_chars;
    broadcast use group_names;

    let (s0, space) = s.bypass_whitespace_enforce_one();
    if space {
        let (s1, r1) = s0.clear_buffer().parse_variable_name("set"@);
        if r1 is Ok {
            let (s2, r2) = s1.expect_end_of_tag("set"@);
            if r2 is Ok {
                lemma_parse_child(s2, depth, ParseUntil::EndSet);
            }
        }
    }
}

pub proof fn lemma_parse_fn(s: ParserView, depth: nat)
    requires
        s.input.wf(),
    ensures
        advances(s, s.parse_fn(depth).0),
    decreases depth, 40nat,
{
    broadcast use group_tags;

    let (s1, r1) = s.function_head();
    if r1 is Ok {
        lemma_parse_bypassed(s1, depth, ParseUntil::EndFn);
    }
}

pub proof fn lemma_parse_if(s: ParserView, depth: nat)
    requires
        s.input.wf(),
    ensures
        advances(s, s.parse_if(depth).0),
    decreases depth, 40nat,
{
    broadcast use group_tags;
    broadcast use group_files;

    let (s1, r1) = s.if_head();
    if r1 is Ok {
        lemma_capture(s1, depth, Block::If);
    }
}

pub proof fn lemma_parse_nth(s: ParserView, depth: nat)
    requires
        s.input.wf(),
    ensures
        advances(s, s.parse_nth(depth).0),
    decreases depth, 40nat,
{
    broadcast use group_chars;
    broadcast use group_names;
    broadcast use group_tags;

    let (s1, r1) = s.clear_buffer().bypass_whitespace().parse_variable_name("nth"@);
    if r1 is Ok {
        let (s2, r2) = s1.expect_end_of_tag("nth"@);
        if r2 is Ok {
            lemma_parse_child(s2, depth, ParseUntil::EndNth);
        }
    }
}

pub proof fn lemma_parse_loop_tag(s: ParserView, depth: nat, kind: LoopKind)
    requires
        s.input.wf(),
    ensures
        advances(s, s.parse_loop_tag(depth, kind).0),
    decreases depth, 40nat,
{
    lemma_loop_tag(s, kind);
    let (s1, r1) = s.loop_tag(kind);
    match r1 {
        Ok((variable, loop_variable, items)) => {
            lemma_capture(s1, depth, kind.spec_block());
            let (s2, r2) = s1.capture(depth, kind.spec_block());
            match r2 {
                Ok((content, else_content)) => {
                    let until = kind.spec_block().spec_until();
                    lemma_run_items(
                        s2,
                        depth,
                        LoopView { variable, loop_variable, body: content, until },
                        items,
                        0,
                    );
                    match else_content {
                        Some(e) => lemma_parse_limited(s2, depth, e, until),
                        None => {},
                    }
                },
                Err(_) => {},
            }
        },
        Err(_) => {},
    }
}

/// A round of the loop that reads a template piece by piece moves on: what
/// follows a curly bracket or a backslash leaves less of the source than
/// there was before the bracket or the backslash.
pub proof fn law_pieces_move_on(s: ParserView, depth: nat)
    requires
        s.input.wf(),
        s.input.current() is Some,
    ensures
        ({
            let c = s.input.current()->0;
            let s1 = s.write_char(c).step();
            &&& c == '{' ==> s1.parse_bracket(depth).0.input.remaining() < s.input.remaining()
            &&& c == '\\' ==> s1.handle_escape().0.input.remaining() < s.input.remaining()
        }),
{
    broadcast use group_runs;
    broadcast use group_tags;

    let c = s.input.current()->0;
    let s1 = s.write_char(c).step();
    lemma_parse_bracket(s1, depth);
}

} // verus!
