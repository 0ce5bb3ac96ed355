//! The conditions of `if` and `assert`: comparisons and truth tests joined
//! by `&&` and `||`, grouped by round brackets, negated by `!`. Joins are
//! taken from left to right: `a && b || c` is `(a && b) || c`. A term
//! behind a join that the value so far decides (`false &&`, `true ||`) is
//! read without being evaluated, and so is every term of a group that
//! stands there.

use crate::error::{ErrorKind, ErrorView, InternalError, InternalResult};
use crate::parser::steps::just;
use crate::parser::{
    agrees, step_view, FlowResult, FlowView, ParseUntil, ParserView, StepResult, StepView,
    TemplateParser,
};
use crate::text::{i64_value, is_truthy, parse_i64, str_less, text_is_falsy, to_chars, value_less};
use vstd::prelude::*;

verus! {

/// How a condition is joined to the one behind it.
#[derive(Clone, Copy, Debug, PartialEq, Eq, Structural)]
pub enum Join {
    And,
    Or,
}

/// The six comparisons.
#[derive(Clone, Copy, Debug, PartialEq, Eq, Structural)]
pub enum Relation {
    Equal,
    NotEqual,
    Greater,
    GreaterOrEqual,
    Less,
    LessOrEqual,
}

/// The value of a condition and, where one follows, the join to it.
#[derive(Clone, Copy, Debug, PartialEq, Eq, Structural)]
pub struct Condition {
    pub evaluation: bool,
    pub join: Option<Join>,
}

impl DeepView for Condition {
    type V = Condition;

    open spec fn deep_view(&self) -> Condition {
        *self
    }
}

impl DeepView for Relation {
    type V = Relation;

    open spec fn deep_view(&self) -> Relation {
        *self
    }
}

impl DeepView for Join {
    type V = Join;

    open spec fn deep_view(&self) -> Join {
        *self
    }
}

/// Whether a relation holds of two values. The four orderings compare as
/// 64-bit integers where both sides are such numbers, else as optional
/// texts; equality is always that of the texts.
pub open spec fn holds(rel: Relation, a: Option<Seq<char>>, b: Option<Seq<char>>) -> bool {
    let numbers = a is Some && b is Some && i64_value(a->0) is Some && i64_value(b->0) is Some;
    match rel {
        Relation::Equal => a == b,
        Relation::NotEqual => a != b,
        Relation::Greater => if numbers {
            i64_value(a->0)->0 > i64_value(b->0)->0
        } else {
            value_less(b, a)
        },
        Relation::GreaterOrEqual => if numbers {
            i64_value(a->0)->0 >= i64_value(b->0)->0
        } else {
            !value_less(a, b)
        },
        Relation::Less => if numbers {
            i64_value(a->0)->0 < i64_value(b->0)->0
        } else {
            value_less(a, b)
        },
        Relation::LessOrEqual => if numbers {
            i64_value(a->0)->0 <= i64_value(b->0)->0
        } else {
            !value_less(b, a)
        },
    }
}

impl Condition {
    /// A condition with a value and no join.
    pub open spec fn of(evaluation: bool) -> Condition {
        Condition { evaluation, join: None }
    }

    /// Whether the condition behind this one decides: behind `&&` when this
    /// one is true, behind `||` when it is false.
    pub open spec fn spec_requires_next(self) -> Option<bool> {
        match self.join {
            Some(Join::And) => Some(self.evaluation),
            Some(Join::Or) => Some(!self.evaluation),
            None => None,
        }
    }

    pub open spec fn spec_negate(self) -> Condition {
        Condition { evaluation: !self.evaluation, ..self }
    }

    pub open spec fn spec_set_join(self, join: Join) -> Condition {
        Condition { join: Some(join), ..self }
    }

    pub fn from(input: bool) -> (r: Self)
        ensures
            r == Condition::of(input),
    {
        Self { evaluation: input, join: None }
    }

    pub fn negate(&mut self)
        ensures
            *final(self) == old(self).spec_negate(),
    {
        self.evaluation = !self.evaluation;
    }

    pub fn requires_next(&self) -> (r: InternalResult<bool>)
        ensures
            match r {
                Ok(b) => self.spec_requires_next() == Some(b),
                Err(e) => self.spec_requires_next() is None && e@ == no_join(),
            },
    {
        match self.join {
            Some(Join::And) => Ok(self.evaluation),
            Some(Join::Or) => Ok(!self.evaluation),
            None => Err(
                InternalError::new(
                    ErrorKind::BadState,
                    "Checked if condition requires next and there is no join",
                ),
            ),
        }
    }

    pub fn set_join(&mut self, join: Join)
        ensures
            *final(self) == old(self).spec_set_join(join),
    {
        self.join = Some(join);
    }

    pub fn as_evaluation(&self) -> (r: bool)
        ensures
            r == self.evaluation,
    {
        self.evaluation
    }

    /// Compares two values by one of the four orderings: as numbers where
    /// both are numbers, else as optional texts.
    pub fn try_num(a: &Option<String>, b: &Option<String>, rel: Relation) -> (r: Self)
        requires
            rel is Greater || rel is GreaterOrEqual || rel is Less || rel is LessOrEqual,
        ensures
            r == Condition::of(holds(rel, crate::parser::text_view(*a), crate::parser::text_view(*b))),
    {
        let x = match a {
            Some(s) => parse_i64(&to_chars(s.as_str())),
            None => None,
        };
        let y = match b {
            Some(s) => parse_i64(&to_chars(s.as_str())),
            None => None,
        };
        match (x, y) {
            (Some(i), Some(j)) => {
                match rel {
                    Relation::Greater => Self::from(i > j),
                    Relation::GreaterOrEqual => Self::from(i >= j),
                    Relation::Less => Self::from(i < j),
                    _ => Self::from(i <= j),
                }
            },
            _ => {
                match rel {
                    Relation::Greater => Self::from(option_less(b, a)),
                    Relation::GreaterOrEqual => Self::from(!option_less(a, b)),
                    Relation::Less => Self::from(option_less(a, b)),
                    _ => Self::from(!option_less(b, a)),
                }
            },
        }
    }

    pub fn gt(a: &Option<String>, b: &Option<String>) -> (r: Self)
        ensures
            r == Condition::of(
                holds(Relation::Greater, crate::parser::text_view(*a), crate::parser::text_view(*b)),
            ),
    {
        Self::try_num(a, b, Relation::Greater)
    }

    pub fn ge(a: &Option<String>, b: &Option<String>) -> (r: Self)
        ensures
            r == Condition::of(
                holds(
                    Relation::GreaterOrEqual,
                    crate::parser::text_view(*a),
                    crate::parser::text_view(*b),
                ),
            ),
    {
        Self::try_num(a, b, Relation::GreaterOrEqual)
    }

    pub fn lt(a: &Option<String>, b: &Option<String>) -> (r: Self)
        ensures
            r == Condition::of(
                holds(Relation::Less, crate::parser::text_view(*a), crate::parser::text_view(*b)),
            ),
    {
        Self::try_num(a, b, Relation::Less)
    }

    pub fn le(a: &Option<String>, b: &Option<String>) -> (r: Self)
        ensures
            r == Condition::of(
                holds(
                    Relation::LessOrEqual,
                    crate::parser::text_view(*a),
                    crate::parser::text_view(*b),
                ),
            ),
    {
        Self::try_num(a, b, Relation::LessOrEqual)
    }
}

/// The order of optional texts.
pub fn option_less(a: &Option<String>, b: &Option<String>) -> (r: bool)
    ensures
        r == value_less(crate::parser::text_view(*a), crate::parser::text_view(*b)),
{
    match (a, b) {
        (None, None) => false,
        (None, Some(_)) => true,
        (Some(_), None) => false,
        (Some(x), Some(y)) => str_less(x.as_str(), y.as_str()),
    }
}

/// Whether two optional texts are the same.
pub fn option_equal(a: &Option<String>, b: &Option<String>) -> (r: bool)
    ensures
        r == (crate::parser::text_view(*a) == crate::parser::text_view(*b)),
{
    match (a, b) {
        (None, None) => true,
        (Some(x), Some(y)) => *x == *y,
        _ => false,
    }
}

/// Whether a relation holds of two values.
pub fn evaluate(rel: Relation, a: &Option<String>, b: &Option<String>) -> (r: bool)
    ensures
        r == holds(rel, crate::parser::text_view(*a), crate::parser::text_view(*b)),
{
    match rel {
        Relation::Equal => option_equal(a, b),
        Relation::NotEqual => !option_equal(a, b),
        Relation::Greater => Condition::gt(a, b).as_evaluation(),
        Relation::GreaterOrEqual => Condition::ge(a, b).as_evaluation(),
        Relation::Less => Condition::lt(a, b).as_evaluation(),
        Relation::LessOrEqual => Condition::le(a, b).as_evaluation(),
    }
}

/// The error of a condition that was asked for its join and has none.
pub open spec fn no_join() -> ErrorView {
    ErrorView::new(
        ErrorKind::BadState,
        "Checked if condition requires next and there is no join"@,
    )
}

/// The reader of one condition, or of one group of it.
pub struct IfParser {
    condition: Option<Condition>,
    parse_until: ParseUntil,
    bypass: Option<bool>,
    tagname: String,
}

pub struct IfState {
    /// The value of the terms read so far, joined from left to right, and
    /// the join behind the last of them.
    pub condition: Option<Condition>,
    pub parse_until: ParseUntil,
    /// The value that stands for this whole group, where what is around it
    /// has decided already and the group is read without being evaluated.
    pub bypass: Option<bool>,
    pub tagname: Seq<char>,
}

impl View for IfParser {
    type V = IfState;

    closed spec fn view(&self) -> IfState {
        IfState {
            condition: self.condition,
            parse_until: self.parse_until,
            bypass: self.bypass,
            tagname: self.tagname@,
        }
    }
}

/// How the reading of a term ended.
pub enum TermEnd {
    /// At the closing bracket of the group; its condition is complete.
    Closed(Condition),
    /// Behind a term and its join, if it has one.
    Joined(Condition),
}

impl DeepView for TermEnd {
    type V = TermEnd;

    open spec fn deep_view(&self) -> TermEnd {
        *self
    }
}

/// What follows a term.
pub enum Onward {
    /// Nothing: the condition is complete.
    Done,
    /// Another term, read in the given state.
    More(IfState),
}

impl IfState {
    /// What follows a term, where `c` is the value so far with the join
    /// behind the term: in a group always another term or the closing
    /// bracket, else another term where `c` has a join.
    pub open spec fn onward(self, c: Condition) -> Option<Onward> {
        let more = Onward::More(IfState { condition: Some(c), ..self });
        match self.parse_until {
            ParseUntil::ConditionEnd => Some(more),
            ParseUntil::Eot => if c.join is Some {
                Some(more)
            } else {
                Some(Onward::Done)
            },
            _ => None,
        }
    }

    pub open spec fn new(tagname: Seq<char>, parse_until: ParseUntil, bypass: Option<bool>) -> IfState {
        IfState { condition: None, parse_until, bypass, tagname }
    }

    /// The fixed value that a group starts with: that of the reader around
    /// it, or the value of the condition before it where that one decides.
    pub open spec fn group_bypass(self) -> Result<Option<bool>, ErrorView> {
        match self.bypass {
            Some(b) => Ok(Some(b)),
            None => match self.condition {
                Some(c) => match c.spec_requires_next() {
                    Some(next) => if !next {
                        Ok(Some(c.evaluation))
                    } else {
                        Ok(None)
                    },
                    None => Err(no_join()),
                },
                None => Ok(None),
            },
        }
    }

    /// The value that the next term takes without being evaluated: that of
    /// a group that is not evaluated, or the value so far where it decides
    /// with the join behind it (`false &&`, `true ||`).
    pub open spec fn fixed(self) -> Option<bool> {
        match self.bypass {
            Some(b) => Some(b),
            None => match self.condition {
                Some(c) => if c.spec_requires_next() == Some(false) {
                    Some(c.evaluation)
                } else {
                    None
                },
                None => None,
            },
        }
    }

    /// The value so far behind a term of the given value: where the value
    /// before it decides, that one; else the term's own, which is then the
    /// value of the join.
    pub open spec fn term(self, value: bool) -> Condition {
        match self.fixed() {
            Some(b) => Condition::of(b),
            None => Condition::of(value),
        }
    }
}

impl ParserView {
    /// Steps over a run of `!` and says whether it negates.
    pub open spec fn negations(self, tag: Seq<char>) -> (ParserView, StepView<bool>)
        decreases self.input.remaining(),
    {
        match self.input.current() {
            None => (self, Err(Err(self.tag_unexpected_eof(tag)))),
            Some(c) => if c == '!' {
                let (s1, r1) = self.step().negations(tag);
                match r1 {
                    Ok(n) => (s1, Ok(!n)),
                    Err(e) => (s1, Err(e)),
                }
            } else {
                (self, Ok(false))
            },
        }
    }

    /// Reads the operator of a comparison and the white space behind it;
    /// nothing where no operator stands.
    pub open spec fn relation(self, tag: Seq<char>) -> (ParserView, StepView<Option<Relation>>) {
        match self.tag_current_or_unexpected_eof(tag) {
            Err(e) => (self, Err(e)),
            Ok(c) => if c == '=' || c == '!' {
                let s1 = self.step();
                match s1.tag_current_or_unexpected_eof(tag) {
                    Err(e) => (s1, Err(e)),
                    Ok(d) => if d == '=' {
                        (
                            s1.step().bypass_whitespace(),
                            Ok(
                                Some(
                                    if c == '=' {
                                        Relation::Equal
                                    } else {
                                        Relation::NotEqual
                                    },
                                ),
                            ),
                        )
                    } else {
                        (s1, Err(Err(s1.tag_unexpected_char_expected(tag, "="@))))
                    },
                }
            } else if c == '>' || c == '<' {
                let s1 = self.step();
                match s1.tag_current_or_unexpected_eof(tag) {
                    Err(e) => (s1, Err(e)),
                    Ok(d) => if d == '=' {
                        (
                            s1.step().bypass_whitespace(),
                            Ok(
                                Some(
                                    if c == '>' {
                                        Relation::GreaterOrEqual
                                    } else {
                                        Relation::LessOrEqual
                                    },
                                ),
                            ),
                        )
                    } else {
                        (
                            s1.bypass_whitespace(),
                            Ok(
                                Some(
                                    if c == '>' {
                                        Relation::Greater
                                    } else {
                                        Relation::Less
                                    },
                                ),
                            ),
                        )
                    },
                }
            } else {
                (self, Ok(None))
            },
        }
    }

    /// Reads a comparison, or a value alone, which is tested for truth.
    pub open spec fn comparison(self, st: IfState) -> (ParserView, StepView<Condition>) {
        let (s1, r1) = self.bypass_whitespace().parse_value(st.tagname);
        match r1 {
            Err(e) => (s1, Err(e)),
            Ok(left) => {
                let (s2, r2) = s1.bypass_whitespace().relation(st.tagname);
                match r2 {
                    Err(e) => (s2, Err(e)),
                    Ok(None) => (s2, Ok(st.term(is_truthy(left)))),
                    Ok(Some(rel)) => {
                        let (s3, r3) = s2.parse_value(st.tagname);
                        match r3 {
                            Err(e) => (s3, Err(e)),
                            Ok(right) => (s3, Ok(st.term(holds(rel, left, right)))),
                        }
                    },
                }
            },
        }
    }

    /// Reads `&&` or `||`, where one stands.
    pub open spec fn join(self, tag: Seq<char>) -> (ParserView, StepView<Option<Join>>) {
        match self.tag_current_or_unexpected_eof(tag) {
            Err(e) => (self, Err(e)),
            Ok(c) => if c == '&' || c == '|' {
                let s1 = self.step();
                match s1.tag_current_or_unexpected_eof(tag) {
                    Err(e) => (s1, Err(e)),
                    Ok(d) => if d == c {
                        (
                            s1.step(),
                            Ok(
                                Some(
                                    if c == '&' {
                                        Join::And
                                    } else {
                                        Join::Or
                                    },
                                ),
                            ),
                        )
                    } else {
                        (s1, Err(Err(s1.tag_unexpected_char(tag))))
                    },
                }
            } else {
                (self, Ok(None))
            },
        }
    }

    pub open spec fn no_condition(self) -> ErrorView {
        self.fail(
            ErrorKind::BadState,
            "If tag fell into an unexpected state: a valid condition end was found but no condition was set."@,
        )
    }

    pub open spec fn bad_parse_until(self, tag: Seq<char>) -> ErrorView {
        self.fail(ErrorKind::BadState, "Not a valid parse until for tag '"@ + tag + "'"@)
    }

    /// Reads a closing bracket, which ends a group and nothing else.
    pub open spec fn group_end(self, st: IfState) -> (ParserView, StepView<Condition>) {
        let s1 = self.step();
        match st.parse_until {
            ParseUntil::ConditionEnd => match st.condition {
                Some(c) => if c.join is Some {
                    (s1, Err(Err(s1.tag_unexpected_char_expected(st.tagname, ")"@))))
                } else {
                    (s1, Ok(c))
                },
                None => (s1, Err(Err(s1.no_condition()))),
            },
            _ => (s1, Err(Err(s1.tag_unexpected_char(st.tagname)))),
        }
    }

    /// Reads what stands behind a term: the join, if any. Gives the term's
    /// condition with its join, negated where the term is evaluated and an
    /// odd number of `!` stands before it.
    pub open spec fn after_term(self, st: IfState, term: Condition, negate: bool) -> (ParserView, StepView<Condition>) {
        let (s1, r1) = self.bypass_whitespace().join(st.tagname);
        match r1 {
            Err(e) => (s1, Err(e)),
            Ok(j) => {
                let joined = match j {
                    Some(join) => term.spec_set_join(join),
                    None => term,
                };
                let c = if st.fixed() is None && negate {
                    joined.spec_negate()
                } else {
                    joined
                };
                (s1, Ok(c))
            },
        }
    }

    /// Reads one term: a group in round brackets or a comparison, behind
    /// any number of `!`, and the join behind it; or the closing bracket
    /// of the group being read.
    pub open spec fn term(self, st: IfState) -> (ParserView, StepView<TermEnd>)
        decreases self.input.remaining(), 0nat,
    {
        let (s1, r1) = self.negations(st.tagname);
        match r1 {
            Err(e) => (s1, Err(e)),
            Ok(negate) => {
                if s1.current() == Some(')') {
                    let (s2, r2) = s1.group_end(st);
                    match r2 {
                        Err(e) => (s2, Err(e)),
                        Ok(c) => (s2, Ok(TermEnd::Closed(c))),
                    }
                } else {
                    let (s2, r2) = if s1.current() == Some('(') {
                        match st.group_bypass() {
                            Err(e) => (s1.step(), Err(Err(e.upgrade(s1.step().input)))),
                            Ok(inner) => if s1.step().input.remaining() < self.input.remaining() {
                                let (s2, r2) = s1.step().condition(
                                    IfState::new(st.tagname, ParseUntil::ConditionEnd, inner),
                                );
                                match r2 {
                                    Err(e) => (s2, Err(e)),
                                    Ok(group) => (s2, Ok(st.term(group.evaluation))),
                                }
                            } else {
                                (s1.step(), Err(Err(s1.step().stalled())))
                            },
                        }
                    } else {
                        s1.comparison(st)
                    };
                    match r2 {
                        Err(e) => (s2, Err(e)),
                        Ok(term) => {
                            let (s3, r3) = s2.after_term(st, term, negate);
                            match r3 {
                                Err(e) => (s3, Err(e)),
                                Ok(c) => (s3, Ok(TermEnd::Joined(c))),
                            }
                        },
                    }
                }
            },
        }
    }

    /// Reads a condition: terms joined by `&&` and `||`, from left to
    /// right. A group ends at its closing bracket, the whole condition
    /// where a term has no join behind it. The state carries the value so
    /// far from term to term.
    pub open spec fn condition(self, st: IfState) -> (ParserView, StepView<Condition>)
        decreases self.input.remaining(), 1nat,
    {
        let (s1, r1) = self.term(st);
        match r1 {
            Err(e) => (s1, Err(e)),
            Ok(TermEnd::Closed(c)) => (s1, Ok(c)),
            Ok(TermEnd::Joined(c)) => match st.onward(c) {
                None => (s1, Err(Err(s1.bad_parse_until(st.tagname)))),
                Some(Onward::Done) => (s1.bypass_whitespace(), Ok(c)),
                Some(Onward::More(next)) => {
                    let s2 = s1.bypass_whitespace();
                    if s2.input.remaining() < self.input.remaining() {
                        s2.condition(next)
                    } else {
                        (s2, Err(Err(s2.stalled())))
                    }
                },
            },
        }
    }
}

impl<'f> TemplateParser<'f> {
    /// Steps over a run of `!` and says whether it negates.
    pub fn negations(&mut self, tagname: &str) -> (r: StepResult<bool>)
        requires
            old(self).wf(),
        ensures
            final(self).wf(),
            agrees(final(self)@, r, old(self)@.negations(tagname@)),
    {
        let mut negate = false;
        loop
            invariant
                self.wf(),
                old(self)@.negations(tagname@).0 == self@.negations(tagname@).0,
                match self@.negations(tagname@).1 {
                    Ok(n) => old(self)@.negations(tagname@).1 == Ok::<bool, FlowView>(
                        n != negate,
                    ),
                    Err(e) => old(self)@.negations(tagname@).1 == Err::<bool, FlowView>(e),
                },
            decreases self@.input.remaining(),
        {
            let c = self.tag_current_or_unexpected_eof(tagname)?;
            if c != '!' {
                return Ok(negate);
            }
            self.step();
            negate = !negate;
        }
    }

    /// Reads the operator of a comparison and the white space behind it.
    pub fn relation(&mut self, tagname: &str) -> (r: StepResult<Option<Relation>>)
        requires
            old(self).wf(),
        ensures
            final(self).wf(),
            agrees(final(self)@, r, old(self)@.relation(tagname@)),
    {
        let c = self.tag_current_or_unexpected_eof(tagname)?;
        if c == '=' || c == '!' {
            self.step();
            let d = self.tag_current_or_unexpected_eof(tagname)?;
            if d == '=' {
                self.step();
                let _ = self.bypass_whitespace();
                if c == '=' {
                    Ok(Some(Relation::Equal))
                } else {
                    Ok(Some(Relation::NotEqual))
                }
            } else {
                self.tag_unexpected_char_expected(tagname, "=")
            }
        } else if c == '>' || c == '<' {
            self.step();
            let d = self.tag_current_or_unexpected_eof(tagname)?;
            if d == '=' {
                self.step();
                let _ = self.bypass_whitespace();
                if c == '>' {
                    Ok(Some(Relation::GreaterOrEqual))
                } else {
                    Ok(Some(Relation::LessOrEqual))
                }
            } else {
                let _ = self.bypass_whitespace();
                if c == '>' {
                    Ok(Some(Relation::Greater))
                } else {
                    Ok(Some(Relation::Less))
                }
            }
        } else {
            Ok(None)
        }
    }

    /// Reads `&&` or `||`, where one stands.
    pub fn join(&mut self, tagname: &str) -> (r: StepResult<Option<Join>>)
        requires
            old(self).wf(),
        ensures
            final(self).wf(),
            agrees(final(self)@, r, old(self)@.join(tagname@)),
    {
        let c = self.tag_current_or_unexpected_eof(tagname)?;
        if c == '&' || c == '|' {
            self.step();
            let d = self.tag_current_or_unexpected_eof(tagname)?;
            if d == c {
                self.step();
                if c == '&' {
                    Ok(Some(Join::And))
                } else {
                    Ok(Some(Join::Or))
                }
            } else {
                self.tag_unexpected_char(tagname)
            }
        } else {
            Ok(None)
        }
    }
}

impl IfParser {
    pub fn new(tagname: &str, parse_until: ParseUntil, bypass: Option<bool>) -> (r: Self)
        ensures
            r@ == IfState::new(tagname@, parse_until, bypass),
    {
        Self { tagname: tagname.to_owned(), condition: None, parse_until, bypass }
    }

    /// The value that the next term takes without being evaluated.
    fn fixed(&self) -> (r: Option<bool>)
        ensures
            r == self@.fixed(),
    {
        match self.bypass {
            Some(b) => Some(b),
            None => match self.condition {
                Some(c) => match c.join {
                    Some(Join::And) => if c.evaluation {
                        None
                    } else {
                        Some(false)
                    },
                    Some(Join::Or) => if c.evaluation {
                        Some(true)
                    } else {
                        None
                    },
                    None => None,
                },
                None => None,
            },
        }
    }

    /// The value so far behind a term of the given value.
    fn value_of(&self, value: bool) -> (r: Condition)
        ensures
            r == self@.term(value),
    {
        match self.fixed() {
            Some(b) => Condition::from(b),
            None => Condition::from(value),
        }
    }

    /// The fixed value that a group starts with.
    fn group_bypass(&self) -> (r: InternalResult<Option<bool>>)
        ensures
            crate::error::result_view(r) == self@.group_bypass(),
    {
        match self.bypass {
            Some(b) => Ok(Some(b)),
            None => match &self.condition {
                Some(c) => {
                    let next = c.requires_next()?;
                    if !next {
                        Ok(Some(c.as_evaluation()))
                    } else {
                        Ok(None)
                    }
                },
                None => Ok(None),
            },
        }
    }

    /// Reads a comparison, or a value alone, which is tested for truth.
    fn comparison(&self, parser: &mut TemplateParser<'_>) -> (r: StepResult<Condition>)
        requires
            old(parser).wf(),
        ensures
            final(parser).wf(),
            agrees(final(parser)@, r, old(parser)@.comparison(self@)),
    {
        let _ = parser.bypass_whitespace();
        let left = parser.parse_value(self.tagname.as_str())?;
        let _ = parser.bypass_whitespace();
        match parser.relation(self.tagname.as_str())? {
            None => {
                let truthy = match &left {
                    Some(s) => !text_is_falsy(s.as_str()),
                    None => false,
                };
                Ok(self.value_of(truthy))
            },
            Some(rel) => {
                let right = parser.parse_value(self.tagname.as_str())?;
                Ok(self.value_of(evaluate(rel, &left, &right)))
            },
        }
    }

    /// Reads a closing bracket, which ends a group and nothing else.
    fn group_end(&self, parser: &mut TemplateParser<'_>) -> (r: StepResult<Condition>)
        requires
            old(parser).wf(),
        ensures
            final(parser).wf(),
            agrees(final(parser)@, r, old(parser)@.group_end(self@)),
    {
        parser.step();
        match self.parse_until {
            ParseUntil::ConditionEnd => match self.condition {
                Some(c) => {
                    if c.join.is_some() {
                        parser.tag_unexpected_char_expected(self.tagname.as_str(), ")")
                    } else {
                        Ok(c)
                    }
                },
                None => Err(
                    Err(
                        parser.fail(
                            ErrorKind::BadState,
                            "If tag fell into an unexpected state: a valid condition end was found but no condition was set.",
                        ),
                    ),
                ),
            },
            _ => parser.tag_unexpected_char(self.tagname.as_str()),
        }
    }

    /// Reads what stands behind a term: the join, if any.
    fn after_term(&self, parser: &mut TemplateParser<'_>, term: Condition, negate: bool) -> (r:
        StepResult<Condition>)
        requires
            old(parser).wf(),
        ensures
            final(parser).wf(),
            agrees(final(parser)@, r, old(parser)@.after_term(self@, term, negate)),
    {
        let _ = parser.bypass_whitespace();
        let join = parser.join(self.tagname.as_str())?;
        let mut c = term;
        match join {
            Some(j) => {
                c.set_join(j);
            },
            None => {},
        }
        if self.fixed().is_none() && negate {
            c.negate();
        }
        Ok(c)
    }

    /// Reads one term, or the closing bracket of the group being read.
    fn term(&self, parser: &mut TemplateParser<'_>) -> (r: StepResult<TermEnd>)
        requires
            old(parser).wf(),
        ensures
            final(parser).wf(),
            agrees(final(parser)@, r, old(parser)@.term(self@)),
        decreases old(parser)@.input.remaining(), 0nat,
    {
        let ghost start = parser@;
        proof {
            crate::progress::law_conditions_move_on(start, self@);
        }
        let negate = parser.negations(self.tagname.as_str())?;
        let c = parser.current();
        if c == Some(')') {
            let closed = self.group_end(parser)?;
            return Ok(TermEnd::Closed(closed));
        }
        let term = if c == Some('(') {
            let inner = match self.group_bypass() {
                Ok(inner) => inner,
                Err(e) => {
                    let mut e = e;
                    parser.step();
                    e.upgrade(parser);
                    return Err(Err(e));
                },
            };
            parser.step();
            let group = Self::parse_condition(
                self.tagname.as_str(),
                parser,
                ParseUntil::ConditionEnd,
                inner,
            )?;
            self.value_of(group.as_evaluation())
        } else {
            self.comparison(parser)?
        };
        let joined = self.after_term(parser, term, negate)?;
        Ok(TermEnd::Joined(joined))
    }

    /// Takes a term's condition in and says whether another term follows.
    fn onward(&mut self, c: Condition) -> (r: Option<bool>)
        ensures
            match old(self)@.onward(c) {
                None => r is None,
                Some(Onward::Done) => r == Some(false),
                Some(Onward::More(next)) => r == Some(true) && final(self)@ == next,
            },
            !(old(self)@.onward(c) matches Some(Onward::More(_))) ==> final(self)@ == old(self)@,
    {
        let more = match self.parse_until {
            ParseUntil::ConditionEnd => true,
            ParseUntil::Eot => c.join.is_some(),
            _ => {
                return None;
            },
        };
        if !more {
            return Some(false);
        }
        self.condition = Some(c);
        Some(true)
    }

    /// Reads a condition up to its end: that of the group, or that of the
    /// whole condition.
    pub fn parse(&mut self, parser: &mut TemplateParser<'_>) -> (r: StepResult<Condition>)
        requires
            old(parser).wf(),
        ensures
            final(parser).wf(),
            agrees(final(parser)@, r, old(parser)@.condition(old(self)@)),
        decreases old(parser)@.input.remaining(), 1nat,
    {
        loop
            invariant
                parser.wf(),
                parser@.condition(self@) == old(parser)@.condition(old(self)@),
                parser@.input.remaining() <= old(parser)@.input.remaining(),
            decreases parser@.input.remaining(),
        {
            let ghost start = parser@;
            proof {
                crate::progress::law_conditions_move_on(start, self@);
            }
            let c = match self.term(parser)? {
                TermEnd::Closed(c) => {
                    return Ok(c);
                },
                TermEnd::Joined(c) => c,
            };
            match self.onward(c) {
                None => {
                    return Err(
                        Err(
                            parser.fail3(
                                ErrorKind::BadState,
                                "Not a valid parse until for tag '",
                                self.tagname.as_str(),
                                "'",
                            ),
                        ),
                    );
                },
                Some(false) => {
                    let _ = parser.bypass_whitespace();
                    return Ok(c);
                },
                Some(true) => {
                    let _ = parser.bypass_whitespace();
                },
            }
        }
    }

    /// Reads a condition with a reader of its own.
    pub fn parse_condition(
        tagname: &str,
        parser: &mut TemplateParser<'_>,
        parse_until: ParseUntil,
        bypass: Option<bool>,
    ) -> (r: StepResult<Condition>)
        requires
            old(parser).wf(),
        ensures
            final(parser).wf(),
            agrees(
                final(parser)@,
                r,
                old(parser)@.condition(IfState::new(tagname@, parse_until, bypass)),
            ),
        decreases old(parser)@.input.remaining(), 2nat,
    {
        let mut ifp = Self::new(tagname, parse_until, bypass);
        ifp.parse(parser)
    }

    /// Reads the condition of a tag up to the tag's end.
    pub fn parse_result(tagname: &str, parser: &mut TemplateParser<'_>) -> (r: StepResult<
        Condition,
    >)
        requires
            old(parser).wf(),
        ensures
            final(parser).wf(),
            agrees(final(parser)@, r, old(parser)@.parse_result(tagname@)),
    {
        Self::parse_condition(tagname, parser, ParseUntil::Eot, None)
    }
}

impl ParserView {
    /// Reads the condition of a tag up to the tag's end.
    pub open spec fn parse_result(self, tag: Seq<char>) -> (ParserView, StepView<Condition>) {
        self.condition(IfState::new(tag, ParseUntil::Eot, None))
    }
}

} // verus!
