//! Text helpers shared by the whole engine: character classes, conversions
//! between strings and character vectors, decimal numbers, trimming, ordering
//! and splitting. Everything here is stated over `Seq<char>`.

use vstd::prelude::*;
use vstd::string::*;
use vstd::utf8::{decode_utf8, valid_utf8};

verus! {

/// Calls `std::str::from_utf8`: the text that the bytes encode, or nothing
/// where they are not UTF-8.
#[verifier::external_body]
pub(crate) fn decode(bytes: &[u8]) -> (r: Option<String>)
    ensures
        match r {
            Some(s) => valid_utf8(bytes@) && s@ == decode_utf8(bytes@),
            None => !valid_utf8(bytes@),
        },
{
    match std::str::from_utf8(bytes) {
        Ok(s) => Some(s.to_owned()),
        Err(_) => None,
    }
}

/// `String::push` appends one character.
pub assume_specification[ String::push ](s: &mut String, c: char)
    ensures
        final(s)@ == old(s)@.push(c),
;

/// White space as the template syntax understands it: the Unicode code points
/// with the `White_Space` property.
pub open spec fn spec_is_whitespace(c: char) -> bool {
    let n = c as u32;
    (0x09 <= n && n <= 0x0d) || n == 0x20 || n == 0x85 || n == 0xa0 || n == 0x1680 || (0x2000 <= n
        && n <= 0x200a) || n == 0x2028 || n == 0x2029 || n == 0x202f || n == 0x205f || n == 0x3000
}

#[verifier::when_used_as_spec(spec_is_whitespace)]
pub fn is_whitespace(c: char) -> (r: bool)
    ensures
        r == spec_is_whitespace(c),
{
    let n: u32 = c as u32;
    (0x09 <= n && n <= 0x0d) || n == 0x20 || n == 0x85 || n == 0xa0 || n == 0x1680 || (0x2000 <= n
        && n <= 0x200a) || n == 0x2028 || n == 0x2029 || n == 0x202f || n == 0x205f || n == 0x3000
}

pub fn is_not_whitespace(c: char) -> (r: bool)
    ensures
        r == !spec_is_whitespace(c),
{
    !is_whitespace(c)
}

/// An ASCII decimal digit.
pub open spec fn spec_is_digit(c: char) -> bool {
    0x30 <= c as u32 && c as u32 <= 0x39
}

#[verifier::when_used_as_spec(spec_is_digit)]
pub fn is_digit(c: char) -> (r: bool)
    ensures
        r == spec_is_digit(c),
{
    let n: u32 = c as u32;
    0x30 <= n && n <= 0x39
}

/// An ASCII letter.
pub open spec fn spec_is_letter(c: char) -> bool {
    let n = c as u32;
    (0x41 <= n && n <= 0x5a) || (0x61 <= n && n <= 0x7a)
}

#[verifier::when_used_as_spec(spec_is_letter)]
pub fn is_letter(c: char) -> (r: bool)
    ensures
        r == spec_is_letter(c),
{
    let n: u32 = c as u32;
    (0x41 <= n && n <= 0x5a) || (0x61 <= n && n <= 0x7a)
}

/// The characters that may start a name: `[A-Za-z_]`.
pub open spec fn spec_is_name_start(c: char) -> bool {
    spec_is_letter(c) || c == '_'
}

#[verifier::when_used_as_spec(spec_is_name_start)]
pub fn is_name_start(c: char) -> (r: bool)
    ensures
        r == spec_is_name_start(c),
{
    is_letter(c) || c == '_'
}

/// The characters that may continue a name: `[A-Za-z0-9_.]`.
pub open spec fn spec_is_name_char(c: char) -> bool {
    spec_is_letter(c) || spec_is_digit(c) || c == '_' || c == '.'
}

#[verifier::when_used_as_spec(spec_is_name_char)]
pub fn is_name_char(c: char) -> (r: bool)
    ensures
        r == spec_is_name_char(c),
{
    is_letter(c) || is_digit(c) || c == '_' || c == '.'
}

/// The characters that may start a number literal: a sign or a digit.
pub open spec fn spec_is_number_start(c: char) -> bool {
    spec_is_digit(c) || c == '-' || c == '+'
}

#[verifier::when_used_as_spec(spec_is_number_start)]
pub fn is_number_start(c: char) -> (r: bool)
    ensures
        r == spec_is_number_start(c),
{
    is_digit(c) || c == '-' || c == '+'
}

/// The characters of a string, in order.
pub fn to_chars(s: &str) -> (v: Vec<char>)
    ensures
        v@ == s@,
{
    let mut v: Vec<char> = Vec::new();
    for c in it: s.chars()
        invariant
            v@ == it.seq().take(it.index() as int),
            it.seq() == s@,
    {
        v.push(c);
    }
    v
}

/// The string made of `v[from..to]`.
pub fn string_of(v: &Vec<char>, from: usize, to: usize) -> (s: String)
    requires
        from <= to <= v.len(),
    ensures
        s@ == v@.subrange(from as int, to as int),
{
    let mut s = String::new();
    let mut i: usize = from;
    while i < to
        invariant
            from <= i <= to <= v.len(),
            s@ == v@.subrange(from as int, i as int),
        decreases to - i,
    {
        s.push(v[i]);
        i += 1;
    }
    s
}

/// A string of one character.
pub fn char_string(c: char) -> (s: String)
    ensures
        s@ == seq![c],
{
    let mut s = String::new();
    s.push(c);
    s
}

/// `a` followed by `b`.
pub fn concat(a: &str, b: &str) -> (s: String)
    ensures
        s@ == a@ + b@,
{
    let mut s = a.to_owned();
    s.append(b);
    s
}

/// `a`, `b` and `c` in a row.
pub fn concat3(a: &str, b: &str, c: &str) -> (s: String)
    ensures
        s@ == a@ + b@ + c@,
{
    let mut s = a.to_owned();
    s.append(b);
    s.append(c);
    s
}

// ---------------------------------------------------------------------------
// Decimal numbers
// ---------------------------------------------------------------------------

pub open spec fn all_digits(s: Seq<char>) -> bool {
    forall|i: int| 0 <= i < s.len() ==> spec_is_digit(#[trigger] s[i])
}

pub open spec fn digit_value(c: char) -> int {
    c as u32 as int - 0x30
}

/// The number that a run of digits denotes; zero for the empty run.
pub open spec fn digits_value(s: Seq<char>) -> int
    decreases s.len(),
{
    if s.len() == 0 {
        0
    } else {
        digits_value(s.drop_last()) * 10 + digit_value(s.last())
    }
}

/// The integer that `s` denotes when it has the form `[-+]?[0-9]+`.
pub open spec fn integer_value(s: Seq<char>) -> Option<int> {
    if s.len() > 0 && (s[0] == '-' || s[0] == '+') {
        let digits = s.subrange(1, s.len() as int);
        if digits.len() > 0 && all_digits(digits) {
            if s[0] == '-' {
                Some(-digits_value(digits))
            } else {
                Some(digits_value(digits))
            }
        } else {
            None
        }
    } else if s.len() > 0 && all_digits(s) {
        Some(digits_value(s))
    } else {
        None
    }
}

/// The 64-bit signed integer that `s` denotes, if it denotes one that fits.
pub open spec fn i64_value(s: Seq<char>) -> Option<i64> {
    match integer_value(s) {
        Some(v) => if i64::MIN <= v <= i64::MAX {
            Some(v as i64)
        } else {
            None
        },
        None => None,
    }
}

pub proof fn lemma_digits_value_nonnegative(s: Seq<char>)
    requires
        all_digits(s),
    ensures
        digits_value(s) >= 0,
    decreases s.len(),
{
    if s.len() > 0 {
        lemma_digits_value_nonnegative(s.drop_last());
    }
}

/// A run of digits denotes at least what any of its prefixes denotes.
pub proof fn lemma_digits_value_grows(s: Seq<char>, k: int)
    requires
        all_digits(s),
        0 <= k <= s.len(),
    ensures
        digits_value(s.take(k)) <= digits_value(s),
    decreases s.len() - k,
{
    if k == s.len() {
        assert(s.take(k) == s);
    } else {
        lemma_digits_value_grows(s, k + 1);
        assert(s.take(k + 1).drop_last() == s.take(k));
        assert(all_digits(s.take(k))) by {
            assert forall|i: int| 0 <= i < s.take(k).len() implies spec_is_digit(
                #[trigger] s.take(k)[i],
            ) by {
                assert(s.take(k)[i] == s[i]);
            }
        }
        lemma_digits_value_nonnegative(s.take(k));
    }
}

/// Reads the digits `v[from..to]`; `None` when one of them is no digit or the
/// number is above 2^63.
fn parse_digits(v: &Vec<char>, from: usize, to: usize) -> (r: Option<u64>)
    requires
        from <= to <= v.len(),
    ensures
        match r {
            Some(n) => all_digits(v@.subrange(from as int, to as int)) && n == digits_value(
                v@.subrange(from as int, to as int),
            ) && n <= 0x8000_0000_0000_0000,
            None => !all_digits(v@.subrange(from as int, to as int)) || digits_value(
                v@.subrange(from as int, to as int),
            ) > 0x8000_0000_0000_0000,
        },
{
    let ghost whole = v@.subrange(from as int, to as int);
    let mut acc: u64 = 0;
    let mut i: usize = from;
    while i < to
        invariant
            from <= i <= to <= v.len(),
            whole == v@.subrange(from as int, to as int),
            all_digits(v@.subrange(from as int, i as int)),
            acc == digits_value(v@.subrange(from as int, i as int)),
            acc <= 0x8000_0000_0000_0000,
        decreases to - i,
    {
        let c = v[i];
        let ghost before = v@.subrange(from as int, i as int);
        let ghost after = v@.subrange(from as int, i + 1);
        proof {
            assert(after.drop_last() == before);
            assert(after.last() == c);
            assert(whole[i - from] == c);
        }
        if !is_digit(c) {
            return None;
        }
        let d: u64 = (c as u32 - 0x30) as u64;
        proof {
            assert(all_digits(after)) by {
                assert forall|j: int| 0 <= j < after.len() implies spec_is_digit(
                    #[trigger] after[j],
                ) by {
                    if j < before.len() {
                        assert(after[j] == before[j]);
                    }
                }
            }
            assert(digits_value(after) == acc * 10 + d);
        }
        if acc > 922337203685477580 || acc * 10 + d > 0x8000_0000_0000_0000 {
            proof {
                if all_digits(whole) {
                    assert(whole.take(i + 1 - from) == after);
                    lemma_digits_value_grows(whole, i + 1 - from);
                }
            }
            return None;
        }
        acc = acc * 10 + d;
        i += 1;
    }
    Some(acc)
}

/// Reads a signed decimal integer, as `str::parse::<i64>` does: an optional
/// sign, then at least one digit, nothing else, and a value that fits.
pub fn parse_i64(v: &Vec<char>) -> (r: Option<i64>)
    ensures
        r == i64_value(v@),
{
    let n = v.len();
    if n == 0 {
        return None;
    }
    let first = v[0];
    if first == '-' || first == '+' {
        if n == 1 {
            return None;
        }
        match parse_digits(v, 1, n) {
            None => None,
            Some(m) => {
                if first == '-' {
                    if m == 0x8000_0000_0000_0000 {
                        Some(i64::MIN)
                    } else {
                        Some(0 - (m as i64))
                    }
                } else if m == 0x8000_0000_0000_0000 {
                    None
                } else {
                    Some(m as i64)
                }
            },
        }
    } else {
        proof {
            assert(v@.subrange(0, n as int) == v@);
        }
        match parse_digits(v, 0, n) {
            None => None,
            Some(m) => {
                if m == 0x8000_0000_0000_0000 {
                    None
                } else {
                    Some(m as i64)
                }
            },
        }
    }
}

pub open spec fn digit_char(d: int) -> char {
    ((0x30 + d) as u8) as char
}

/// The decimal digits of a natural number, without leading zeros.
pub open spec fn nat_text(n: nat) -> Seq<char>
    decreases n,
{
    if n < 10 {
        seq![digit_char(n as int)]
    } else {
        nat_text(n / 10).push(digit_char((n % 10) as int))
    }
}

/// The decimal form of an integer: a minus sign where it is negative, then
/// its digits.
pub open spec fn int_text(n: int) -> Seq<char> {
    if n < 0 {
        seq!['-'] + nat_text((-n) as nat)
    } else {
        nat_text(n as nat)
    }
}

/// Appends the decimal digits of `n` to `out`.
pub fn push_nat(out: &mut String, n: u64)
    ensures
        final(out)@ == old(out)@ + nat_text(n as nat),
    decreases n,
{
    if n >= 10 {
        push_nat(out, n / 10);
    }
    let d: u8 = (n % 10) as u8;
    out.push((0x30u8 + d) as char);
    proof {
        if n < 10 {
            assert(old(out)@.push(digit_char(n as int)) == old(out)@ + seq![digit_char(n as int)]);
        } else {
            assert((old(out)@ + nat_text((n / 10) as nat)).push(digit_char((n % 10) as int))
                == old(out)@ + nat_text((n / 10) as nat).push(digit_char((n % 10) as int)));
        }
    }
}

/// The decimal form of a length or a count.
pub fn usize_text(n: usize) -> (s: String)
    ensures
        s@ == nat_text(n as nat),
{
    let mut s = String::new();
    push_nat(&mut s, n as u64);
    assert(Seq::<char>::empty() + nat_text(n as nat) == nat_text(n as nat));
    s
}

/// The decimal form of a signed number.
pub fn i64_text(n: i64) -> (s: String)
    ensures
        s@ == int_text(n as int),
{
    let mut s = String::new();
    if n < 0 {
        s.push('-');
        let m: u64 = if n == i64::MIN {
            0x8000_0000_0000_0000u64
        } else {
            (0 - n) as u64
        };
        push_nat(&mut s, m);
        assert(Seq::<char>::empty().push('-') == seq!['-']);
    } else {
        push_nat(&mut s, n as u64);
        assert(Seq::<char>::empty() + nat_text(n as nat) == nat_text(n as nat));
    }
    s
}


// ---------------------------------------------------------------------------
// Trimming
// ---------------------------------------------------------------------------

/// The first index at or after `i` that holds no white space.
pub open spec fn skip_space_forward(s: Seq<char>, i: int) -> int
    decreases s.len() - i,
{
    if 0 <= i < s.len() && spec_is_whitespace(s[i]) {
        skip_space_forward(s, i + 1)
    } else {
        i
    }
}

/// The end of the last character before `j` that is no white space, not
/// going below `floor`.
pub open spec fn skip_space_backward(s: Seq<char>, j: int, floor: int) -> int
    decreases j,
{
    if floor < j && 0 < j <= s.len() && spec_is_whitespace(s[j - 1]) {
        skip_space_backward(s, j - 1, floor)
    } else {
        j
    }
}

/// `s` without the white space at its two ends.
pub open spec fn trimmed(s: Seq<char>) -> Seq<char> {
    let a = skip_space_forward(s, 0);
    let b = skip_space_backward(s, s.len() as int, a);
    s.subrange(a, b)
}

/// The characters of `s` without the white space at its two ends.
pub fn trim(s: &str) -> (r: Vec<char>)
    ensures
        r@ == trimmed(s@),
{
    let v = to_chars(s);
    let mut a: usize = 0;
    while a < v.len() && is_whitespace(v[a])
        invariant
            a <= v.len(),
            skip_space_forward(v@, 0) == skip_space_forward(v@, a as int),
        decreases v.len() - a,
    {
        a += 1;
    }
    let mut b: usize = v.len();
    while b > a && is_whitespace(v[b - 1])
        invariant
            a <= b <= v.len(),
            skip_space_backward(v@, v.len() as int, a as int) == skip_space_backward(
                v@,
                b as int,
                a as int,
            ),
        decreases b,
    {
        b -= 1;
    }
    let mut r: Vec<char> = Vec::new();
    let mut i: usize = a;
    while i < b
        invariant
            a <= i <= b <= v.len(),
            r@ == v@.subrange(a as int, i as int),
        decreases b - i,
    {
        r.push(v[i]);
        i += 1;
    }
    r
}

// ---------------------------------------------------------------------------
// Truthiness
// ---------------------------------------------------------------------------

/// The lower-case form of an ASCII letter; any other character unchanged.
pub open spec fn spec_lower(c: char) -> char {
    if 0x41 <= c as u32 && c as u32 <= 0x5a {
        ((c as u32 + 0x20) as u8) as char
    } else {
        c
    }
}

#[verifier::when_used_as_spec(spec_lower)]
pub fn lower(c: char) -> (r: char)
    ensures
        r == spec_lower(c),
{
    let n: u32 = c as u32;
    if 0x41 <= n && n <= 0x5a {
        ((n + 0x20) as u8) as char
    } else {
        c
    }
}

/// The texts that count as false: the empty text, `0`, `n` and `false`,
/// whatever the case of their letters.
pub open spec fn is_falsy_text(s: Seq<char>) -> bool {
    let l = s.map_values(|c: char| spec_lower(c));
    l =~= Seq::<char>::empty() || l =~= seq!['0'] || l =~= seq!['n'] || l =~= seq![
        'f',
        'a',
        'l',
        's',
        'e',
    ]
}

/// A value is true unless it is absent or a false text.
pub open spec fn is_truthy(value: Option<Seq<char>>) -> bool {
    match value {
        None => false,
        Some(s) => !is_falsy_text(s),
    }
}

pub fn text_is_falsy(s: &str) -> (r: bool)
    ensures
        r == is_falsy_text(s@),
{
    let v = to_chars(s);
    let ghost l = s@.map_values(|c: char| spec_lower(c));
    let ghost word = seq!['f', 'a', 'l', 's', 'e'];
    assert(l.len() == v.len());
    assert(forall|i: int| 0 <= i < l.len() ==> l[i] == spec_lower(v@[i]));
    if v.len() == 0 {
        true
    } else if v.len() == 1 {
        let c = lower(v[0]);
        assert(l[0] == c);
        assert(seq!['0'][0] == '0' && seq!['n'][0] == 'n');
        c == '0' || c == 'n'
    } else if v.len() == 5 {
        let r = lower(v[0]) == 'f' && lower(v[1]) == 'a' && lower(v[2]) == 'l' && lower(v[3])
            == 's' && lower(v[4]) == 'e';
        assert(word[0] == 'f' && word[1] == 'a' && word[2] == 'l' && word[3] == 's' && word[4]
            == 'e');
        assert(r == (l =~= word)) by {
            if r {
                assert(l =~= word);
            } else {
                assert(l[0] != word[0] || l[1] != word[1] || l[2] != word[2] || l[3] != word[3]
                    || l[4] != word[4]);
            }
        }
        r
    } else {
        false
    }
}

// ---------------------------------------------------------------------------
// Ordering
// ---------------------------------------------------------------------------

/// Whether `a` comes before `b` in the order of strings, read from index `i`
/// on: character by character, a proper prefix first.
pub open spec fn text_less_from(a: Seq<char>, b: Seq<char>, i: int) -> bool
    decreases a.len() - i,
{
    if i < 0 || i >= b.len() {
        false
    } else if i >= a.len() {
        true
    } else if a[i] != b[i] {
        (a[i] as u32) < (b[i] as u32)
    } else {
        text_less_from(a, b, i + 1)
    }
}

/// Whether `a` comes before `b` in the order of strings.
pub open spec fn text_less(a: Seq<char>, b: Seq<char>) -> bool {
    text_less_from(a, b, 0)
}

/// The order of optional texts: an absent one comes before every present one.
pub open spec fn value_less(a: Option<Seq<char>>, b: Option<Seq<char>>) -> bool {
    match (a, b) {
        (None, None) => false,
        (None, Some(_)) => true,
        (Some(_), None) => false,
        (Some(x), Some(y)) => text_less(x, y),
    }
}

pub fn chars_less(a: &Vec<char>, b: &Vec<char>) -> (r: bool)
    ensures
        r == text_less(a@, b@),
{
    let mut i: usize = 0;
    loop
        invariant
            i <= a.len(),
            i <= b.len(),
            text_less(a@, b@) == text_less_from(a@, b@, i as int),
        decreases a.len() - i,
    {
        if i >= b.len() {
            return false;
        }
        if i >= a.len() {
            return true;
        }
        if a[i] != b[i] {
            return (a[i] as u32) < (b[i] as u32);
        }
        i += 1;
    }
}

pub fn str_less(a: &str, b: &str) -> (r: bool)
    ensures
        r == text_less(a@, b@),
{
    let x = to_chars(a);
    let y = to_chars(b);
    chars_less(&x, &y)
}

// ---------------------------------------------------------------------------
// Splitting
// ---------------------------------------------------------------------------

/// The views of a list of strings.
pub open spec fn texts(v: Seq<String>) -> Seq<Seq<char>> {
    v.map_values(|s: String| s@)
}

pub proof fn lemma_texts_push(v: Seq<String>, s: String)
    ensures
        texts(v.push(s)) == texts(v).push(s@),
{
    assert(texts(v.push(s)) =~= texts(v).push(s@));
}

/// Whether `d` stands in `s` at index `i`.
pub open spec fn occurs_at(s: Seq<char>, d: Seq<char>, i: int) -> bool {
    0 <= i && i + d.len() <= s.len() && s.subrange(i, i + d.len()) == d
}

/// The first index at or after `from` at which `d` stands in `s`.
pub open spec fn first_occurrence(s: Seq<char>, d: Seq<char>, from: int) -> Option<int>
    decreases s.len() + 1 - from,
{
    if from < 0 || from + d.len() > s.len() {
        None
    } else if occurs_at(s, d, from) {
        Some(from)
    } else {
        first_occurrence(s, d, from + 1)
    }
}

/// The pieces of `s` from `start` on that the delimiter `d` separates, from
/// left to right, occurrences of `d` not overlapping. `d` is not empty.
pub open spec fn split_from(s: Seq<char>, d: Seq<char>, start: int) -> Seq<Seq<char>>
    decreases s.len() - start,
{
    match first_occurrence(s, d, start) {
        Some(i) => if start <= i && d.len() > 0 && i + d.len() <= s.len() {
            seq![s.subrange(start, i)] + split_from(s, d, i + d.len())
        } else {
            seq![s.subrange(start, s.len() as int)]
        },
        None => seq![s.subrange(start, s.len() as int)],
    }
}

/// The pieces of `s` that the delimiter `d` separates.
pub open spec fn split(s: Seq<char>, d: Seq<char>) -> Seq<Seq<char>> {
    split_from(s, d, 0)
}

/// The characters of `s`, each as a text of its own.
pub open spec fn singletons(s: Seq<char>) -> Seq<Seq<char>> {
    Seq::new(s.len(), |i: int| seq![s[i]])
}

pub proof fn lemma_first_occurrence_bounds(s: Seq<char>, d: Seq<char>, from: int)
    ensures
        match first_occurrence(s, d, from) {
            Some(i) => from <= i && occurs_at(s, d, i),
            None => true,
        },
    decreases s.len() + 1 - from,
{
    if from < 0 || from + d.len() > s.len() {
    } else if occurs_at(s, d, from) {
    } else {
        lemma_first_occurrence_bounds(s, d, from + 1);
    }
}

fn matches_at(s: &Vec<char>, d: &Vec<char>, i: usize) -> (r: bool)
    requires
        i + d.len() <= s.len(),
    ensures
        r == occurs_at(s@, d@, i as int),
{
    let mut k: usize = 0;
    while k < d.len()
        invariant
            k <= d.len(),
            i + d.len() <= s.len(),
            forall|j: int| 0 <= j < k ==> s@[i + j] == d@[j],
        decreases d.len() - k,
    {
        if s[i + k] != d[k] {
            assert(s@.subrange(i as int, i + d.len())[k as int] != d@[k as int]);
            return false;
        }
        k += 1;
    }
    assert(s@.subrange(i as int, i + d.len()) =~= d@);
    true
}

/// Finds the first place at or after `from` where `d` stands in `s`.
pub fn find_from(s: &Vec<char>, d: &Vec<char>, from: usize) -> (r: Option<usize>)
    ensures
        match (r, first_occurrence(s@, d@, from as int)) {
            (Some(i), Some(j)) => i == j,
            (None, None) => true,
            _ => false,
        },
{
    if d.len() > s.len() || from > s.len() - d.len() {
        return None;
    }
    let last: usize = s.len() - d.len();
    let mut i: usize = from;
    loop
        invariant
            from <= i <= last,
            last == s.len() - d.len(),
            first_occurrence(s@, d@, from as int) == first_occurrence(s@, d@, i as int),
        decreases last - i,
    {
        if matches_at(s, d, i) {
            return Some(i);
        }
        if i == last {
            assert(first_occurrence(s@, d@, i + 1) is None);
            return None;
        }
        i += 1;
    }
}

/// Splits `s` at each occurrence of the delimiter `d`, which is not empty.
pub fn split_text(s: &str, d: &str) -> (r: Vec<String>)
    requires
        d@.len() > 0,
    ensures
        texts(r@) == split(s@, d@),
{
    let sv = to_chars(s);
    let dv = to_chars(d);
    let mut out: Vec<String> = Vec::new();
    let mut start: usize = 0;
    assert(texts(out@) =~= Seq::<Seq<char>>::empty());
    loop
        invariant
            start <= sv.len(),
            dv.len() > 0,
            sv@ == s@,
            dv@ == d@,
            texts(out@) + split_from(sv@, dv@, start as int) == split(s@, d@),
        decreases sv.len() - start,
    {
        proof {
            lemma_first_occurrence_bounds(sv@, dv@, start as int);
        }
        match find_from(&sv, &dv, start) {
            Some(i) => {
                let piece = string_of(&sv, start, i);
                proof {
                    lemma_texts_push(out@, piece);
                    assert(texts(out@).push(piece@) + split_from(sv@, dv@, i + dv.len())
                        =~= texts(out@) + (seq![piece@] + split_from(sv@, dv@, i + dv.len())));
                }
                out.push(piece);
                start = i + dv.len();
            },
            None => {
                let piece = string_of(&sv, start, sv.len());
                proof {
                    lemma_texts_push(out@, piece);
                    assert(texts(out@).push(piece@) =~= texts(out@) + seq![piece@]);
                }
                out.push(piece);
                return out;
            },
        }
    }
}

/// Splits `s` into its characters.
pub fn split_chars(s: &str) -> (r: Vec<String>)
    ensures
        texts(r@) == singletons(s@),
{
    let sv = to_chars(s);
    let mut out: Vec<String> = Vec::new();
    let mut i: usize = 0;
    assert(texts(out@) =~= singletons(sv@).take(0));
    while i < sv.len()
        invariant
            i <= sv.len(),
            sv@ == s@,
            texts(out@) == singletons(sv@).take(i as int),
        decreases sv.len() - i,
    {
        let piece = char_string(sv[i]);
        proof {
            lemma_texts_push(out@, piece);
            assert(singletons(sv@).take(i as int).push(piece@) =~= singletons(sv@).take(i + 1));
        }
        out.push(piece);
        i += 1;
    }
    assert(singletons(sv@).take(sv.len() as int) =~= singletons(sv@));
    out
}


// ---------------------------------------------------------------------------
// Sorting
// ---------------------------------------------------------------------------

/// The first index from `i` on whose text comes behind `x`; the length
/// where there is none.
pub open spec fn insert_position(sorted: Seq<Seq<char>>, x: Seq<char>, i: int) -> int
    decreases sorted.len() + 1 - i,
{
    if i < 0 || i >= sorted.len() {
        sorted.len() as int
    } else if text_less(x, sorted[i]) {
        i
    } else {
        insert_position(sorted, x, i + 1)
    }
}

/// The first `n` texts of `s` in the order of strings: each text in turn
/// is put before the first one that comes behind it.
pub open spec fn sort_texts_to(s: Seq<Seq<char>>, n: nat) -> Seq<Seq<char>>
    decreases n,
{
    if n == 0 || n > s.len() {
        Seq::empty()
    } else {
        let before = sort_texts_to(s, (n - 1) as nat);
        before.insert(insert_position(before, s[n - 1], 0), s[n - 1])
    }
}

/// The texts of `s` in the order of strings.
pub open spec fn sort_texts(s: Seq<Seq<char>>) -> Seq<Seq<char>> {
    sort_texts_to(s, s.len())
}

/// Sorts strings into the order of strings.
pub fn sort_strings(v: Vec<String>) -> (r: Vec<String>)
    ensures
        texts(r@) == sort_texts(texts(v@)),
{
    let mut out: Vec<String> = Vec::new();
    let mut n: usize = 0;
    assert(texts(out@) =~= sort_texts_to(texts(v@), 0));
    while n < v.len()
        invariant
            n <= v.len(),
            out@.len() == n,
            texts(out@) == sort_texts_to(texts(v@), n as nat),
        decreases v.len() - n,
    {
        let x = v[n].clone();
        let mut i: usize = 0;
        while i < out.len() && !str_less(x.as_str(), out[i].as_str())
            invariant
                i <= out.len(),
                insert_position(texts(out@), x@, 0) == insert_position(texts(out@), x@, i as int),
            decreases out.len() - i,
        {
            assert(texts(out@)[i as int] == out@[i as int]@);
            i += 1;
        }
        proof {
            if i < out.len() {
                assert(texts(out@)[i as int] == out@[i as int]@);
            }
            assert(insert_position(texts(out@), x@, 0) == i);
            assert(texts(v@)[n as int] == x@);
            assert(texts(out@.insert(i as int, x)) =~= texts(out@).insert(i as int, x@));
        }
        out.insert(i, x);
        n += 1;
    }
    out
}

} // verus!
