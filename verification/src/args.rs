//! What the programs around the engine read from their command lines:
//! bindings in the form delimiter, key, delimiter, value, and the names of
//! repeated form fields.

use crate::text::{first_occurrence, find_from, string_of, to_chars};
use vstd::prelude::*;

verus! {

/// The key and the value of a binding `<d>key<d>value`, where `<d>` is any
/// one character: the text behind the first character must hold that
/// character exactly once.
pub open spec fn binding_parts(s: Seq<char>) -> Option<(Seq<char>, Seq<char>)> {
    if s.len() < 2 {
        None
    } else {
        match first_occurrence(s, seq![s[0]], 1) {
            None => None,
            Some(i) => if 1 <= i < s.len() && first_occurrence(s, seq![s[0]], i + 1) is None {
                Some((s.subrange(1, i), s.subrange(i + 1, s.len() as int)))
            } else {
                None
            },
        }
    }
}

/// Reads a binding `<d>key<d>value`.
pub fn split_binding(dkv: &str) -> (r: Option<(String, String)>)
    ensures
        match r {
            Some((key, value)) => binding_parts(dkv@) == Some((key@, value@)),
            None => binding_parts(dkv@) is None,
        },
{
    let chars = to_chars(dkv);
    if chars.len() < 2 {
        return None;
    }
    let mut delimiter: Vec<char> = Vec::new();
    delimiter.push(chars[0]);
    assert(delimiter@ =~= seq![chars@[0]]);
    proof {
        crate::text::lemma_first_occurrence_bounds(chars@, delimiter@, 1);
    }
    match find_from(&chars, &delimiter, 1) {
        None => None,
        Some(i) => {
            if i + 1 > chars.len() {
                return None;
            }
            match find_from(&chars, &delimiter, i + 1) {
                Some(_) => None,
                None => Some((string_of(&chars, 1, i), string_of(&chars, i + 1, chars.len()))),
            }
        },
    }
}

/// The route and the path of a pair `<d>route<d>path`: the text behind the
/// first character up to the delimiter, and all that follows it; without a
/// second delimiter, the whole text and nothing.
pub open spec fn pair_parts(s: Seq<char>) -> (Seq<char>, Seq<char>) {
    match first_occurrence(s, seq![s[0]], 1) {
        Some(i) => if 1 <= i < s.len() {
            (s.subrange(1, i), s.subrange(i + 1, s.len() as int))
        } else {
            (s.subrange(1, s.len() as int), Seq::empty())
        },
        None => (s.subrange(1, s.len() as int), Seq::empty()),
    }
}

/// Reads a pair `<d>route<d>path`, which is not empty.
pub fn string_from_dkv(dkv: &str) -> (r: (String, String))
    requires
        dkv@.len() > 0,
    ensures
        (r.0@, r.1@) == pair_parts(dkv@),
{
    let chars = to_chars(dkv);
    let mut delimiter: Vec<char> = Vec::new();
    delimiter.push(chars[0]);
    assert(delimiter@ =~= seq![chars@[0]]);
    proof {
        crate::text::lemma_first_occurrence_bounds(chars@, delimiter@, 1);
    }
    match find_from(&chars, &delimiter, 1) {
        Some(i) => {
            if i < chars.len() {
                (string_of(&chars, 1, i), string_of(&chars, i + 1, chars.len()))
            } else {
                (string_of(&chars, 1, chars.len()), String::new())
            }
        },
        None => (string_of(&chars, 1, chars.len()), String::new()),
    }
}

/// The letter of a digit of base 26.
pub open spec fn letter(d: int) -> char {
    ((0x61 + d) as u8) as char
}

/// A number in letters, as spreadsheets name their columns: `a` to `z`,
/// then `aa` to `zz`, and so on; zero is `a`.
pub open spec fn base26_text(n: nat) -> Seq<char>
    decreases n,
{
    if n < 26 {
        seq![letter(n as int)]
    } else {
        base26_text((n / 26 - 1) as nat).push(letter((n % 26) as int))
    }
}

/// Appends a number in letters.
fn push_base26(out: &mut String, n: usize)
    ensures
        final(out)@ == old(out)@ + base26_text(n as nat),
    decreases n,
{
    if n >= 26 {
        push_base26(out, n / 26 - 1);
    }
    let d: u8 = (n % 26) as u8;
    out.push((0x61u8 + d) as char);
    proof {
        if n < 26 {
            assert(old(out)@.push(letter(n as int)) =~= old(out)@ + seq![letter(n as int)]);
        } else {
            assert((old(out)@ + base26_text((n / 26 - 1) as nat)).push(letter((n % 26) as int))
                =~= old(out)@ + base26_text((n / 26 - 1) as nat).push(letter((n % 26) as int)));
        }
    }
}

/// A number in letters.
pub fn base26(dec: usize) -> (r: String)
    ensures
        r@ == base26_text(dec as nat),
{
    let mut out = String::new();
    push_base26(&mut out, dec);
    assert(Seq::<char>::empty() + base26_text(dec as nat) =~= base26_text(dec as nat));
    out
}

} // verus!
