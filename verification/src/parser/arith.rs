//! The arithmetic of the six arithmetic tags, on 64-bit signed integers.

use crate::error::ErrorKind;
use vstd::prelude::*;

verus! {

/// The arithmetic tags.
#[derive(Clone, Copy, Debug, PartialEq, Eq, Structural)]
pub enum Operation {
    Add,
    Sub,
    Mul,
    Div,
    Mod,
    Pow,
}

pub open spec fn fits_i64(n: int) -> bool {
    i64::MIN <= n <= i64::MAX
}

pub open spec fn magnitude(n: int) -> int {
    if n < 0 {
        -n
    } else {
        n
    }
}

/// Division that rounds towards zero; `d` is not zero.
pub open spec fn quotient(x: int, d: int) -> int {
    if (x < 0) == (d < 0) {
        magnitude(x) / magnitude(d)
    } else {
        -(magnitude(x) / magnitude(d))
    }
}

/// The remainder of the division that rounds towards zero: it has the sign
/// of `x`; `d` is not zero.
pub open spec fn remainder(x: int, d: int) -> int {
    if x < 0 {
        -(magnitude(x) % magnitude(d))
    } else {
        magnitude(x) % magnitude(d)
    }
}

/// `b` to the power `e`.
pub open spec fn power(b: nat, e: nat) -> nat
    decreases e,
{
    if e == 0 {
        1
    } else {
        b * power(b, (e - 1) as nat)
    }
}

/// What an arithmetic tag computes from the operand in the tag and the
/// number that its body gives:
/// the sum, the difference and the product, which must fit in 64 bits;
/// the quotient rounded towards zero, zero where the divisor is zero or the
/// quotient does not fit; the remainder, which needs a divisor other than
/// zero; and the power, whose operands must fit in 32 bits without sign and
/// whose value must.
pub open spec fn apply(op: Operation, value: i64, content: i64) -> Result<int, ErrorKind> {
    match op {
        Operation::Add => if fits_i64(value + content) {
            Ok(value + content)
        } else {
            Err(ErrorKind::BadNumber)
        },
        Operation::Sub => if fits_i64(value - content) {
            Ok(value - content)
        } else {
            Err(ErrorKind::BadNumber)
        },
        Operation::Mul => if fits_i64(value * content) {
            Ok(value * content)
        } else {
            Err(ErrorKind::BadNumber)
        },
        Operation::Div => if content == 0 || !fits_i64(quotient(value as int, content as int)) {
            Ok(0)
        } else {
            Ok(quotient(value as int, content as int))
        },
        Operation::Mod => if content == 0 {
            Err(ErrorKind::BadNumber)
        } else {
            Ok(remainder(value as int, content as int))
        },
        Operation::Pow => if value < 0 || value > u32::MAX || content < 0 || content > u32::MAX {
            Err(ErrorKind::BadNumber)
        } else if power(value as nat, content as nat) > u32::MAX {
            Err(ErrorKind::OverflowInPow)
        } else {
            Ok(power(value as nat, content as nat) as int)
        },
    }
}

pub proof fn lemma_power_positive(b: nat, e: nat)
    requires
        b >= 1,
    ensures
        power(b, e) >= 1,
    decreases e,
{
    if e > 0 {
        lemma_power_positive(b, (e - 1) as nat);
        assert(b * power(b, (e - 1) as nat) >= 1) by (nonlinear_arith)
            requires
                b >= 1,
                power(b, (e - 1) as nat) >= 1,
        ;
    }
}

/// A power of a base that is not zero grows with its exponent.
pub proof fn lemma_power_grows(b: nat, k: nat, e: nat)
    requires
        b >= 1,
        k <= e,
    ensures
        power(b, k) <= power(b, e),
    decreases e - k,
{
    if k < e {
        lemma_power_grows(b, k, (e - 1) as nat);
        lemma_power_positive(b, (e - 1) as nat);
        assert(power(b, (e - 1) as nat) <= b * power(b, (e - 1) as nat)) by (nonlinear_arith)
            requires
                b >= 1,
                power(b, (e - 1) as nat) >= 1,
        ;
    }
}

pub proof fn lemma_power_of_zero_and_one(e: nat)
    ensures
        power(1, e) == 1,
        e > 0 ==> power(0, e) == 0,
    decreases e,
{
    if e > 0 {
        lemma_power_of_zero_and_one((e - 1) as nat);
    }
}

/// The power of two numbers of 32 bits; nothing where it does not fit in 32
/// bits.
pub fn checked_power(b: u32, e: u32) -> (r: Option<u32>)
    ensures
        match r {
            Some(p) => p == power(b as nat, e as nat),
            None => power(b as nat, e as nat) > u32::MAX,
        },
{
    proof {
        lemma_power_of_zero_and_one(e as nat);
    }
    if e == 0 {
        return Some(1);
    }
    if b <= 1 {
        return Some(b);
    }
    let mut acc: u32 = 1;
    let mut k: u32 = 0;
    while k < e
        invariant
            k <= e,
            b >= 2,
            acc == power(b as nat, k as nat),
        decreases e - k,
    {
        match acc.checked_mul(b) {
            Some(next) => {
                assert(power(b as nat, (k + 1) as nat) == b * power(b as nat, k as nat));
                assert(b * acc == acc * b) by (nonlinear_arith);
                acc = next;
            },
            None => {
                proof {
                    assert(power(b as nat, (k + 1) as nat) == b * power(b as nat, k as nat));
                    assert(b * acc == acc * b) by (nonlinear_arith);
                    lemma_power_grows(b as nat, (k + 1) as nat, e as nat);
                }
                return None;
            },
        }
        k += 1;
    }
    Some(acc)
}

/// Computes what an arithmetic tag gives.
pub fn compute(op: Operation, value: i64, content: i64) -> (r: Result<i64, ErrorKind>)
    ensures
        match r {
            Ok(n) => apply(op, value, content) == Ok::<int, ErrorKind>(n as int),
            Err(kind) => apply(op, value, content) == Err::<int, ErrorKind>(kind),
        },
{
    match op {
        Operation::Add => match value.checked_add(content) {
            Some(n) => Ok(n),
            None => Err(ErrorKind::BadNumber),
        },
        Operation::Sub => match value.checked_sub(content) {
            Some(n) => Ok(n),
            None => Err(ErrorKind::BadNumber),
        },
        Operation::Mul => match value.checked_mul(content) {
            Some(n) => Ok(n),
            None => Err(ErrorKind::BadNumber),
        },
        Operation::Div => match value.checked_div(content) {
            Some(n) => Ok(n),
            None => Ok(0),
        },
        Operation::Mod => {
            if content == 0 {
                Err(ErrorKind::BadNumber)
            } else if content == -1 {
                assert(magnitude(value as int) % 1 == 0);
                Ok(0)
            } else {
                match value.checked_rem(content) {
                    Some(n) => Ok(n),
                    None => Ok(0),
                }
            }
        },
        Operation::Pow => {
            if value < 0 || value > 0xffff_ffff || content < 0 || content > 0xffff_ffff {
                return Err(ErrorKind::BadNumber);
            }
            match checked_power(value as u32, content as u32) {
                Some(p) => Ok(p as i64),
                None => Err(ErrorKind::OverflowInPow),
            }
        },
    }
}

} // verus!
