//! Reading a number literal: as a 32-bit integer if it is one, else as a
//! 64-bit integer if it is one, and else as a float, which is the host's
//! work.
use vstd::prelude::*;
use crate::lexer::digit_byte;
use crate::lexer::spec::is_digit_byte;

verus! {

/// What a number literal is read as.
#[derive(Debug, Clone, Copy, PartialEq, Eq, Structural)]
pub enum Literal {
    Int32(i32),
    Int64(i64),
    /// No integer of 64 bits: to be read as a float.
    Float,
}

/// The number that a sequence of decimal digits writes.
pub open spec fn digits_value(s: Seq<u8>) -> nat
    decreases s.len(),
{
    if s.len() == 0 {
        0
    } else {
        digits_value(s.drop_last()) * 10 + (s.last() - '0' as u8) as nat
    }
}

/// Whether every byte is a decimal digit.
pub open spec fn all_digits(s: Seq<u8>) -> bool {
    forall|i: int| 0 <= i < s.len() ==> is_digit_byte(#[trigger] s[i])
}

/// The integer that a text writes: an optional sign, then at least one
/// digit and nothing but digits. Any other text writes none.
pub open spec fn integer_value(s: Seq<u8>) -> Option<int> {
    if s.len() > 0 && (s[0] == '-' as u8 || s[0] == '+' as u8) {
        let d = s.drop_first();
        if d.len() > 0 && all_digits(d) {
            Some(
                if s[0] == '-' as u8 {
                    -(digits_value(d) as int)
                } else {
                    digits_value(d) as int
                },
            )
        } else {
            None
        }
    } else if s.len() > 0 && all_digits(s) {
        Some(digits_value(s) as int)
    } else {
        None
    }
}

/// What a text is read as: the narrowest of the two integer types that holds
/// the integer it writes, and a float if it writes no integer or one that
/// neither type holds.
pub open spec fn classify(s: Seq<u8>) -> Literal {
    match integer_value(s) {
        Some(v) => if i32::MIN <= v <= i32::MAX {
            Literal::Int32(v as i32)
        } else if i64::MIN <= v <= i64::MAX {
            Literal::Int64(v as i64)
        } else {
            Literal::Float
        },
        None => Literal::Float,
    }
}

/// More digits write no smaller a number.
proof fn lemma_digits_value_grows(s: Seq<u8>)
    requires
        s.len() > 0,
        is_digit_byte(s.last()),
    ensures
        digits_value(s) >= digits_value(s.drop_last()) * 10,
        digits_value(s) >= digits_value(s.drop_last()),
        digits_value(s) == digits_value(s.drop_last()) * 10 + (s.last() - '0' as u8),
{
}

/// The magnitude that the digits write if they are all digits and it fits in
/// 64 bits without sign: `Ok` of it; `Err(true)` if they are all digits and
/// it does not fit; `Err(false)` if some byte is no digit.
fn read_digits(s: &[u8], from: usize) -> (r: Result<u64, bool>)
    requires
        from <= s@.len(),
    ensures
        match r {
            Ok(v) => all_digits(s@.skip(from as int)) && v == digits_value(s@.skip(from as int)),
            Err(digits) => digits == all_digits(s@.skip(from as int)) && (digits ==> digits_value(
                s@.skip(from as int),
            ) > u64::MAX),
        },
{
    let ghost tail = s@.skip(from as int);
    let mut acc: u64 = 0;
    let mut big = false;
    let mut i: usize = from;
    assert(tail.take(0) =~= Seq::<u8>::empty());
    while i < s.len()
        invariant
            from <= i <= s@.len(),
            tail == s@.skip(from as int),
            all_digits(tail.take(i - from)),
            !big ==> acc == digits_value(tail.take(i - from)),
            big ==> digits_value(tail.take(i - from)) > u64::MAX,
        decreases s@.len() - i,
    {
        let b = s[i];
        let ghost before = tail.take(i - from);
        let ghost after = tail.take(i - from + 1);
        assert(after.drop_last() =~= before);
        assert(after.last() == b);
        if !digit_byte(b) {
            assert(!all_digits(tail)) by {
                assert(tail[i - from] == b);
            }
            return Err(false);
        }
        assert(all_digits(after)) by {
            assert forall|j: int| 0 <= j < after.len() implies is_digit_byte(
                #[trigger] after[j],
            ) by {
                if j < before.len() {
                    assert(after[j] == before[j]);
                }
            }
        }
        proof {
            lemma_digits_value_grows(after);
        }
        if !big {
            let d: u64 = (b - '0' as u8) as u64;
            match acc.checked_mul(10) {
                Some(m) => match m.checked_add(d) {
                    Some(n) => {
                        acc = n;
                    },
                    None => {
                        big = true;
                    },
                },
                None => {
                    big = true;
                },
            }
        }
        i += 1;
    }
    assert(tail.take(i - from) =~= tail);
    if big {
        Err(true)
    } else {
        Ok(acc)
    }
}

/// Reads a number literal.
pub fn read_number(s: &[u8]) -> (r: Literal)
    ensures
        r == classify(s@),
{
    if s.len() == 0 {
        return Literal::Float;
    }
    let signed = s[0] == '-' as u8 || s[0] == '+' as u8;
    let negative = s[0] == '-' as u8;
    let from: usize = if signed {
        1
    } else {
        0
    };
    assert(s@.skip(0) =~= s@);
    assert(s@.skip(1) =~= s@.drop_first());
    if s.len() == from {
        return Literal::Float;
    }
    match read_digits(s, from) {
        Err(_) => Literal::Float,
        Ok(v) => {
            if negative {
                if v <= 2147483648 {
                    Literal::Int32((0 - (v as i64)) as i32)
                } else if v <= 9223372036854775807 {
                    Literal::Int64(0 - (v as i64))
                } else if v == 9223372036854775808 {
                    Literal::Int64(i64::MIN)
                } else {
                    Literal::Float
                }
            } else if v <= 2147483647 {
                Literal::Int32(v as i32)
            } else if v <= 9223372036854775807 {
                Literal::Int64(v as i64)
            } else {
                Literal::Float
            }
        },
    }
}

} // verus!
