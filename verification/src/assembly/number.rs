use super::error::IntErrorKind;
use crate::isa::Operand;
use vstd::prelude::*;

verus! {

/// The number that a digit stands for in the base `radix`, if it is a digit
/// of that base. The digits above 9 are the letters from `a` or `A` on.
pub open spec fn digit_value(byte: u8, radix: int) -> Option<int> {
    let value = if 0x30 <= byte <= 0x39 {
        byte - 0x30
    } else if 0x61 <= byte <= 0x66 {
        byte - 0x61 + 10
    } else if 0x41 <= byte <= 0x46 {
        byte - 0x41 + 10
    } else {
        16
    };
    if value < radix {
        Some(value)
    } else {
        None
    }
}

/// Whether the digits of a literal begin with `0x`, `0o` or `0b`.
pub open spec fn has_prefix(body: Seq<u8>) -> bool {
    body.len() >= 2 && body[0] == 0x30 && (body[1] == 0x78 || body[1] == 0x6F || body[1] == 0x62)
}

/// The base of a literal: 16 after `0x`, 8 after `0o`, 2 after `0b`, and 10
/// without any of these.
pub open spec fn radix_of(body: Seq<u8>) -> int {
    if !has_prefix(body) {
        10
    } else if body[1] == 0x78 {
        16
    } else if body[1] == 0x6F {
        8
    } else {
        2
    }
}

/// Whether every byte is a digit of the base `radix`.
pub open spec fn all_digits(digits: Seq<u8>, radix: int) -> bool {
    forall|i: int| 0 <= i < digits.len() ==> (#[trigger] digit_value(digits[i], radix)) is Some
}

/// The number that digits of the base `radix` stand for, the first digit
/// being the highest.
pub open spec fn digits_value(digits: Seq<u8>, radix: int) -> int
    decreases digits.len(),
{
    if digits.len() == 0 {
        0
    } else {
        digits_value(digits.drop_last(), radix) * radix + digit_value(digits.last(), radix)->0
    }
}

/// Whether a literal begins with `-`.
pub open spec fn is_negative(token: Seq<u8>) -> bool {
    token.len() > 0 && token[0] == 0x2D
}

/// The digits of a literal: what follows its sign and the mark of its
/// base.
pub open spec fn digits_of(token: Seq<u8>) -> Seq<u8> {
    let body = if is_negative(token) {
        token.skip(1)
    } else {
        token
    };
    if has_prefix(body) {
        body.skip(2)
    } else {
        body
    }
}

/// The base of a literal.
pub open spec fn base_of(token: Seq<u8>) -> int {
    radix_of(
        if is_negative(token) {
            token.skip(1)
        } else {
            token
        },
    )
}

/// What a token is as an integer literal: a `-` or nothing, then `0x`, `0o`
/// or `0b` or nothing, then one digit or more of the base; and the number
/// is one of -32768 to 32767.
pub open spec fn literal(token: Seq<u8>) -> Result<Operand, IntErrorKind> {
    let digits = digits_of(token);
    let radix = base_of(token);
    let size = digits_value(digits, radix);
    if digits.len() == 0 {
        Err(IntErrorKind::Empty)
    } else if !all_digits(digits, radix) {
        Err(IntErrorKind::InvalidDigit)
    } else if is_negative(token) {
        if size > 32768 {
            Err(IntErrorKind::NegOverflow)
        } else {
            Ok((-size) as Operand)
        }
    } else {
        if size > 32767 {
            Err(IntErrorKind::PosOverflow)
        } else {
            Ok(size as Operand)
        }
    }
}

fn digit_of(byte: u8, radix: u8) -> (value: Option<u8>)
    requires
        2 <= radix <= 16,
    ensures
        match value {
            Some(value) => digit_value(byte, radix as int) == Some(value as int),
            None => digit_value(byte, radix as int) is None,
        },
{
    let value: u8 = if 0x30 <= byte && byte <= 0x39 {
        byte - 0x30
    } else if 0x61 <= byte && byte <= 0x66 {
        byte - 0x61 + 10
    } else if 0x41 <= byte && byte <= 0x46 {
        byte - 0x41 + 10
    } else {
        16
    };
    if value < radix {
        Some(value)
    } else {
        None
    }
}

/// Reads a token as an integer literal.
pub fn parse_int(token: &[u8]) -> (result: Result<Operand, IntErrorKind>)
    ensures
        result == literal(token@),
{
    let negative = token.len() > 0 && token[0] == 0x2D;
    let mut at: usize = if negative {
        1
    } else {
        0
    };
    let ghost body = if negative {
        token@.skip(1)
    } else {
        token@
    };
    let mut radix: u8 = 10;
    if token.len() >= at + 2 && token[at] == 0x30 {
        let mark = token[at + 1];
        assert(body[0] == token@[at as int] && body[1] == token@[at + 1]);
        if mark == 0x78 {
            radix = 16;
            at = at + 2;
        } else if mark == 0x6F {
            radix = 8;
            at = at + 2;
        } else if mark == 0x62 {
            radix = 2;
            at = at + 2;
        }
    }
    let start = at;
    let ghost digits = digits_of(token@);
    assert(digits == token@.skip(start as int));
    assert(radix == base_of(token@));
    if at == token.len() {
        return Err(IntErrorKind::Empty);
    }
    // The number so far, or 40000 where it is more than that.
    let mut size: u32 = 0;
    proof {
        assert(digits.subrange(0, 0).len() == 0);
    }
    while at < token.len()
        invariant
            start <= at <= token@.len(),
            2 <= radix <= 16,
            digits == token@.skip(start as int),
            digits == digits_of(token@),
            radix == base_of(token@),
            all_digits(digits.subrange(0, at - start), radix as int),
            size <= 40000,
            size == 40000 || size == digits_value(digits.subrange(0, at - start), radix as int),
            size == 40000 ==> digits_value(digits.subrange(0, at - start), radix as int) >= 40000,
        decreases token@.len() - at,
    {
        let ghost before = digits.subrange(0, at - start);
        let ghost after = digits.subrange(0, at - start + 1);
        match digit_of(token[at], radix) {
            None => {
                proof {
                    assert(digit_value(digits[at - start], radix as int) is None);
                }
                return Err(IntErrorKind::InvalidDigit);
            },
            Some(value) => {
                proof {
                    assert(after.drop_last() == before);
                    assert(after.last() == token@[at as int]);
                    assert forall|i: int| 0 <= i < after.len() implies (#[trigger] digit_value(
                        after[i],
                        radix as int,
                    )) is Some by {
                        if i < before.len() {
                            assert(after[i] == before[i]);
                        }
                    }
                    if size == 40000 {
                        assert(digits_value(before, radix as int) * radix >= 40000)
                            by (nonlinear_arith)
                            requires
                                digits_value(before, radix as int) >= 40000,
                                radix >= 2,
                        ;
                    }
                }
                assert(size * radix <= 640000) by (nonlinear_arith)
                    requires
                        size <= 40000,
                        radix <= 16,
                ;
                let next = size * radix as u32 + value as u32;
                size = if next > 40000 {
                    40000
                } else {
                    next
                };
            },
        }
        at = at + 1;
    }
    proof {
        assert(digits.subrange(0, at - start) == digits);
    }
    if negative {
        if size > 32768 {
            Err(IntErrorKind::NegOverflow)
        } else {
            Ok((-(size as i32)) as Operand)
        }
    } else {
        if size > 32767 {
            Err(IntErrorKind::PosOverflow)
        } else {
            Ok(size as Operand)
        }
    }
}

} // verus!
