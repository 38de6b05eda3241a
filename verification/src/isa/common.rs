use std::ops::RangeInclusive;
use vstd::arithmetic::power2::{lemma2_to64, lemma_pow2_unfold, pow2};
use vstd::prelude::*;
use vstd::std_specs::convert::FromSpecImpl;

verus! {

/// One encoded instruction.
pub type Word = u16;

/// An operand as the assembler hands it over, before it is narrowed to the
/// type of its field.
pub type Operand = i16;

/// Branch condition of `BRH`.
#[derive(Debug, Copy, Clone, PartialEq, Eq, Structural, PartialOrd, Ord)]
pub enum Cond {
    Zero,
    NotZero,
    Carry,
    NotCarry,
}

impl Cond {
    /// The two-bit number that stands for the condition in a word.
    pub open spec fn code(self) -> int {
        match self {
            Cond::Zero => 0,
            Cond::NotZero => 1,
            Cond::Carry => 2,
            Cond::NotCarry => 3,
        }
    }

    /// The condition whose code is `value`, for any integer (taken modulo 4).
    pub open spec fn of_code(value: int) -> Cond {
        if value % 4 == 0 {
            Cond::Zero
        } else if value % 4 == 1 {
            Cond::NotZero
        } else if value % 4 == 2 {
            Cond::Carry
        } else {
            Cond::NotCarry
        }
    }

    /// The condition with the code `value`.
    pub fn from_operand(value: Operand) -> (cond: Cond)
        requires
            0 <= value < 4,
        ensures
            cond == Cond::of_code(value as int),
            cond.code() == value,
    {
        if value == 0 {
            Cond::Zero
        } else if value == 1 {
            Cond::NotZero
        } else if value == 2 {
            Cond::Carry
        } else {
            Cond::NotCarry
        }
    }

    /// The code of the condition.
    pub fn to_operand(self) -> (value: Operand)
        ensures
            value == self.code(),
    {
        match self {
            Cond::Zero => 0,
            Cond::NotZero => 1,
            Cond::Carry => 2,
            Cond::NotCarry => 3,
        }
    }
}

impl From<Cond> for Operand {
    fn from(cond: Cond) -> (value: Operand) {
        cond.to_operand()
    }
}

impl FromSpecImpl<Cond> for Operand {
    open spec fn obeys_from_spec() -> bool {
        true
    }

    open spec fn from_spec(cond: Cond) -> Operand {
        cond.code() as Operand
    }
}

/// How the bits of an operand field are read as a number.
#[derive(Debug, Copy, Clone, PartialEq, Eq, Structural, PartialOrd, Ord)]
pub enum OperandKind {
    Unsigned,
    Signed,
    Any,
}

/// Number of one bits in `mask`: the width of the field.
pub open spec fn mask_width(mask: Word) -> nat
    decreases mask,
{
    if mask == 0 {
        0
    } else {
        (mask % 2) as nat + mask_width(mask / 2)
    }
}

/// Number of zero bits below the lowest one bit of `mask`: how far the field
/// is shifted. It is 0 for the empty mask.
pub open spec fn mask_shift(mask: Word) -> nat
    decreases mask,
{
    if mask == 0 || mask % 2 == 1 {
        0
    } else {
        1 + mask_shift(mask / 2)
    }
}

/// `2^width`: the number of bit patterns the field holds.
pub open spec fn operand_limit(mask: Word) -> int {
    pow2(mask_width(mask)) as int
}

/// The least operand the field accepts.
pub open spec fn operand_min(mask: Word, kind: OperandKind) -> int {
    match kind {
        OperandKind::Unsigned => 0,
        OperandKind::Signed | OperandKind::Any => -(operand_limit(mask) / 2),
    }
}

/// One more than the greatest operand the field accepts.
pub open spec fn operand_max(mask: Word, kind: OperandKind) -> int {
    match kind {
        OperandKind::Signed => operand_limit(mask) / 2,
        OperandKind::Unsigned | OperandKind::Any => operand_limit(mask),
    }
}

/// Whether the field `mask` read as `kind` accepts the operand `value`.
pub open spec fn operand_in_range(value: Operand, mask: Word, kind: OperandKind) -> bool {
    operand_min(mask, kind) <= value < operand_max(mask, kind)
}

/// A mask has at most sixteen bits, at least one unless it is empty, and
/// at most fifteen where its top bit is clear.
pub proof fn lemma_mask_width_bound(mask: Word)
    ensures
        mask_width(mask) <= 16,
        mask != 0 ==> mask_width(mask) >= 1,
        mask < 0x8000 ==> mask_width(mask) <= 15,
{
    lemma2_to64();
    lemma_mask_width_below(mask, 16);
    if mask < 0x8000 {
        lemma_mask_width_below(mask, 15);
    }
}

proof fn lemma_mask_width_below(mask: Word, bits: nat)
    requires
        mask < pow2(bits),
    ensures
        mask_width(mask) <= bits,
        mask != 0 ==> mask_width(mask) >= 1,
    decreases mask,
{
    if mask != 0 {
        if bits == 0 {
            lemma2_to64();
        } else {
            lemma_pow2_unfold(bits);
            lemma_mask_width_below(mask / 2, (bits - 1) as nat);
        }
    }
}

fn width_of(mask: Word) -> (width: u32)
    ensures
        width == mask_width(mask),
        width <= 16,
{
    let mut rest: Word = mask;
    let mut width: u32 = 0;
    proof {
        lemma_mask_width_bound(mask);
    }
    while rest != 0
        invariant
            width + mask_width(rest) == mask_width(mask),
            mask_width(mask) <= 16,
        decreases rest,
    {
        width = width + (rest % 2) as u32;
        rest = rest / 2;
    }
    width
}

fn shift_of(mask: Word) -> (shift: u32)
    ensures
        shift == mask_shift(mask),
        shift <= 15,
{
    let mut rest: Word = mask;
    let mut shift: u32 = 0;
    proof {
        lemma2_to64();
    }
    while rest != 0 && rest % 2 == 0
        invariant
            shift + mask_shift(rest) == mask_shift(mask),
            rest * pow2(shift as nat) == mask,
            shift <= 15,
        decreases rest,
    {
        proof {
            lemma_pow2_unfold((shift + 1) as nat);
            lemma2_to64();
            assert((rest / 2) * pow2((shift + 1) as nat) == mask) by (nonlinear_arith)
                requires
                    rest % 2 == 0,
                    rest * pow2(shift as nat) == mask,
                    pow2((shift + 1) as nat) == 2 * pow2(shift as nat),
            ;
            if shift == 15 {
                assert(pow2(16) == 0x10000);
                assert(rest / 2 >= 1);
                assert((rest / 2) * pow2(16) >= 0x10000) by (nonlinear_arith)
                    requires
                        rest / 2 >= 1,
                        pow2(16) == 0x10000,
                ;
            }
        }
        rest = rest / 2;
        shift = shift + 1;
    }
    shift
}

fn limit_of(width: u32) -> (limit: Operand)
    requires
        width <= 14,
    ensures
        limit == pow2(width as nat),
        1 <= limit <= 0x4000,
        width < 14 ==> limit <= 0x2000,
{
    let mut limit: Operand = 1;
    let mut done: u32 = 0;
    proof {
        lemma2_to64();
    }
    while done < width
        invariant
            done <= width <= 14,
            limit == pow2(done as nat),
            1 <= limit,
            done < 14 ==> limit <= 0x2000,
            limit <= 0x4000,
        decreases width - done,
    {
        proof {
            lemma_pow2_unfold((done + 1) as nat);
            lemma2_to64();
        }
        limit = limit * 2;
        done = done + 1;
    }
    limit
}

/// The mnemonic name is not in the instruction table.
#[derive(Debug)]
pub struct UnknownMnemonicError;

/// The number is no opcode.
#[derive(Debug)]
pub struct UnknownOpcodeError(pub Operand);

/// Why an instruction could not be built from a mnemonic and its operands.
#[derive(Debug)]
#[allow(inconsistent_fields)]
pub enum InstructionError {
    /// The mnemonic takes `expected` operands and was given `got`.
    WrongOperandCount { expected: RangeInclusive<usize>, got: usize },
    /// Operand number `operand` (from 0), of the field `name`, is `got`, which
    /// is not in `min..max` (`max` itself left out).
    OperandOutOfRange { operand: usize, name: &'static str, min: Operand, max: Operand, got: Operand },
}

/// Tests `value` against the range of the field `mask` read as `kind`. An
/// unsigned field of `n` bits accepts 0 to `2^n - 1`, a signed one
/// `-2^(n-1)` to `2^(n-1) - 1`, and a field of any sign all of these. The
/// field has at most fourteen bits, so that the bounds are operands
/// themselves.
pub fn check_range(
    value: Operand,
    mask: Word,
    kind: OperandKind,
    operand: usize,
    name: &'static str,
) -> (result: Result<(), InstructionError>)
    requires
        1 <= mask_width(mask) <= 14,
    ensures
        operand_in_range(value, mask, kind) ==> result is Ok,
        !operand_in_range(value, mask, kind) ==> result == Err::<(), InstructionError>(
            InstructionError::OperandOutOfRange {
                operand,
                name,
                min: operand_min(mask, kind) as Operand,
                max: operand_max(mask, kind) as Operand,
                got: value,
            },
        ),
{
    let limit = limit_of(width_of(mask));
    proof {
        lemma_pow2_unfold(mask_width(mask));
    }
    let (min, max): (Operand, Operand) = match kind {
        OperandKind::Unsigned => (0, limit),
        OperandKind::Signed => (-(limit / 2), limit / 2),
        OperandKind::Any => (-(limit / 2), limit),
    };
    if value < min || value >= max {
        return Err(InstructionError::OperandOutOfRange { operand, name, min, max, got: value });
    }
    Ok(())
}

/// The operand as `write_masked` puts it down: a negative one is raised by the
/// field's number of bit patterns first.
pub open spec fn folded(value: Operand, mask: Word) -> Operand {
    if value < 0 {
        (operand_limit(mask) + value) as Operand
    } else {
        value
    }
}

/// The word that holds `value` in the field `mask` and zeros elsewhere.
pub open spec fn masked_word(value: Operand, mask: Word) -> Word {
    ((folded(value, mask) as Word) << (mask_shift(mask) as u32)) & mask
}

/// The bits of the field `mask` in `value`, moved down to bit 0.
pub open spec fn field_bits(value: Word, mask: Word) -> Word {
    (value & mask) >> (mask_shift(mask) as u32)
}

/// The operand that the field `mask` of `value` holds when read as `kind`:
/// a signed field whose top bit is set stands for a negative number.
pub open spec fn masked_operand(value: Word, mask: Word, kind: OperandKind) -> Operand {
    let bits = field_bits(value, mask);
    let half = pow2((mask_width(mask) - 1) as nat);
    if kind == OperandKind::Signed && bits >= half {
        (bits - 2 * half) as Operand
    } else {
        bits as Operand
    }
}

/// Puts `value` into the field `mask` of an otherwise empty word. The field
/// has at most fourteen bits.
pub fn write_masked(value: Operand, mask: Word) -> (word: Word)
    requires
        1 <= mask_width(mask) <= 14,
    ensures
        word == masked_word(value, mask),
{
    let mut value = value;
    if value < 0 {
        let limit = limit_of(width_of(mask));
        value = limit + value;
    }
    ((value as Word) << shift_of(mask)) & mask
}

/// Reads the field `mask` of `value` as `kind`. The field has at most
/// fourteen bits, and what a signed field holds is below `2^14`, as it is
/// for every mask whose bits lie side by side.
pub fn read_masked(value: Word, mask: Word, kind: OperandKind) -> (operand: Operand)
    requires
        1 <= mask_width(mask) <= 14,
        kind == OperandKind::Signed ==> field_bits(value, mask) < 0x4000,
    ensures
        operand == masked_operand(value, mask, kind),
{
    let bits: Word = (value & mask) >> shift_of(mask);
    let signed = match kind {
        OperandKind::Signed => true,
        _ => false,
    };
    if signed {
        let half = limit_of(width_of(mask) - 1);
        if bits >= half as Word {
            half * -2 + bits as Operand
        } else {
            bits as Operand
        }
    } else {
        bits as Operand
    }
}

} // verus!
