use super::common::{
    field_bits, folded, mask_shift, mask_width, masked_operand, masked_word, operand_in_range,
    operand_limit, operand_max, operand_min, Operand, OperandKind, Word,
};
use vstd::arithmetic::power2::{lemma2_to64, pow2};
use vstd::prelude::*;

verus! {

/// The operand fields of a word, as the instruction table names them.
#[derive(Debug, Copy, Clone, PartialEq, Eq, Structural)]
pub enum Field {
    Opcode,
    A,
    B,
    C,
    Imm,
    Addr,
    Cond,
    Offset,
}

impl Field {
    /// The bits of the word that the field takes.
    pub open spec fn mask(self) -> Word {
        match self {
            Field::Opcode => 0xF000,
            Field::A => 0x0F00,
            Field::B => 0x00F0,
            Field::C => 0x000F,
            Field::Imm => 0x00FF,
            Field::Addr => 0x03FF,
            Field::Cond => 0x0C00,
            Field::Offset => 0x000F,
        }
    }

    /// How the field's bits are read as a number.
    pub open spec fn kind(self) -> OperandKind {
        match self {
            Field::Imm => OperandKind::Any,
            Field::Offset => OperandKind::Signed,
            _ => OperandKind::Unsigned,
        }
    }

    /// The field's name in the instruction table.
    pub open spec fn name(self) -> &'static str {
        match self {
            Field::Opcode => "opcode",
            Field::A => "a",
            Field::B => "b",
            Field::C => "c",
            Field::Imm => "imm",
            Field::Addr => "addr",
            Field::Cond => "cond",
            Field::Offset => "offset",
        }
    }

    /// Number of bits of the field.
    pub open spec fn width(self) -> nat {
        match self {
            Field::Imm => 8,
            Field::Addr => 10,
            Field::Cond => 2,
            _ => 4,
        }
    }

    /// Position of the field's lowest bit.
    pub open spec fn shift(self) -> nat {
        match self {
            Field::Opcode => 12,
            Field::A => 8,
            Field::B => 4,
            Field::Cond => 10,
            _ => 0,
        }
    }

    /// The least operand the field accepts.
    pub open spec fn min(self) -> int {
        match self {
            Field::Imm => -128,
            Field::Offset => -8,
            _ => 0,
        }
    }

    /// One more than the greatest operand the field accepts.
    pub open spec fn max(self) -> int {
        match self {
            Field::Imm => 256,
            Field::Addr => 1024,
            Field::Cond => 4,
            Field::Offset => 8,
            _ => 16,
        }
    }

    /// Whether `value` is an operand that the field accepts.
    pub open spec fn accepts(self, value: Operand) -> bool {
        self.min() <= value < self.max()
    }

    /// The field's bits in a word that holds `value` there: `value` modulo
    /// the field's number of bit patterns, moved up to the field's place.
    pub open spec fn placed(self, value: int) -> int {
        match self {
            Field::Opcode => (value % 16) * 4096,
            Field::A => (value % 16) * 256,
            Field::B => (value % 16) * 16,
            Field::C => value % 16,
            Field::Imm => value % 256,
            Field::Addr => value % 1024,
            Field::Cond => (value % 4) * 1024,
            Field::Offset => value % 16,
        }
    }

    /// The number that the field's bits of `word` stand for, before any sign
    /// is read into it.
    pub open spec fn raw(self, word: Word) -> int {
        match self {
            Field::Opcode => (word as int / 4096) % 16,
            Field::A => (word as int / 256) % 16,
            Field::B => (word as int / 16) % 16,
            Field::C => word as int % 16,
            Field::Imm => word as int % 256,
            Field::Addr => word as int % 1024,
            Field::Cond => (word as int / 1024) % 4,
            Field::Offset => word as int % 16,
        }
    }

    /// The operand that the field of `word` holds: a signed field whose top
    /// bit is set holds a negative one.
    pub open spec fn value_in(self, word: Word) -> int {
        if self == Field::Offset && self.raw(word) >= 8 {
            self.raw(word) - 16
        } else {
            self.raw(word)
        }
    }

    /// The bits of the word that the field takes.
    pub fn get_mask(self) -> (mask: Word)
        ensures
            mask == self.mask(),
    {
        match self {
            Field::Opcode => 0xF000,
            Field::A => 0x0F00,
            Field::B => 0x00F0,
            Field::C => 0x000F,
            Field::Imm => 0x00FF,
            Field::Addr => 0x03FF,
            Field::Cond => 0x0C00,
            Field::Offset => 0x000F,
        }
    }

    /// How the field's bits are read as a number.
    pub fn get_kind(self) -> (kind: OperandKind)
        ensures
            kind == self.kind(),
    {
        match self {
            Field::Imm => OperandKind::Any,
            Field::Offset => OperandKind::Signed,
            _ => OperandKind::Unsigned,
        }
    }

    /// The field's name in the instruction table.
    pub fn get_name(self) -> (name: &'static str)
        ensures
            name == self.name(),
    {
        match self {
            Field::Opcode => "opcode",
            Field::A => "a",
            Field::B => "b",
            Field::C => "c",
            Field::Imm => "imm",
            Field::Addr => "addr",
            Field::Cond => "cond",
            Field::Offset => "offset",
        }
    }
}

/// The table's masks have the widths, places and ranges that the table gives.
pub proof fn lemma_field_shape(field: Field)
    ensures
        mask_width(field.mask()) == field.width(),
        mask_shift(field.mask()) == field.shift(),
        1 <= mask_width(field.mask()) <= 14,
        operand_limit(field.mask()) == pow2(field.width()),
        operand_min(field.mask(), field.kind()) == field.min(),
        operand_max(field.mask(), field.kind()) == field.max(),
{
    reveal_with_fuel(mask_width, 17);
    reveal_with_fuel(mask_shift, 17);
    lemma2_to64();
}

/// The table's ranges are those that `check_range` tests.
pub proof fn lemma_field_accepts(field: Field, value: Operand)
    ensures
        operand_in_range(value, field.mask(), field.kind()) <==> field.accepts(value),
{
    lemma_field_shape(field);
}

proof fn lemma_place_bits(u: Word)
    by (bit_vector)
    ensures
        (u << 12u32) & 0xF000 == (u % 16) * 4096,
        (u << 8u32) & 0x0F00 == (u % 16) * 256,
        (u << 4u32) & 0x00F0 == (u % 16) * 16,
        (u << 0u32) & 0x000F == (u % 16),
        (u << 0u32) & 0x00FF == (u % 256),
        (u << 0u32) & 0x03FF == (u % 1024),
        (u << 10u32) & 0x0C00 == (u % 4) * 1024,
{
}

proof fn lemma_take_bits(w: Word)
    by (bit_vector)
    ensures
        (w & 0xF000) >> 12u32 == (w / 4096) % 16,
        (w & 0x0F00) >> 8u32 == (w / 256) % 16,
        (w & 0x00F0) >> 4u32 == (w / 16) % 16,
        (w & 0x000F) >> 0u32 == w % 16,
        (w & 0x00FF) >> 0u32 == w % 256,
        (w & 0x03FF) >> 0u32 == w % 1024,
        (w & 0x0C00) >> 10u32 == (w / 1024) % 4,
{
}

proof fn lemma_word_of_operand(f: Operand)
    by (bit_vector)
    ensures
        f < 0 ==> (#[verifier::truncate] (f as Word)) == f + 0x10000,
        f >= 0 ==> (#[verifier::truncate] (f as Word)) == f,
{
}

/// The word that a folded operand becomes agrees with the operand modulo
/// every power of two up to `2^10`.
proof fn lemma_folded_word(value: Operand, limit: int)
    requires
        limit == 4 || limit == 16 || limit == 256 || limit == 1024,
    ensures
        ({
            let f: Operand = if value < 0 {
                (limit + value) as Operand
            } else {
                value
            };
            (f as Word) as int % limit == value as int % limit
        }),
{
    let f: Operand = if value < 0 {
        (limit + value) as Operand
    } else {
        value
    };
    lemma_word_of_operand(f);
}

/// What `masked_word` puts into a table field, as arithmetic.
pub proof fn lemma_masked_word(field: Field, value: Operand)
    ensures
        masked_word(value, field.mask()) == field.placed(value as int),
{
    lemma_field_shape(field);
    lemma2_to64();
    let u = #[verifier::truncate] (folded(value, field.mask()) as Word);
    let v = value as int;
    let shift = mask_shift(field.mask()) as u32;
    lemma_place_bits(u);
    lemma_folded_word(value, pow2(field.width()) as int);
    match field {
        Field::Opcode => {
            assert(shift == 12u32);
            assert(masked_word(value, field.mask()) == (u << 12u32) & 0xF000);
            assert(u as int % 16 == v % 16);
            assert((u % 16) * 4096 == (v % 16) * 4096);
            assert(masked_word(value, field.mask()) == (u % 16) * 4096);
        },
        Field::A => {
            assert(shift == 8u32);
            assert(masked_word(value, field.mask()) == (u << 8u32) & 0x0F00);
            assert(u as int % 16 == v % 16);
            assert((u % 16) * 256 == (v % 16) * 256);
            assert(masked_word(value, field.mask()) == (u % 16) * 256);
        },
        Field::B => {
            assert(shift == 4u32);
            assert(masked_word(value, field.mask()) == (u << 4u32) & 0x00F0);
            assert(u as int % 16 == v % 16);
            assert((u % 16) * 16 == (v % 16) * 16);
            assert(masked_word(value, field.mask()) == (u % 16) * 16);
        },
        Field::C => {
            assert(shift == 0u32);
            assert(masked_word(value, field.mask()) == (u << 0u32) & 0x000F);
            assert(u as int % 16 == v % 16);
            assert(u % 16 == v % 16);
            assert(masked_word(value, field.mask()) == u % 16);
        },
        Field::Imm => {
            assert(shift == 0u32);
            assert(masked_word(value, field.mask()) == (u << 0u32) & 0x00FF);
            assert(u as int % 256 == v % 256);
            assert(u % 256 == v % 256);
            assert(masked_word(value, field.mask()) == u % 256);
        },
        Field::Addr => {
            assert(shift == 0u32);
            assert(masked_word(value, field.mask()) == (u << 0u32) & 0x03FF);
            assert(u as int % 1024 == v % 1024);
            assert(u % 1024 == v % 1024);
            assert(masked_word(value, field.mask()) == u % 1024);
        },
        Field::Cond => {
            assert(shift == 10u32);
            assert(masked_word(value, field.mask()) == (u << 10u32) & 0x0C00);
            assert(u as int % 4 == v % 4);
            assert((u % 4) * 1024 == (v % 4) * 1024);
            assert(masked_word(value, field.mask()) == (u % 4) * 1024);
        },
        Field::Offset => {
            assert(shift == 0u32);
            assert(masked_word(value, field.mask()) == (u << 0u32) & 0x000F);
            assert(u as int % 16 == v % 16);
            assert(u % 16 == v % 16);
            assert(masked_word(value, field.mask()) == u % 16);
        },
    }
}

/// What the bits of a table field stand for, as arithmetic.
pub proof fn lemma_masked_operand(field: Field, word: Word)
    ensures
        field_bits(word, field.mask()) == field.raw(word),
        field_bits(word, field.mask()) < 0x4000,
        masked_operand(word, field.mask(), field.kind()) == field.value_in(word),
        field.min() <= field.value_in(word) < field.max(),
        field.kind() != OperandKind::Signed ==> 0 <= field.value_in(word),
{
    lemma_field_shape(field);
    lemma2_to64();
    lemma_take_bits(word);
    let shift = mask_shift(field.mask()) as u32;
    match field {
        Field::Opcode => {
            assert(shift == 12u32);
            assert(field_bits(word, field.mask()) == (word & 0xF000) >> 12u32);
        },
        Field::A => {
            assert(shift == 8u32);
            assert(field_bits(word, field.mask()) == (word & 0x0F00) >> 8u32);
        },
        Field::B => {
            assert(shift == 4u32);
            assert(field_bits(word, field.mask()) == (word & 0x00F0) >> 4u32);
        },
        Field::C => {
            assert(shift == 0u32);
            assert(field_bits(word, field.mask()) == (word & 0x000F) >> 0u32);
        },
        Field::Imm => {
            assert(shift == 0u32);
            assert(field_bits(word, field.mask()) == (word & 0x00FF) >> 0u32);
        },
        Field::Addr => {
            assert(shift == 0u32);
            assert(field_bits(word, field.mask()) == (word & 0x03FF) >> 0u32);
        },
        Field::Cond => {
            assert(shift == 10u32);
            assert(field_bits(word, field.mask()) == (word & 0x0C00) >> 10u32);
        },
        Field::Offset => {
            assert(shift == 0u32);
            assert(field_bits(word, field.mask()) == (word & 0x000F) >> 0u32);
        },
    }
}

} // verus!
