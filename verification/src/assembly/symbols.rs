use crate::isa::Operand;
use crate::text::str_eq;
use vstd::prelude::*;

verus! {

/// The address of the port with the name `name`.
pub open spec fn port_symbol(name: Seq<char>) -> Option<Operand> {
    if name == "pixel_x"@ {
        Some(240i16)
    } else if name == "pixel_y"@ {
        Some(241i16)
    } else if name == "draw_pixel"@ {
        Some(242i16)
    } else if name == "clear_pixel"@ {
        Some(243i16)
    } else if name == "load_pixel"@ {
        Some(244i16)
    } else if name == "buffer_screen"@ {
        Some(245i16)
    } else if name == "clear_screen_buffer"@ {
        Some(246i16)
    } else if name == "write_char"@ {
        Some(247i16)
    } else if name == "buffer_chars"@ {
        Some(248i16)
    } else if name == "clear_chars_buffer"@ {
        Some(249i16)
    } else if name == "show_number"@ {
        Some(250i16)
    } else if name == "clear_number"@ {
        Some(251i16)
    } else if name == "signed_mode"@ {
        Some(252i16)
    } else if name == "unsigned_mode"@ {
        Some(253i16)
    } else if name == "rng"@ {
        Some(254i16)
    } else if name == "controller_input"@ {
        Some(255i16)
    } else {
        None
    }
}

/// The opcode of the instruction with the name `name`.
pub open spec fn opcode_symbol(name: Seq<char>) -> Option<Operand> {
    if name == "NOP"@ {
        Some(0i16)
    } else if name == "HLT"@ {
        Some(1i16)
    } else if name == "ADD"@ {
        Some(2i16)
    } else if name == "SUB"@ {
        Some(3i16)
    } else if name == "NOR"@ {
        Some(4i16)
    } else if name == "AND"@ {
        Some(5i16)
    } else if name == "XOR"@ {
        Some(6i16)
    } else if name == "RSH"@ {
        Some(7i16)
    } else if name == "LDI"@ {
        Some(8i16)
    } else if name == "ADI"@ {
        Some(9i16)
    } else if name == "JMP"@ {
        Some(10i16)
    } else if name == "BRH"@ {
        Some(11i16)
    } else if name == "CAL"@ {
        Some(12i16)
    } else if name == "RET"@ {
        Some(13i16)
    } else if name == "LOD"@ {
        Some(14i16)
    } else if name == "STR"@ {
        Some(15i16)
    } else {
        None
    }
}

/// The number of the register with the name `name`.
pub open spec fn register_symbol(name: Seq<char>) -> Option<Operand> {
    if name == "r0"@ {
        Some(0i16)
    } else if name == "r1"@ {
        Some(1i16)
    } else if name == "r2"@ {
        Some(2i16)
    } else if name == "r3"@ {
        Some(3i16)
    } else if name == "r4"@ {
        Some(4i16)
    } else if name == "r5"@ {
        Some(5i16)
    } else if name == "r6"@ {
        Some(6i16)
    } else if name == "r7"@ {
        Some(7i16)
    } else if name == "r8"@ {
        Some(8i16)
    } else if name == "r9"@ {
        Some(9i16)
    } else if name == "r10"@ {
        Some(10i16)
    } else if name == "r11"@ {
        Some(11i16)
    } else if name == "r12"@ {
        Some(12i16)
    } else if name == "r13"@ {
        Some(13i16)
    } else if name == "r14"@ {
        Some(14i16)
    } else if name == "r15"@ {
        Some(15i16)
    } else {
        None
    }
}

/// The code of the condition with the name `name`.
pub open spec fn condition_symbol(name: Seq<char>) -> Option<Operand> {
    if name == "eq"@ {
        Some(0i16)
    } else if name == "="@ {
        Some(0i16)
    } else if name == "z"@ {
        Some(0i16)
    } else if name == "zero"@ {
        Some(0i16)
    } else if name == "ne"@ {
        Some(1i16)
    } else if name == "!="@ {
        Some(1i16)
    } else if name == "nz"@ {
        Some(1i16)
    } else if name == "notzero"@ {
        Some(1i16)
    } else if name == "ge"@ {
        Some(2i16)
    } else if name == ">="@ {
        Some(2i16)
    } else if name == "c"@ {
        Some(2i16)
    } else if name == "carry"@ {
        Some(2i16)
    } else if name == "lt"@ {
        Some(3i16)
    } else if name == "<"@ {
        Some(3i16)
    } else if name == "nc"@ {
        Some(3i16)
    } else if name == "notcarry"@ {
        Some(3i16)
    } else {
        None
    }
}

/// The number that a name stands for where the program does not define
/// it: the names of the ports, of the instructions, of the registers and of
/// the conditions.
pub open spec fn default_symbol(name: Seq<char>) -> Option<Operand> {
    if port_symbol(name) is Some {
        port_symbol(name)
    } else if opcode_symbol(name) is Some {
        opcode_symbol(name)
    } else if register_symbol(name) is Some {
        register_symbol(name)
    } else {
        condition_symbol(name)
    }
}

fn port_of(symbol: &str) -> (value: Option<Operand>)
    ensures
        value == port_symbol(symbol@),
{
    if str_eq(symbol, "pixel_x") {
        Some(240)
    } else if str_eq(symbol, "pixel_y") {
        Some(241)
    } else if str_eq(symbol, "draw_pixel") {
        Some(242)
    } else if str_eq(symbol, "clear_pixel") {
        Some(243)
    } else if str_eq(symbol, "load_pixel") {
        Some(244)
    } else if str_eq(symbol, "buffer_screen") {
        Some(245)
    } else if str_eq(symbol, "clear_screen_buffer") {
        Some(246)
    } else if str_eq(symbol, "write_char") {
        Some(247)
    } else if str_eq(symbol, "buffer_chars") {
        Some(248)
    } else if str_eq(symbol, "clear_chars_buffer") {
        Some(249)
    } else if str_eq(symbol, "show_number") {
        Some(250)
    } else if str_eq(symbol, "clear_number") {
        Some(251)
    } else if str_eq(symbol, "signed_mode") {
        Some(252)
    } else if str_eq(symbol, "unsigned_mode") {
        Some(253)
    } else if str_eq(symbol, "rng") {
        Some(254)
    } else if str_eq(symbol, "controller_input") {
        Some(255)
    } else {
        None
    }
}

fn opcode_of(symbol: &str) -> (value: Option<Operand>)
    ensures
        value == opcode_symbol(symbol@),
{
    if str_eq(symbol, "NOP") {
        Some(0)
    } else if str_eq(symbol, "HLT") {
        Some(1)
    } else if str_eq(symbol, "ADD") {
        Some(2)
    } else if str_eq(symbol, "SUB") {
        Some(3)
    } else if str_eq(symbol, "NOR") {
        Some(4)
    } else if str_eq(symbol, "AND") {
        Some(5)
    } else if str_eq(symbol, "XOR") {
        Some(6)
    } else if str_eq(symbol, "RSH") {
        Some(7)
    } else if str_eq(symbol, "LDI") {
        Some(8)
    } else if str_eq(symbol, "ADI") {
        Some(9)
    } else if str_eq(symbol, "JMP") {
        Some(10)
    } else if str_eq(symbol, "BRH") {
        Some(11)
    } else if str_eq(symbol, "CAL") {
        Some(12)
    } else if str_eq(symbol, "RET") {
        Some(13)
    } else if str_eq(symbol, "LOD") {
        Some(14)
    } else if str_eq(symbol, "STR") {
        Some(15)
    } else {
        None
    }
}

fn register_of(symbol: &str) -> (value: Option<Operand>)
    ensures
        value == register_symbol(symbol@),
{
    if str_eq(symbol, "r0") {
        Some(0)
    } else if str_eq(symbol, "r1") {
        Some(1)
    } else if str_eq(symbol, "r2") {
        Some(2)
    } else if str_eq(symbol, "r3") {
        Some(3)
    } else if str_eq(symbol, "r4") {
        Some(4)
    } else if str_eq(symbol, "r5") {
        Some(5)
    } else if str_eq(symbol, "r6") {
        Some(6)
    } else if str_eq(symbol, "r7") {
        Some(7)
    } else if str_eq(symbol, "r8") {
        Some(8)
    } else if str_eq(symbol, "r9") {
        Some(9)
    } else if str_eq(symbol, "r10") {
        Some(10)
    } else if str_eq(symbol, "r11") {
        Some(11)
    } else if str_eq(symbol, "r12") {
        Some(12)
    } else if str_eq(symbol, "r13") {
        Some(13)
    } else if str_eq(symbol, "r14") {
        Some(14)
    } else if str_eq(symbol, "r15") {
        Some(15)
    } else {
        None
    }
}

fn condition_of(symbol: &str) -> (value: Option<Operand>)
    ensures
        value == condition_symbol(symbol@),
{
    if str_eq(symbol, "eq") {
        Some(0)
    } else if str_eq(symbol, "=") {
        Some(0)
    } else if str_eq(symbol, "z") {
        Some(0)
    } else if str_eq(symbol, "zero") {
        Some(0)
    } else if str_eq(symbol, "ne") {
        Some(1)
    } else if str_eq(symbol, "!=") {
        Some(1)
    } else if str_eq(symbol, "nz") {
        Some(1)
    } else if str_eq(symbol, "notzero") {
        Some(1)
    } else if str_eq(symbol, "ge") {
        Some(2)
    } else if str_eq(symbol, ">=") {
        Some(2)
    } else if str_eq(symbol, "c") {
        Some(2)
    } else if str_eq(symbol, "carry") {
        Some(2)
    } else if str_eq(symbol, "lt") {
        Some(3)
    } else if str_eq(symbol, "<") {
        Some(3)
    } else if str_eq(symbol, "nc") {
        Some(3)
    } else if str_eq(symbol, "notcarry") {
        Some(3)
    } else {
        None
    }
}

/// Looks up a name that the program does not define.
pub fn default_symbols(symbol: &str) -> (value: Option<Operand>)
    ensures
        value == default_symbol(symbol@),
{
    match port_of(symbol) {
        Some(value) => Some(value),
        None => match opcode_of(symbol) {
            Some(value) => Some(value),
            None => match register_of(symbol) {
                Some(value) => Some(value),
                None => condition_of(symbol),
            },
        },
    }
}

/// The names that the program has defined, with the numbers that they stand
/// for. A name that is defined again stands for the number given last.
pub struct Symbols<'c> {
    entries: Vec<(&'c str, Operand)>,
}

/// The numbers that the names of `entries` stand for, a later entry
/// counting over an earlier one of the same name.
pub open spec fn defined(entries: Seq<(&str, Operand)>) -> Map<Seq<char>, Operand>
    decreases entries.len(),
{
    if entries.len() == 0 {
        Map::empty()
    } else {
        defined(entries.drop_last()).insert(entries.last().0@, entries.last().1)
    }
}

impl<'c> View for Symbols<'c> {
    type V = Map<Seq<char>, Operand>;

    closed spec fn view(&self) -> Map<Seq<char>, Operand> {
        defined(self.entries@)
    }
}

impl<'c> Symbols<'c> {
    /// A table without names.
    pub fn new() -> (symbols: Symbols<'c>)
        ensures
            symbols@ == Map::<Seq<char>, Operand>::empty(),
    {
        Symbols { entries: Vec::new() }
    }

    /// Lets `name` stand for `value` from now on.
    pub fn insert(&mut self, name: &'c str, value: Operand)
        ensures
            final(self)@ == old(self)@.insert(name@, value),
    {
        self.entries.push((name, value));
        assert(self.entries@.drop_last() == old(self).entries@);
    }

    /// The number that `name` stands for, if the program has defined it.
    pub fn get(&self, name: &str) -> (value: Option<Operand>)
        ensures
            value == if self@.contains_key(name@) {
                Some(self@[name@])
            } else {
                None
            },
    {
        let mut at: usize = self.entries.len();
        proof {
            assert(self.entries@.subrange(0, at as int) == self.entries@);
        }
        while at > 0
            invariant
                at <= self.entries@.len(),
                defined(self.entries@).contains_key(name@) == defined(
                    self.entries@.subrange(0, at as int),
                ).contains_key(name@),
                defined(self.entries@).contains_key(name@) ==> defined(self.entries@)[name@]
                    == defined(self.entries@.subrange(0, at as int))[name@],
            decreases at,
        {
            at = at - 1;
            let ghost longer = self.entries@.subrange(0, at + 1);
            proof {
                assert(longer.drop_last() == self.entries@.subrange(0, at as int));
                assert(longer.last() == self.entries@[at as int]);
            }
            if str_eq(self.entries[at].0, name) {
                return Some(self.entries[at].1);
            }
        }
        proof {
            assert(self.entries@.subrange(0, 0).len() == 0);
        }
        None
    }
}

} // verus!
