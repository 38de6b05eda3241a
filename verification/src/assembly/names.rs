use super::symbols::{
    condition_symbol, default_symbol, opcode_symbol, port_symbol, register_symbol,
};
use vstd::prelude::*;

verus! {

/// The names of the tables are all different from one another.
proof fn lemma_names_differ()
    ensures
        port_symbol("pixel_x"@) == Some(240i16),
        port_symbol("pixel_y"@) == Some(241i16),
        port_symbol("draw_pixel"@) == Some(242i16),
        port_symbol("clear_pixel"@) == Some(243i16),
        port_symbol("load_pixel"@) == Some(244i16),
        port_symbol("buffer_screen"@) == Some(245i16),
        port_symbol("clear_screen_buffer"@) == Some(246i16),
        port_symbol("write_char"@) == Some(247i16),
        port_symbol("buffer_chars"@) == Some(248i16),
        port_symbol("clear_chars_buffer"@) == Some(249i16),
        port_symbol("show_number"@) == Some(250i16),
        port_symbol("clear_number"@) == Some(251i16),
        port_symbol("signed_mode"@) == Some(252i16),
        port_symbol("unsigned_mode"@) == Some(253i16),
        port_symbol("rng"@) == Some(254i16),
        port_symbol("controller_input"@) == Some(255i16),
        opcode_symbol("NOP"@) == Some(0i16),
        port_symbol("NOP"@) is None,
        opcode_symbol("HLT"@) == Some(1i16),
        port_symbol("HLT"@) is None,
        opcode_symbol("ADD"@) == Some(2i16),
        port_symbol("ADD"@) is None,
        opcode_symbol("SUB"@) == Some(3i16),
        port_symbol("SUB"@) is None,
        opcode_symbol("NOR"@) == Some(4i16),
        port_symbol("NOR"@) is None,
        opcode_symbol("AND"@) == Some(5i16),
        port_symbol("AND"@) is None,
        opcode_symbol("XOR"@) == Some(6i16),
        port_symbol("XOR"@) is None,
        opcode_symbol("RSH"@) == Some(7i16),
        port_symbol("RSH"@) is None,
        opcode_symbol("LDI"@) == Some(8i16),
        port_symbol("LDI"@) is None,
        opcode_symbol("ADI"@) == Some(9i16),
        port_symbol("ADI"@) is None,
        opcode_symbol("JMP"@) == Some(10i16),
        port_symbol("JMP"@) is None,
        opcode_symbol("BRH"@) == Some(11i16),
        port_symbol("BRH"@) is None,
        opcode_symbol("CAL"@) == Some(12i16),
        port_symbol("CAL"@) is None,
        opcode_symbol("RET"@) == Some(13i16),
        port_symbol("RET"@) is None,
        opcode_symbol("LOD"@) == Some(14i16),
        port_symbol("LOD"@) is None,
        opcode_symbol("STR"@) == Some(15i16),
        port_symbol("STR"@) is None,
        register_symbol("r0"@) == Some(0i16),
        port_symbol("r0"@) is None,
        opcode_symbol("r0"@) is None,
        register_symbol("r1"@) == Some(1i16),
        port_symbol("r1"@) is None,
        opcode_symbol("r1"@) is None,
        register_symbol("r2"@) == Some(2i16),
        port_symbol("r2"@) is None,
        opcode_symbol("r2"@) is None,
        register_symbol("r3"@) == Some(3i16),
        port_symbol("r3"@) is None,
        opcode_symbol("r3"@) is None,
        register_symbol("r4"@) == Some(4i16),
        port_symbol("r4"@) is None,
        opcode_symbol("r4"@) is None,
        register_symbol("r5"@) == Some(5i16),
        port_symbol("r5"@) is None,
        opcode_symbol("r5"@) is None,
        register_symbol("r6"@) == Some(6i16),
        port_symbol("r6"@) is None,
        opcode_symbol("r6"@) is None,
        register_symbol("r7"@) == Some(7i16),
        port_symbol("r7"@) is None,
        opcode_symbol("r7"@) is None,
        register_symbol("r8"@) == Some(8i16),
        port_symbol("r8"@) is None,
        opcode_symbol("r8"@) is None,
        register_symbol("r9"@) == Some(9i16),
        port_symbol("r9"@) is None,
        opcode_symbol("r9"@) is None,
        register_symbol("r10"@) == Some(10i16),
        port_symbol("r10"@) is None,
        opcode_symbol("r10"@) is None,
        register_symbol("r11"@) == Some(11i16),
        port_symbol("r11"@) is None,
        opcode_symbol("r11"@) is None,
        register_symbol("r12"@) == Some(12i16),
        port_symbol("r12"@) is None,
        opcode_symbol("r12"@) is None,
        register_symbol("r13"@) == Some(13i16),
        port_symbol("r13"@) is None,
        opcode_symbol("r13"@) is None,
        register_symbol("r14"@) == Some(14i16),
        port_symbol("r14"@) is None,
        opcode_symbol("r14"@) is None,
        register_symbol("r15"@) == Some(15i16),
        port_symbol("r15"@) is None,
        opcode_symbol("r15"@) is None,
        condition_symbol("eq"@) == Some(0i16),
        port_symbol("eq"@) is None,
        opcode_symbol("eq"@) is None,
        register_symbol("eq"@) is None,
        condition_symbol("="@) == Some(0i16),
        port_symbol("="@) is None,
        opcode_symbol("="@) is None,
        register_symbol("="@) is None,
        condition_symbol("z"@) == Some(0i16),
        port_symbol("z"@) is None,
        opcode_symbol("z"@) is None,
        register_symbol("z"@) is None,
        condition_symbol("zero"@) == Some(0i16),
        port_symbol("zero"@) is None,
        opcode_symbol("zero"@) is None,
        register_symbol("zero"@) is None,
        condition_symbol("ne"@) == Some(1i16),
        port_symbol("ne"@) is None,
        opcode_symbol("ne"@) is None,
        register_symbol("ne"@) is None,
        condition_symbol("!="@) == Some(1i16),
        port_symbol("!="@) is None,
        opcode_symbol("!="@) is None,
        register_symbol("!="@) is None,
        condition_symbol("nz"@) == Some(1i16),
        port_symbol("nz"@) is None,
        opcode_symbol("nz"@) is None,
        register_symbol("nz"@) is None,
        condition_symbol("notzero"@) == Some(1i16),
        port_symbol("notzero"@) is None,
        opcode_symbol("notzero"@) is None,
        register_symbol("notzero"@) is None,
        condition_symbol("ge"@) == Some(2i16),
        port_symbol("ge"@) is None,
        opcode_symbol("ge"@) is None,
        register_symbol("ge"@) is None,
        condition_symbol(">="@) == Some(2i16),
        port_symbol(">="@) is None,
        opcode_symbol(">="@) is None,
        register_symbol(">="@) is None,
        condition_symbol("c"@) == Some(2i16),
        port_symbol("c"@) is None,
        opcode_symbol("c"@) is None,
        register_symbol("c"@) is None,
        condition_symbol("carry"@) == Some(2i16),
        port_symbol("carry"@) is None,
        opcode_symbol("carry"@) is None,
        register_symbol("carry"@) is None,
        condition_symbol("lt"@) == Some(3i16),
        port_symbol("lt"@) is None,
        opcode_symbol("lt"@) is None,
        register_symbol("lt"@) is None,
        condition_symbol("<"@) == Some(3i16),
        port_symbol("<"@) is None,
        opcode_symbol("<"@) is None,
        register_symbol("<"@) is None,
        condition_symbol("nc"@) == Some(3i16),
        port_symbol("nc"@) is None,
        opcode_symbol("nc"@) is None,
        register_symbol("nc"@) is None,
        condition_symbol("notcarry"@) == Some(3i16),
        port_symbol("notcarry"@) is None,
        opcode_symbol("notcarry"@) is None,
        register_symbol("notcarry"@) is None,
{
    reveal_strlit("pixel_x");
    assert("pixel_x"@.len() == 7 && "pixel_x"@[0] == 'p' && "pixel_x"@[1] == 'i'
        && "pixel_x"@[2] == 'x' && "pixel_x"@[3] == 'e' && "pixel_x"@[4] == 'l'
        && "pixel_x"@[5] == '_' && "pixel_x"@[6] == 'x');
    reveal_strlit("pixel_y");
    assert("pixel_y"@.len() == 7 && "pixel_y"@[0] == 'p' && "pixel_y"@[1] == 'i'
        && "pixel_y"@[2] == 'x' && "pixel_y"@[3] == 'e' && "pixel_y"@[4] == 'l'
        && "pixel_y"@[5] == '_' && "pixel_y"@[6] == 'y');
    reveal_strlit("draw_pixel");
    assert("draw_pixel"@.len() == 10 && "draw_pixel"@[0] == 'd' && "draw_pixel"@[1] == 'r'
        && "draw_pixel"@[2] == 'a' && "draw_pixel"@[3] == 'w' && "draw_pixel"@[4] == '_'
        && "draw_pixel"@[5] == 'p' && "draw_pixel"@[6] == 'i' && "draw_pixel"@[7] == 'x'
        && "draw_pixel"@[8] == 'e' && "draw_pixel"@[9] == 'l');
    reveal_strlit("clear_pixel");
    assert("clear_pixel"@.len() == 11 && "clear_pixel"@[0] == 'c' && "clear_pixel"@[1] == 'l'
        && "clear_pixel"@[2] == 'e' && "clear_pixel"@[3] == 'a' && "clear_pixel"@[4] == 'r'
        && "clear_pixel"@[5] == '_' && "clear_pixel"@[6] == 'p' && "clear_pixel"@[7] == 'i'
        && "clear_pixel"@[8] == 'x' && "clear_pixel"@[9] == 'e' && "clear_pixel"@[10] == 'l');
    reveal_strlit("load_pixel");
    assert("load_pixel"@.len() == 10 && "load_pixel"@[0] == 'l' && "load_pixel"@[1] == 'o'
        && "load_pixel"@[2] == 'a' && "load_pixel"@[3] == 'd' && "load_pixel"@[4] == '_'
        && "load_pixel"@[5] == 'p' && "load_pixel"@[6] == 'i' && "load_pixel"@[7] == 'x'
        && "load_pixel"@[8] == 'e' && "load_pixel"@[9] == 'l');
    reveal_strlit("buffer_screen");
    assert("buffer_screen"@.len() == 13 && "buffer_screen"@[0] == 'b'
        && "buffer_screen"@[1] == 'u' && "buffer_screen"@[2] == 'f' && "buffer_screen"@[3] == 'f'
        && "buffer_screen"@[4] == 'e' && "buffer_screen"@[5] == 'r' && "buffer_screen"@[6] == '_'
        && "buffer_screen"@[7] == 's' && "buffer_screen"@[8] == 'c' && "buffer_screen"@[9] == 'r'
        && "buffer_screen"@[10] == 'e' && "buffer_screen"@[11] == 'e'
        && "buffer_screen"@[12] == 'n');
    reveal_strlit("clear_screen_buffer");
    assert("clear_screen_buffer"@.len() == 19 && "clear_screen_buffer"@[0] == 'c'
        && "clear_screen_buffer"@[1] == 'l' && "clear_screen_buffer"@[2] == 'e'
        && "clear_screen_buffer"@[3] == 'a' && "clear_screen_buffer"@[4] == 'r'
        && "clear_screen_buffer"@[5] == '_' && "clear_screen_buffer"@[6] == 's'
        && "clear_screen_buffer"@[7] == 'c' && "clear_screen_buffer"@[8] == 'r'
        && "clear_screen_buffer"@[9] == 'e' && "clear_screen_buffer"@[10] == 'e'
        && "clear_screen_buffer"@[11] == 'n' && "clear_screen_buffer"@[12] == '_'
        && "clear_screen_buffer"@[13] == 'b' && "clear_screen_buffer"@[14] == 'u'
        && "clear_screen_buffer"@[15] == 'f' && "clear_screen_buffer"@[16] == 'f'
        && "clear_screen_buffer"@[17] == 'e' && "clear_screen_buffer"@[18] == 'r');
    reveal_strlit("write_char");
    assert("write_char"@.len() == 10 && "write_char"@[0] == 'w' && "write_char"@[1] == 'r'
        && "write_char"@[2] == 'i' && "write_char"@[3] == 't' && "write_char"@[4] == 'e'
        && "write_char"@[5] == '_' && "write_char"@[6] == 'c' && "write_char"@[7] == 'h'
        && "write_char"@[8] == 'a' && "write_char"@[9] == 'r');
    reveal_strlit("buffer_chars");
    assert("buffer_chars"@.len() == 12 && "buffer_chars"@[0] == 'b' && "buffer_chars"@[1] == 'u'
        && "buffer_chars"@[2] == 'f' && "buffer_chars"@[3] == 'f' && "buffer_chars"@[4] == 'e'
        && "buffer_chars"@[5] == 'r' && "buffer_chars"@[6] == '_' && "buffer_chars"@[7] == 'c'
        && "buffer_chars"@[8] == 'h' && "buffer_chars"@[9] == 'a' && "buffer_chars"@[10] == 'r'
        && "buffer_chars"@[11] == 's');
    reveal_strlit("clear_chars_buffer");
    assert("clear_chars_buffer"@.len() == 18 && "clear_chars_buffer"@[0] == 'c'
        && "clear_chars_buffer"@[1] == 'l' && "clear_chars_buffer"@[2] == 'e'
        && "clear_chars_buffer"@[3] == 'a' && "clear_chars_buffer"@[4] == 'r'
        && "clear_chars_buffer"@[5] == '_' && "clear_chars_buffer"@[6] == 'c'
        && "clear_chars_buffer"@[7] == 'h' && "clear_chars_buffer"@[8] == 'a'
        && "clear_chars_buffer"@[9] == 'r' && "clear_chars_buffer"@[10] == 's'
        && "clear_chars_buffer"@[11] == '_' && "clear_chars_buffer"@[12] == 'b'
        && "clear_chars_buffer"@[13] == 'u' && "clear_chars_buffer"@[14] == 'f'
        && "clear_chars_buffer"@[15] == 'f' && "clear_chars_buffer"@[16] == 'e'
        && "clear_chars_buffer"@[17] == 'r');
    reveal_strlit("show_number");
    assert("show_number"@.len() == 11 && "show_number"@[0] == 's' && "show_number"@[1] == 'h'
        && "show_number"@[2] == 'o' && "show_number"@[3] == 'w' && "show_number"@[4] == '_'
        && "show_number"@[5] == 'n' && "show_number"@[6] == 'u' && "show_number"@[7] == 'm'
        && "show_number"@[8] == 'b' && "show_number"@[9] == 'e' && "show_number"@[10] == 'r');
    reveal_strlit("clear_number");
    assert("clear_number"@.len() == 12 && "clear_number"@[0] == 'c' && "clear_number"@[1] == 'l'
        && "clear_number"@[2] == 'e' && "clear_number"@[3] == 'a' && "clear_number"@[4] == 'r'
        && "clear_number"@[5] == '_' && "clear_number"@[6] == 'n' && "clear_number"@[7] == 'u'
        && "clear_number"@[8] == 'm' && "clear_number"@[9] == 'b' && "clear_number"@[10] == 'e'
        && "clear_number"@[11] == 'r');
    reveal_strlit("signed_mode");
    assert("signed_mode"@.len() == 11 && "signed_mode"@[0] == 's' && "signed_mode"@[1] == 'i'
        && "signed_mode"@[2] == 'g' && "signed_mode"@[3] == 'n' && "signed_mode"@[4] == 'e'
        && "signed_mode"@[5] == 'd' && "signed_mode"@[6] == '_' && "signed_mode"@[7] == 'm'
        && "signed_mode"@[8] == 'o' && "signed_mode"@[9] == 'd' && "signed_mode"@[10] == 'e');
    reveal_strlit("unsigned_mode");
    assert("unsigned_mode"@.len() == 13 && "unsigned_mode"@[0] == 'u'
        && "unsigned_mode"@[1] == 'n' && "unsigned_mode"@[2] == 's' && "unsigned_mode"@[3] == 'i'
        && "unsigned_mode"@[4] == 'g' && "unsigned_mode"@[5] == 'n' && "unsigned_mode"@[6] == 'e'
        && "unsigned_mode"@[7] == 'd' && "unsigned_mode"@[8] == '_' && "unsigned_mode"@[9] == 'm'
        && "unsigned_mode"@[10] == 'o' && "unsigned_mode"@[11] == 'd'
        && "unsigned_mode"@[12] == 'e');
    reveal_strlit("rng");
    assert("rng"@.len() == 3 && "rng"@[0] == 'r' && "rng"@[1] == 'n' && "rng"@[2] == 'g');
    reveal_strlit("controller_input");
    assert("controller_input"@.len() == 16 && "controller_input"@[0] == 'c'
        && "controller_input"@[1] == 'o' && "controller_input"@[2] == 'n'
        && "controller_input"@[3] == 't' && "controller_input"@[4] == 'r'
        && "controller_input"@[5] == 'o' && "controller_input"@[6] == 'l'
        && "controller_input"@[7] == 'l' && "controller_input"@[8] == 'e'
        && "controller_input"@[9] == 'r' && "controller_input"@[10] == '_'
        && "controller_input"@[11] == 'i' && "controller_input"@[12] == 'n'
        && "controller_input"@[13] == 'p' && "controller_input"@[14] == 'u'
        && "controller_input"@[15] == 't');
    reveal_strlit("NOP");
    assert("NOP"@.len() == 3 && "NOP"@[0] == 'N' && "NOP"@[1] == 'O' && "NOP"@[2] == 'P');
    reveal_strlit("HLT");
    assert("HLT"@.len() == 3 && "HLT"@[0] == 'H' && "HLT"@[1] == 'L' && "HLT"@[2] == 'T');
    reveal_strlit("ADD");
    assert("ADD"@.len() == 3 && "ADD"@[0] == 'A' && "ADD"@[1] == 'D' && "ADD"@[2] == 'D');
    reveal_strlit("SUB");
    assert("SUB"@.len() == 3 && "SUB"@[0] == 'S' && "SUB"@[1] == 'U' && "SUB"@[2] == 'B');
    reveal_strlit("NOR");
    assert("NOR"@.len() == 3 && "NOR"@[0] == 'N' && "NOR"@[1] == 'O' && "NOR"@[2] == 'R');
    reveal_strlit("AND");
    assert("AND"@.len() == 3 && "AND"@[0] == 'A' && "AND"@[1] == 'N' && "AND"@[2] == 'D');
    reveal_strlit("XOR");
    assert("XOR"@.len() == 3 && "XOR"@[0] == 'X' && "XOR"@[1] == 'O' && "XOR"@[2] == 'R');
    reveal_strlit("RSH");
    assert("RSH"@.len() == 3 && "RSH"@[0] == 'R' && "RSH"@[1] == 'S' && "RSH"@[2] == 'H');
    reveal_strlit("LDI");
    assert("LDI"@.len() == 3 && "LDI"@[0] == 'L' && "LDI"@[1] == 'D' && "LDI"@[2] == 'I');
    reveal_strlit("ADI");
    assert("ADI"@.len() == 3 && "ADI"@[0] == 'A' && "ADI"@[1] == 'D' && "ADI"@[2] == 'I');
    reveal_strlit("JMP");
    assert("JMP"@.len() == 3 && "JMP"@[0] == 'J' && "JMP"@[1] == 'M' && "JMP"@[2] == 'P');
    reveal_strlit("BRH");
    assert("BRH"@.len() == 3 && "BRH"@[0] == 'B' && "BRH"@[1] == 'R' && "BRH"@[2] == 'H');
    reveal_strlit("CAL");
    assert("CAL"@.len() == 3 && "CAL"@[0] == 'C' && "CAL"@[1] == 'A' && "CAL"@[2] == 'L');
    reveal_strlit("RET");
    assert("RET"@.len() == 3 && "RET"@[0] == 'R' && "RET"@[1] == 'E' && "RET"@[2] == 'T');
    reveal_strlit("LOD");
    assert("LOD"@.len() == 3 && "LOD"@[0] == 'L' && "LOD"@[1] == 'O' && "LOD"@[2] == 'D');
    reveal_strlit("STR");
    assert("STR"@.len() == 3 && "STR"@[0] == 'S' && "STR"@[1] == 'T' && "STR"@[2] == 'R');
    reveal_strlit("r0");
    assert("r0"@.len() == 2 && "r0"@[0] == 'r' && "r0"@[1] == '0');
    reveal_strlit("r1");
    assert("r1"@.len() == 2 && "r1"@[0] == 'r' && "r1"@[1] == '1');
    reveal_strlit("r2");
    assert("r2"@.len() == 2 && "r2"@[0] == 'r' && "r2"@[1] == '2');
    reveal_strlit("r3");
    assert("r3"@.len() == 2 && "r3"@[0] == 'r' && "r3"@[1] == '3');
    reveal_strlit("r4");
    assert("r4"@.len() == 2 && "r4"@[0] == 'r' && "r4"@[1] == '4');
    reveal_strlit("r5");
    assert("r5"@.len() == 2 && "r5"@[0] == 'r' && "r5"@[1] == '5');
    reveal_strlit("r6");
    assert("r6"@.len() == 2 && "r6"@[0] == 'r' && "r6"@[1] == '6');
    reveal_strlit("r7");
    assert("r7"@.len() == 2 && "r7"@[0] == 'r' && "r7"@[1] == '7');
    reveal_strlit("r8");
    assert("r8"@.len() == 2 && "r8"@[0] == 'r' && "r8"@[1] == '8');
    reveal_strlit("r9");
    assert("r9"@.len() == 2 && "r9"@[0] == 'r' && "r9"@[1] == '9');
    reveal_strlit("r10");
    assert("r10"@.len() == 3 && "r10"@[0] == 'r' && "r10"@[1] == '1' && "r10"@[2] == '0');
    reveal_strlit("r11");
    assert("r11"@.len() == 3 && "r11"@[0] == 'r' && "r11"@[1] == '1' && "r11"@[2] == '1');
    reveal_strlit("r12");
    assert("r12"@.len() == 3 && "r12"@[0] == 'r' && "r12"@[1] == '1' && "r12"@[2] == '2');
    reveal_strlit("r13");
    assert("r13"@.len() == 3 && "r13"@[0] == 'r' && "r13"@[1] == '1' && "r13"@[2] == '3');
    reveal_strlit("r14");
    assert("r14"@.len() == 3 && "r14"@[0] == 'r' && "r14"@[1] == '1' && "r14"@[2] == '4');
    reveal_strlit("r15");
    assert("r15"@.len() == 3 && "r15"@[0] == 'r' && "r15"@[1] == '1' && "r15"@[2] == '5');
    reveal_strlit("eq");
    assert("eq"@.len() == 2 && "eq"@[0] == 'e' && "eq"@[1] == 'q');
    reveal_strlit("=");
    assert("="@.len() == 1 && "="@[0] == '=');
    reveal_strlit("z");
    assert("z"@.len() == 1 && "z"@[0] == 'z');
    reveal_strlit("zero");
    assert("zero"@.len() == 4 && "zero"@[0] == 'z' && "zero"@[1] == 'e' && "zero"@[2] == 'r'
        && "zero"@[3] == 'o');
    reveal_strlit("ne");
    assert("ne"@.len() == 2 && "ne"@[0] == 'n' && "ne"@[1] == 'e');
    reveal_strlit("!=");
    assert("!="@.len() == 2 && "!="@[0] == '!' && "!="@[1] == '=');
    reveal_strlit("nz");
    assert("nz"@.len() == 2 && "nz"@[0] == 'n' && "nz"@[1] == 'z');
    reveal_strlit("notzero");
    assert("notzero"@.len() == 7 && "notzero"@[0] == 'n' && "notzero"@[1] == 'o'
        && "notzero"@[2] == 't' && "notzero"@[3] == 'z' && "notzero"@[4] == 'e'
        && "notzero"@[5] == 'r' && "notzero"@[6] == 'o');
    reveal_strlit("ge");
    assert("ge"@.len() == 2 && "ge"@[0] == 'g' && "ge"@[1] == 'e');
    reveal_strlit(">=");
    assert(">="@.len() == 2 && ">="@[0] == '>' && ">="@[1] == '=');
    reveal_strlit("c");
    assert("c"@.len() == 1 && "c"@[0] == 'c');
    reveal_strlit("carry");
    assert("carry"@.len() == 5 && "carry"@[0] == 'c' && "carry"@[1] == 'a' && "carry"@[2] == 'r'
        && "carry"@[3] == 'r' && "carry"@[4] == 'y');
    reveal_strlit("lt");
    assert("lt"@.len() == 2 && "lt"@[0] == 'l' && "lt"@[1] == 't');
    reveal_strlit("<");
    assert("<"@.len() == 1 && "<"@[0] == '<');
    reveal_strlit("nc");
    assert("nc"@.len() == 2 && "nc"@[0] == 'n' && "nc"@[1] == 'c');
    reveal_strlit("notcarry");
    assert("notcarry"@.len() == 8 && "notcarry"@[0] == 'n' && "notcarry"@[1] == 'o'
        && "notcarry"@[2] == 't' && "notcarry"@[3] == 'c' && "notcarry"@[4] == 'a'
        && "notcarry"@[5] == 'r' && "notcarry"@[6] == 'r' && "notcarry"@[7] == 'y');
}

/// The names of the ports stand for the addresses 240 to 255 without the
/// program defining them.
pub proof fn lemma_port_names()
    ensures
        default_symbol("pixel_x"@) == Some(240i16),
        default_symbol("pixel_y"@) == Some(241i16),
        default_symbol("draw_pixel"@) == Some(242i16),
        default_symbol("clear_pixel"@) == Some(243i16),
        default_symbol("load_pixel"@) == Some(244i16),
        default_symbol("buffer_screen"@) == Some(245i16),
        default_symbol("clear_screen_buffer"@) == Some(246i16),
        default_symbol("write_char"@) == Some(247i16),
        default_symbol("buffer_chars"@) == Some(248i16),
        default_symbol("clear_chars_buffer"@) == Some(249i16),
        default_symbol("show_number"@) == Some(250i16),
        default_symbol("clear_number"@) == Some(251i16),
        default_symbol("signed_mode"@) == Some(252i16),
        default_symbol("unsigned_mode"@) == Some(253i16),
        default_symbol("rng"@) == Some(254i16),
        default_symbol("controller_input"@) == Some(255i16),
{
    lemma_names_differ();
}

/// The names of the registers, `r0` to `r15`, stand for the numbers 0 to
/// 15 without the program defining them.
pub proof fn lemma_register_names()
    ensures
        default_symbol("r0"@) == Some(0i16),
        default_symbol("r1"@) == Some(1i16),
        default_symbol("r2"@) == Some(2i16),
        default_symbol("r3"@) == Some(3i16),
        default_symbol("r4"@) == Some(4i16),
        default_symbol("r5"@) == Some(5i16),
        default_symbol("r6"@) == Some(6i16),
        default_symbol("r7"@) == Some(7i16),
        default_symbol("r8"@) == Some(8i16),
        default_symbol("r9"@) == Some(9i16),
        default_symbol("r10"@) == Some(10i16),
        default_symbol("r11"@) == Some(11i16),
        default_symbol("r12"@) == Some(12i16),
        default_symbol("r13"@) == Some(13i16),
        default_symbol("r14"@) == Some(14i16),
        default_symbol("r15"@) == Some(15i16),
{
    lemma_names_differ();
}

/// The names of the instructions stand for their opcodes without the
/// program defining them.
pub proof fn lemma_instruction_names()
    ensures
        default_symbol("NOP"@) == Some(0i16),
        default_symbol("HLT"@) == Some(1i16),
        default_symbol("ADD"@) == Some(2i16),
        default_symbol("SUB"@) == Some(3i16),
        default_symbol("NOR"@) == Some(4i16),
        default_symbol("AND"@) == Some(5i16),
        default_symbol("XOR"@) == Some(6i16),
        default_symbol("RSH"@) == Some(7i16),
        default_symbol("LDI"@) == Some(8i16),
        default_symbol("ADI"@) == Some(9i16),
        default_symbol("JMP"@) == Some(10i16),
        default_symbol("BRH"@) == Some(11i16),
        default_symbol("CAL"@) == Some(12i16),
        default_symbol("RET"@) == Some(13i16),
        default_symbol("LOD"@) == Some(14i16),
        default_symbol("STR"@) == Some(15i16),
{
    lemma_names_differ();
}

/// The names of the conditions stand for their codes without the program
/// defining them: four names for each of the four conditions.
pub proof fn lemma_condition_names()
    ensures
        default_symbol("eq"@) == Some(0i16),
        default_symbol("="@) == Some(0i16),
        default_symbol("z"@) == Some(0i16),
        default_symbol("zero"@) == Some(0i16),
        default_symbol("ne"@) == Some(1i16),
        default_symbol("!="@) == Some(1i16),
        default_symbol("nz"@) == Some(1i16),
        default_symbol("notzero"@) == Some(1i16),
        default_symbol("ge"@) == Some(2i16),
        default_symbol(">="@) == Some(2i16),
        default_symbol("c"@) == Some(2i16),
        default_symbol("carry"@) == Some(2i16),
        default_symbol("lt"@) == Some(3i16),
        default_symbol("<"@) == Some(3i16),
        default_symbol("nc"@) == Some(3i16),
        default_symbol("notcarry"@) == Some(3i16),
{
    lemma_names_differ();
}

} // verus!
