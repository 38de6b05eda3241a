use batpu2::isa::Instruction;
use batpu2::utils::{from_mc, Char};
use batpu2::vm::io::embedded::{Controller, EmbeddedIO};
use batpu2::vm::io::{RawIO, IO};
use batpu2::BatPU2;
use rand::rngs::SmallRng;
use rand::{Rng, SeedableRng};

#[test]
fn it_works() {
    BatPU2::new([0, 0, 1, 2, 3]);
    BatPU2::new(&[0, 0, 1, 2, 3]);
    BatPU2::new(&[0, 0, 1, 2, 3][..]);
    BatPU2::new(vec![0, 0, 1, 2, 3]);
    BatPU2::new(std::sync::Arc::new([0, 0, 1, 2, 3]));
}

#[test]
fn hello_world() {
    let code = [
        0x8ff9, 0xff00, 0x8ff7, 0x8e08, 0xffe0, 0x8e05, 0xffe0, 0x8e0c, 0xffe0, 0x8e0c, 0xffe0,
        0x8e0f, 0xffe0, 0x8e17, 0xffe0, 0x8e0f, 0xffe0, 0x8e12, 0xffe0, 0x8e0c, 0xffe0, 0x8e04,
        0xffe0, 0x8ff8, 0xff00, 0x1000,
    ];

    let mut vm = BatPU2::new(code);
    assert_eq!(vm.step_multiple(30), 26);
    assert_eq!(vm.io.char_display.to_string(), "HELLOWORLD");
}

#[test]
fn hello_asm() {
    let mut vm = BatPU2::from_asm(
        r"
			LDI r2 write_char
			LDI r3 buffer_chars
			
			LDI r1 'H'
			STR r2 r1 0
			LDI r1 'E'
			STR r2 r1 0
			LDI r1 'L'
			STR r2 r1 0
			STR r2 r1 0
			LDI r1 'O'
			STR r2 r1 0
			LDI r1 ' '
			STR r2 r1 0
			LDI r1 'A'
			STR r2 r1 0
			LDI r1 'S'
			STR r2 r1 0
			LDI r1 'M'
			STR r2 r1 0
			
			STR r3 r1 0
		",
    )
    .unwrap();
    vm.step_multiple(100);

    assert_eq!(vm.io.char_display.to_string(), "HELLO ASM ")
}

#[test]
fn dvd() {
    let code = [
        0x8ff9, 0xff00, 0x8ff7, 0x8104, 0xff10, 0x8116, 0xff10, 0x8104, 0xff10, 0x8100, 0xff10,
        0x8100, 0xff10, 0x8100, 0xff10, 0x8100, 0xff10, 0x8100, 0xff10, 0x8100, 0xff10, 0x8100,
        0xff10, 0x8ff8, 0xff00, 0x8100, 0x824f, 0xf120, 0x9101, 0x82c9, 0xf120, 0x9101, 0x82e6,
        0xf120, 0x9101, 0x82e0, 0xf120, 0x9101, 0x82e7, 0xf120, 0x9101, 0x82a8, 0xf120, 0x9101,
        0x82e7, 0xf120, 0x9101, 0x82e0, 0xf120, 0x9101, 0x82ef, 0xf120, 0x9101, 0x8269, 0xf120,
        0x9101, 0x8246, 0xf120, 0x9101, 0x8100, 0x8200, 0x8301, 0x8401, 0x8cf0, 0x8df1, 0x8ef2,
        0x8f14, 0x8bf6, 0xfb00, 0xc04d, 0x8bf5, 0xfb00, 0xc063, 0xc066, 0x3f1f, 0xb843, 0x1000,
        0x8800, 0x890b, 0x8a01, 0xe870, 0x8608, 0x2818, 0xfc80, 0x3818, 0x96ff, 0x57a0, 0xb05c,
        0x2626, 0xfd60, 0x3626, 0xfe00, 0x7707, 0x2606, 0xb455, 0x9801, 0x3890, 0xb450, 0xd000,
        0x2131, 0x2242, 0xd000, 0x8515, 0x8618, 0x3150, 0xb071, 0x3100, 0xb071, 0x3260, 0xb073,
        0x3200, 0xb073, 0xd000, 0x3033, 0xa06c, 0x3044, 0xd000,
    ];

    let mut vm = BatPU2::new(code);

    let done_steps = vm.step_multiple(10000);
    assert_eq!(done_steps, 5102);
    assert_eq!(vm.io.char_display.to_string(), "DVD       ");
    assert_eq!(vm.io.number_display.value, None);
    assert_eq!(vm.io.number_display.signed, false);
    assert_eq!(vm.io.screen.x, 15);
    assert_eq!(vm.io.screen.y, 6);
    assert_eq!(
        vm.io.screen.output,
        [
            0, 0, 0, 0, 0, 16320, 64480, 32640, 0, 25696, 43680, 43680, 27232, 0, 0, 0, 0, 0, 0,
            0, 0, 0, 0, 0, 0, 0, 0, 0, 0, 0, 0, 0
        ]
    );
}

fn run(program: &str) -> BatPU2<Vec<Instruction>> {
    let mut vm = BatPU2::from_asm(program).unwrap();
    vm.step_multiple(1000);
    vm
}

#[test]
fn signed_add_flags() {
    let vm = run("LDI r1 255\nADI r1 1\nHLT");
    assert_eq!(vm.registers[0], 0);
    assert!(vm.flags.zero);
    assert!(vm.flags.carry);
    assert!(vm.halted);
}

#[test]
fn unsigned_sub_flags() {
    let vm = run("LDI r1 3\nLDI r2 5\nSUB r1 r2 r3\nHLT");
    assert_eq!(vm.registers[2], 254);
    assert!(!vm.flags.zero);
    assert!(!vm.flags.carry);
    let vm = run("LDI r1 5\nLDI r2 5\nSUB r1 r2 r3\nHLT");
    assert_eq!(vm.registers[2], 0);
    assert!(vm.flags.zero);
    assert!(vm.flags.carry);
}

#[test]
fn add_carries_at_256() {
    let vm = run("LDI r1 200\nLDI r2 56\nADD r1 r2 r3\nHLT");
    assert_eq!(vm.registers[2], 0);
    assert!(vm.flags.carry);
    assert!(vm.flags.zero);
    let vm = run("LDI r1 200\nLDI r2 55\nADD r1 r2 r3\nHLT");
    assert_eq!(vm.registers[2], 255);
    assert!(!vm.flags.carry);
}

#[test]
fn register_zero_keeps_nothing() {
    let vm = run("LDI r0 77\nADI r0 1\nHLT");
    assert_eq!(vm.registers, [0; 15]);
    // the sum that was not kept was 1
    assert!(!vm.flags.zero);
    let vm = run("LDI r0 77\nLDI r1 5\nMOV r0 r1\nHLT");
    assert_eq!(vm.registers, [0; 15]);
    assert!(vm.flags.zero);
}

#[test]
fn logic_and_shift() {
    let vm = run("LDI r1 0b1100\nLDI r2 0b1010\nNOR r1 r2 r3\nAND r1 r2 r4\nXOR r1 r2 r5\nRSH r1 r6\nHLT");
    assert_eq!(vm.registers[2], 0b1111_0001);
    assert_eq!(vm.registers[3], 0b1000);
    assert_eq!(vm.registers[4], 0b0110);
    assert_eq!(vm.registers[5], 0b0110);
    // RSH leaves the flags of the XOR
    assert!(!vm.flags.zero);
    assert!(!vm.flags.carry);
}

#[test]
fn call_and_return() {
    let vm = run("CAL sub\nLDI r2 2\nHLT\n.sub LDI r1 1\nRET");
    assert_eq!(vm.registers[0], 1);
    assert_eq!(vm.registers[1], 2);
    assert_eq!(vm.pc, 3);
    assert_eq!(vm.call_stack, [0; 16]);
}

#[test]
fn seventeen_calls_lose_the_first_return_address() {
    // Each CAL calls the next line; after 17 of them the stack holds the
    // return addresses 17 down to 2 and has lost the first, 1.
    let mut code = String::new();
    for i in 0..17 {
        code.push_str(&format!("CAL {}\n", i + 1));
    }
    code.push_str("HLT\n");
    let vm = run(&code);
    assert_eq!(vm.call_stack, [17, 16, 15, 14, 13, 12, 11, 10, 9, 8, 7, 6, 5, 4, 3, 2]);

    // Seventeen returns after them: the sixteenth goes to 2, the
    // seventeenth to 0.
    let mut words: Vec<u16> = Vec::new();
    for i in 0..17 {
        words.push(0xC000 | (i + 1));
    }
    words.push(0xD000); // at 17: RET to 17 (itself), and so on down the stack
    let mut vm = BatPU2::new(words);
    for _ in 0..17 {
        vm.step();
    }
    assert_eq!(vm.pc, 17);
    let mut seen = Vec::new();
    for _ in 0..17 {
        // put a RET under the program counter by jumping back to 17
        vm.pc = 17;
        vm.step();
        seen.push(vm.pc);
    }
    assert_eq!(seen, vec![17, 16, 15, 14, 13, 12, 11, 10, 9, 8, 7, 6, 5, 4, 3, 2, 0]);
}

#[test]
fn return_from_an_empty_stack_goes_to_zero() {
    let mut vm = BatPU2::new([0x0000u16, 0x0000, 0xD000]);
    vm.step_multiple(3);
    assert_eq!(vm.pc, 0);
}

#[test]
fn store_then_load() {
    let vm = run("LDI r1 239\nLDI r2 99\nSTR r1 r2 0\nLOD r1 r3 0\nLDI r4 7\nSTR r4 r2 -7\nLOD r0 r5 0\nHLT");
    assert_eq!(vm.memory[239], 99);
    assert_eq!(vm.registers[2], 99);
    assert_eq!(vm.memory[0], 99);
    assert_eq!(vm.registers[4], 99);
}

#[test]
fn offsets_wrap_around_the_address_space() {
    // r1 = 1, offset -2 reaches 255, the controller
    let mut vm = BatPU2::from_asm("LDI r1 1\nLOD r1 r2 -2\nHLT").unwrap();
    vm.io.controller.set_button(Controller::B_A | Controller::B_UP);
    vm.step_multiple(10);
    assert_eq!(vm.registers[1], 0x28);
}

#[test]
fn pc_wraps_and_missing_code_is_nop() {
    let mut vm = BatPU2::new([0x9101u16]);
    assert_eq!(vm.step_multiple(1025), 1025);
    assert_eq!(vm.pc, 1);
    assert_eq!(vm.registers[0], 2);
    assert!(!vm.halted);
}

#[test]
fn branches() {
    let vm = run("LDI r1 1\nADI r1 255\nBRH zero yes\nLDI r2 1\n.yes BRH ne no\nLDI r3 1\n.no HLT");
    assert_eq!(vm.registers[1], 0);
    assert_eq!(vm.registers[2], 1);
    let vm = run("JMP 3\nLDI r1 1\nLDI r2 1\nHLT");
    assert_eq!(vm.registers[0], 0);
    assert_eq!(vm.registers[1], 0);
}

#[test]
fn machine_code_loads() {
    let program = from_mc("\n1010000000000001\n0010000100100011\n").unwrap();
    assert_eq!(program, vec![Instruction::JMP { addr: 1 }, Instruction::ADD { a: 1, b: 2, c: 3 }]);
    let error = from_mc("1010000000000001\n\n101\n").unwrap_err();
    assert_eq!(error.line_number(), 2);
    assert_eq!(error.line(), "101");
    assert!(from_mc("10100000000000012").is_err());
    assert!(from_mc("1010000000000002").is_err());
    assert!(BatPU2::from_mc("0001000000000000").is_ok());
}

#[test]
fn characters() {
    assert_eq!(Char::new(0).to_char(), Some(' '));
    assert_eq!(Char::new(1).to_char(), Some('A'));
    assert_eq!(Char::new(26).to_char(), Some('Z'));
    assert_eq!(Char::new(27).to_char(), Some('.'));
    assert_eq!(Char::new(28).to_char(), Some('!'));
    assert_eq!(Char::new(29).to_char(), Some('?'));
    assert_eq!(Char::new(30).to_char(), None);
    assert!(Char::new(29).is_valid());
    assert!(!Char::new(30).is_valid());
    assert_eq!(Char::new(200).as_u8(), 200);
    assert_eq!(Char::new(8).to_string(), "H");
    assert_eq!(Char::new(30).to_string(), "<30>");
    assert_eq!(Char::new(255).to_string(), "<255>");
    assert_eq!(Char::new(7).to_string(), "G");
    assert_eq!(Char::from_char('Q').unwrap(), Char::new(17));
    assert_eq!(Char::from_char('q').unwrap_err().char(), 'q');
}

#[test]
fn screen_and_ports() {
    let mut io = EmbeddedIO::with_seed(1);
    io.write_addr(240, 0xE3).unwrap();
    io.write_addr(241, 33).unwrap();
    assert_eq!((io.screen.x, io.screen.y), (3, 1));
    io.write_addr(242, 0).unwrap();
    assert_eq!(io.read_addr(244).unwrap(), 1);
    assert!(io.screen.get_buffer_pixel(3, 1));
    assert!(!io.screen.get_pixel(3, 1));
    io.write_addr(245, 0).unwrap();
    assert!(io.screen.get_pixel(35, 33));
    assert_eq!(io.screen.output[1], 8);
    io.write_addr(243, 0).unwrap();
    assert_eq!(io.read_addr(244).unwrap(), 0);
    assert!(io.screen.get_pixel(3, 1));
    io.draw_pixel().unwrap();
    io.write_addr(246, 0).unwrap();
    assert_eq!(io.screen.buffer, [0; 32]);
    io.screen.set_pixel(31, 31, true);
    assert_eq!(io.screen.output[31], 0x8000_0000);
    io.screen.clear_output();
    assert_eq!(io.screen.output, [0; 32]);
    // what is no port reads as 0 and keeps nothing
    assert_eq!(io.read_addr(240).unwrap(), 0);
    assert_eq!(io.read_addr(10).unwrap(), 0);
    io.write_addr(244, 9).unwrap();
    io.write_addr(255, 9).unwrap();
    assert_eq!(io.read_addr(255).unwrap(), 0);
}

#[test]
fn number_display() {
    let mut io = EmbeddedIO::with_seed(1);
    assert_eq!(io.number_display.to_string(), "");
    io.write_addr(250, 200).unwrap();
    assert_eq!(io.number_display.to_string(), "200");
    io.write_addr(252, 0).unwrap();
    assert_eq!(io.number_display.to_string(), "-56");
    io.write_addr(253, 0).unwrap();
    assert_eq!(io.number_display.to_string(), "200");
    io.number_display.set_signed(-128);
    assert_eq!(io.number_display.value, Some(128));
    assert_eq!(io.number_display.to_string(), "-128");
    io.number_display.set_unsigned(7);
    assert_eq!(io.number_display.to_string(), "7");
    io.write_addr(251, 0).unwrap();
    assert_eq!(io.number_display.value, None);
}

#[test]
fn character_display_rolls() {
    let mut io = EmbeddedIO::with_seed(1);
    for code in 1..=12 {
        io.write_addr(247, code).unwrap();
    }
    assert_eq!(io.char_display.to_string(), "          ");
    io.write_addr(248, 0).unwrap();
    assert_eq!(io.char_display.to_string(), "KLCDEFGHIJ");
    io.write_addr(249, 0).unwrap();
    assert_eq!(io.char_display.head, 0);
    io.write_addr(247, 40).unwrap();
    io.write_addr(248, 0).unwrap();
    assert_eq!(io.char_display.to_string(), "<40>         ");
    io.char_display.clear_output();
    assert_eq!(io.char_display.to_string(), "          ");
}

#[test]
fn controller_buttons() {
    let mut controller = Controller::default();
    controller.set_button(Controller::B_LEFT);
    controller.set_button(Controller::B_START);
    assert_eq!(controller.state, 0x81);
    assert!(controller.get_button(Controller::B_START));
    assert!(!controller.get_button(Controller::B_A));
    controller.clear_button(Controller::B_LEFT);
    assert_eq!(controller.state, 0x80);
}

#[test]
fn seeded_generators_agree() {
    let mut first = EmbeddedIO::with_seed(42);
    let mut second = EmbeddedIO::with_seed(42);
    for _ in 0..16 {
        assert_eq!(first.read_addr(254).unwrap(), second.read_addr(254).unwrap());
    }
    let mut fresh = EmbeddedIO::new();
    let _ = fresh.get_rng().unwrap();
}

#[test]
fn registers_and_memory_by_hand() {
    let mut vm = BatPU2::with_io(vec![0x0000u16], EmbeddedIO::with_seed(3));
    vm.write_register(0, 5);
    vm.write_register(15, 6);
    assert_eq!(vm.register(0), 0);
    assert_eq!(vm.register(15), 6);
    vm.write_register_and_flags(1, 0, true);
    assert!(vm.flags.zero && vm.flags.carry);
    vm.write_register_and_flags(1, 250, false);
    assert!(!vm.flags.zero && !vm.flags.carry);
    assert_eq!(vm.resolve_offset(1, 7), 1);
    assert_eq!(vm.resolve_offset(1, -8), 242);
    assert_eq!(vm.resolve_offset(0, -1), 255);
    vm.write_memory(239, 4).unwrap();
    assert_eq!(vm.read_memory(239).unwrap(), 4);
    vm.write_memory(240, 0xFF).unwrap();
    assert_eq!(vm.io.screen.x, 31);
    assert_eq!(vm.memory.iter().filter(|byte| **byte != 0).count(), 1);
    vm.io.controller.set_button(Controller::B_B);
    assert_eq!(vm.read_memory(255).unwrap(), 0x10);
    assert!(vm.finish_write(Ok(())).is_ok());
    assert!(vm.finish_load(2, Ok(9)).is_ok());
    assert_eq!(vm.registers[1], 9);
    vm.execute_instruction(Instruction::HLT).unwrap();
    assert!(vm.halted);
    assert_eq!(vm.try_step_multiple(5).unwrap(), 0);
    vm.try_step().unwrap();
    assert_eq!(vm.pc, 1);
}

#[test]
fn the_generator_that_is_given_is_the_one_that_is_read() {
    let mut direct = SmallRng::seed_from_u64(99);
    let mut given = EmbeddedIO::with_rng(direct.clone());
    let mut seeded = EmbeddedIO::with_seed(99);
    let mut bytes = Vec::new();
    for _ in 0..64 {
        let byte: u8 = direct.gen();
        assert_eq!(given.get_rng().unwrap(), byte);
        assert_eq!(seeded.read_addr(254).unwrap(), byte);
        bytes.push(byte);
    }
    // sixty-four bytes of the generator are not all the same
    assert!(bytes.iter().any(|byte| *byte != bytes[0]));
    // another seed is another generator
    let mut other = EmbeddedIO::with_seed(100);
    let others: Vec<u8> = (0..64).map(|_| other.get_rng().unwrap()).collect();
    assert_ne!(others, bytes);
    assert_eq!(given.screen.output, [0; 32]);
    assert_eq!(given.char_display.to_string(), "          ");
    assert_eq!(given.number_display.value, None);
    assert_eq!(given.controller.state, 0);
    assert_eq!(EmbeddedIO::rng_reading(0), Ok(0));
    assert_eq!(EmbeddedIO::rng_reading(200), Ok(200));
}

#[test]
fn a_copy_of_the_devices_goes_on_as_they_would() {
    let mut devices = EmbeddedIO::new();
    devices.write_addr(247, 3).unwrap();
    let _ = devices.get_rng().unwrap();
    let mut copy = devices.clone();
    assert_eq!(copy.char_display.buffer, devices.char_display.buffer);
    for _ in 0..16 {
        assert_eq!(copy.get_rng().unwrap(), devices.get_rng().unwrap());
    }
}
