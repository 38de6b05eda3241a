use batpu2::isa::Instruction;
use batpu2::vm::code::Code;
use batpu2::vm::io::RawIO;
use batpu2::vm::RunError;
use batpu2::BatPU2;

struct Broken;

#[derive(Debug, PartialEq)]
struct Fault(u16);

impl Code for Broken {
    type Error = Fault;

    fn instruction(&self, pc: u16) -> Result<Option<Instruction>, Fault> {
        if pc == 2 {
            Err(Fault(pc))
        } else {
            Ok(Some(Instruction::LOD { a: 0, b: 1, offset: -1 }))
        }
    }

    fn len(&self) -> usize {
        3
    }
}

struct Deaf;

impl RawIO for Deaf {
    type Error = Fault;

    fn read_addr(&mut self, addr: u8) -> Result<u8, Fault> {
        Err(Fault(addr as u16))
    }

    fn write_addr(&mut self, _addr: u8, _value: u8) -> Result<(), Fault> {
        Ok(())
    }
}

#[test]
fn a_failing_program_ends_the_step() {
    let mut vm = BatPU2::new(Broken);
    vm.pc = 1024 + 2;
    match vm.try_step() {
        Err(RunError::CodeError(fault)) => assert_eq!(fault, Fault(2)),
        _ => panic!("expected CodeError"),
    }
    assert_eq!(vm.pc, 2);
    assert_eq!(vm.code.len(), 3);
}

#[test]
fn a_failing_device_ends_the_step() {
    let mut vm = BatPU2::with_io(Broken, Deaf);
    match vm.try_step_multiple(5) {
        Err(RunError::IOError(fault)) => assert_eq!(fault, Fault(255)),
        _ => panic!("expected IOError"),
    }
    assert_eq!(vm.pc, 1);
    assert_eq!(vm.registers, [0; 15]);
}

#[test]
fn programs_behind_pointers() {
    let words: Vec<u16> = vec![0x8107, 0x1000];
    let boxed: Box<[u16]> = words.clone().into_boxed_slice();
    let mut vm = BatPU2::new(boxed);
    assert_eq!(vm.step_multiple(10), 2);
    assert_eq!(vm.registers[0], 7);
    let shared = std::rc::Rc::new(words.clone());
    let mut vm = BatPU2::new(shared.clone());
    assert_eq!(vm.step_multiple(10), 2);
    assert_eq!(shared.len(), 2);
    let instructions = vec![Instruction::LDI { a: 2, imm: 9 }, Instruction::HLT];
    let mut vm = BatPU2::new(&instructions[..]);
    assert_eq!(vm.step_multiple(10), 2);
    assert_eq!(vm.registers[1], 9);
    assert_eq!(Code::len(&instructions), 2);
    assert_eq!(instructions.instruction(1), Ok(Some(Instruction::HLT)));
    assert_eq!(instructions.instruction(2), Ok(None));
}
