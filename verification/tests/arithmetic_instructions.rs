use vxlvm::instruction_arguments::Register;
use vxlvm::validator::BulkValidator;
use vxlvm::vm::VM;


use std::cell::RefCell;
use std::rc::Rc;

use vxlvm::vm::SyscallHandler;

pub struct System {
    pub printed: Rc<RefCell<Vec<String>>>,
}

impl System {
    pub fn new() -> Self {
        return Self { printed: Rc::new(RefCell::new(Vec::new())) };
    }

    pub fn with_buffer(printed: Rc<RefCell<Vec<String>>>) -> Self {
        return Self { printed };
    }
}

impl SyscallHandler for System {
    fn execute_target_specific_call(&mut self, _call: u64, _machine: &mut VM) -> Option<u64> {
        return None;
    }

    fn exit(&mut self, _machine: &mut VM) -> Option<u64> {
        panic!("Failed. Unexpectedly reached an unimplemented handler function.");
    }

    fn write_byte_terminal(&mut self, _machine: &mut VM) -> Option<u64> {
        panic!("Failed. Unexpectedly reached an unimplemented handler function.");
    }

    fn write_terminal(&mut self, machine: &mut VM) -> Option<u64> {
        self.printed.borrow_mut().push(format!(
            "{}\n",
            machine.registers().get_value(Register::R0 as u8)
        ));

        return Some(0);
    }

    fn read_byte_terminal(&mut self, _machine: &mut VM) -> Option<u64> {
        panic!("Failed. Unexpectedly reached an unimplemented handler function.");
    }

    fn read_terminal(&mut self, _machine: &mut VM) -> Option<u64> {
        panic!("Failed. Unexpectedly reached an unimplemented handler function.");
    }

    fn open_file(&mut self, _machine: &mut VM) -> Option<u64> {
        panic!("Failed. Unexpectedly reached an unimplemented handler function.");
    }

    fn close_file(&mut self, _machine: &mut VM) -> Option<u64> {
        panic!("Failed. Unexpectedly reached an unimplemented handler function.");
    }

    fn read_file(&mut self, _machine: &mut VM) -> Option<u64> {
        panic!("Failed. Unexpectedly reached an unimplemented handler function.");
    }

    fn write_file(&mut self, _machine: &mut VM) -> Option<u64> {
        panic!("Failed. Unexpectedly reached an unimplemented handler function.");
    }

    fn delete_file(&mut self, _machine: &mut VM) -> Option<u64> {
        panic!("Failed. Unexpectedly reached an unimplemented handler function.");
    }

    fn move_file(&mut self, _machine: &mut VM) -> Option<u64> {
        panic!("Failed. Unexpectedly reached an unimplemented handler function.");
    }

    fn copy_file(&mut self, _machine: &mut VM) -> Option<u64> {
        panic!("Failed. Unexpectedly reached an unimplemented handler function.");
    }

    fn execute_file(&mut self, _machine: &mut VM) -> Option<u64> {
        panic!("Failed. Unexpectedly reached an unimplemented handler function.");
    }

    fn execute_vxl_file(&mut self, _machine: &mut VM) -> Option<u64> {
        panic!("Failed. Unexpectedly reached an unimplemented handler function.");
    }

    fn time_of_day(&mut self, _machine: &mut VM) -> Option<u64> {
        panic!("Failed. Unexpectedly reached an unimplemented handler function.");
    }
}


#[test]
fn test_not() {
    let mut bytes = vec![
        0x3, // ldi
    ];

    bytes.append(&mut 0b1100110011u64.to_le_bytes().to_vec());
    bytes.push(0b0110_0000); // $r0

    bytes.push(0x30);
    bytes.push(0b0110_0000); // $r0

    let mut handler = System::new();
    let validator = BulkValidator::with_bytes(bytes);
    let mut vm = VM::new(validator.process_all_instructions().unwrap());

    // ldi $r0, lhs
    vm.run_next(&mut handler).unwrap();

    assert_eq!(
        vm.registers().get_value(Register::R0 as u8),
        0b1100110011u64
    );

    // not $r0
    vm.run_next(&mut handler).unwrap();
    assert_eq!(
        vm.registers().get_value(Register::R0 as u8),
        !0b1100110011u64,
    );
}
#[test]
fn test_i2f() {
    let bytes = vec![
        0x3,  // ldi
        0x45, // 0x45
        0x0,
        0x0,
        0x0,
        0x0,
        0x0,
        0x0,
        0x0,
        0b0110_0000, // $r0
        0x3e,        // i2f
        0b0110_0000, // $r0
    ];

    let mut handler = System::new();
    let validator = BulkValidator::with_bytes(bytes);
    let mut vm = VM::new(validator.process_all_instructions().unwrap());

    // ldi $r0, 0x45
    vm.run_next(&mut handler).unwrap();

    //i2f $r0
    vm.run_next(&mut handler).unwrap();

    let cmp: u64 = 69.0f64.to_bits();

    assert_eq!(vm.registers().get_value(Register::R0 as u8), cmp);
}
#[test]
fn test_i2f_2() {
    let bytes = vec![
        0x3, // ldi
        0x0, // 0x0
        0x0,
        0x0,
        0x0,
        0x0,
        0x0,
        0x0,
        0x0,
        0b0110_0000, // $r0
        0x3e,        // i2f
        0b0110_0000, // $r0
    ];

    let mut handler = System::new();
    let validator = BulkValidator::with_bytes(bytes);
    let mut vm = VM::new(validator.process_all_instructions().unwrap());

    // ldi $r0, 0x45
    vm.run_next(&mut handler).unwrap();

    //i2f $r0
    vm.run_next(&mut handler).unwrap();

    let cmp: u64 = 0f64.to_bits();

    assert_eq!(vm.registers().get_value(Register::R0 as u8), cmp);
}
#[test]
fn test_f2i_1() {
    let bytes = vec![
        0x3,  // ldi
        0x9a, // 0.2
        0x99,
        0x99,
        0x99,
        0x99,
        0x99,
        0xc9,
        0x3f,
        0b0110_0000, // $r0
        0x3f,        // f2i
        0b0110_0000, // $r0
    ];

    let mut handler = System::new();
    let validator = BulkValidator::with_bytes(bytes);
    let mut vm = VM::new(validator.process_all_instructions().unwrap());

    // ldi $r0, 0x45
    vm.run_next(&mut handler).unwrap();

    //i2f $r0
    vm.run_next(&mut handler).unwrap();

    assert_eq!(vm.registers().get_value(Register::R0 as u8), 0);
}
#[test]
fn test_f2i_2() {
    let bytes = vec![
        0x3,  // ldi
        0x9a, // -0.2
        0x99,
        0x99,
        0x99,
        0x99,
        0x99,
        0xc9,
        0xbf,
        0b0110_0000, // $r0
        0x3f,        // f2i
        0b0110_0000, // $r0
    ];

    let mut handler = System::new();
    let validator = BulkValidator::with_bytes(bytes);
    let mut vm = VM::new(validator.process_all_instructions().unwrap());

    // ldi $r0, 0x45
    vm.run_next(&mut handler).unwrap();

    //i2f $r0
    vm.run_next(&mut handler).unwrap();

    assert_eq!(vm.registers().get_value(Register::R0 as u8), 0);
}
#[test]
fn test_f2i_3() {
    let bytes = vec![
        0x3,  // ldi
        0x9a, // -2.2
        0x99,
        0x99,
        0x99,
        0x99,
        0x99,
        0x01,
        0xc0,
        0b0110_0000, // $r0
        0x3f,        // f2i
        0b0110_0000, // $r0
    ];

    let mut handler = System::new();
    let validator = BulkValidator::with_bytes(bytes);
    let mut vm = VM::new(validator.process_all_instructions().unwrap());

    // ldi $r0, 0x45
    vm.run_next(&mut handler).unwrap();

    //i2f $r0
    vm.run_next(&mut handler).unwrap();

    assert_eq!(vm.registers().get_value(Register::R0 as u8), -2i64 as u64);
}
