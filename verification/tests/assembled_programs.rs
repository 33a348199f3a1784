use vxlvm::instruction_arguments::Register;
use vxlvm::validator::BulkValidator;
use vxlvm::vm::VM;
use vxlvm::loader::Loader;


use std::cell::RefCell;
use std::rc::Rc;

use vxlvm::vm::SyscallHandler;

pub struct System {
    pub printed: Rc<RefCell<Vec<String>>>,
}

impl System {
    pub fn new() -> Self {
        return Self { printed: Rc::new(RefCell::new(Vec::new())) };
    }

    pub fn with_buffer(printed: Rc<RefCell<Vec<String>>>) -> Self {
        return Self { printed };
    }
}

impl SyscallHandler for System {
    fn execute_target_specific_call(&mut self, _call: u64, _machine: &mut VM) -> Option<u64> {
        return None;
    }

    fn exit(&mut self, _machine: &mut VM) -> Option<u64> {
        panic!("Failed. Unexpectedly reached an unimplemented handler function.");
    }

    fn write_byte_terminal(&mut self, _machine: &mut VM) -> Option<u64> {
        panic!("Failed. Unexpectedly reached an unimplemented handler function.");
    }

    fn write_terminal(&mut self, machine: &mut VM) -> Option<u64> {
        self.printed.borrow_mut().push(format!(
            "{}\n",
            machine.registers().get_value(Register::R0 as u8)
        ));

        return Some(0);
    }

    fn read_byte_terminal(&mut self, _machine: &mut VM) -> Option<u64> {
        panic!("Failed. Unexpectedly reached an unimplemented handler function.");
    }

    fn read_terminal(&mut self, _machine: &mut VM) -> Option<u64> {
        panic!("Failed. Unexpectedly reached an unimplemented handler function.");
    }

    fn open_file(&mut self, _machine: &mut VM) -> Option<u64> {
        panic!("Failed. Unexpectedly reached an unimplemented handler function.");
    }

    fn close_file(&mut self, _machine: &mut VM) -> Option<u64> {
        panic!("Failed. Unexpectedly reached an unimplemented handler function.");
    }

    fn read_file(&mut self, _machine: &mut VM) -> Option<u64> {
        panic!("Failed. Unexpectedly reached an unimplemented handler function.");
    }

    fn write_file(&mut self, _machine: &mut VM) -> Option<u64> {
        panic!("Failed. Unexpectedly reached an unimplemented handler function.");
    }

    fn delete_file(&mut self, _machine: &mut VM) -> Option<u64> {
        panic!("Failed. Unexpectedly reached an unimplemented handler function.");
    }

    fn move_file(&mut self, _machine: &mut VM) -> Option<u64> {
        panic!("Failed. Unexpectedly reached an unimplemented handler function.");
    }

    fn copy_file(&mut self, _machine: &mut VM) -> Option<u64> {
        panic!("Failed. Unexpectedly reached an unimplemented handler function.");
    }

    fn execute_file(&mut self, _machine: &mut VM) -> Option<u64> {
        panic!("Failed. Unexpectedly reached an unimplemented handler function.");
    }

    fn execute_vxl_file(&mut self, _machine: &mut VM) -> Option<u64> {
        panic!("Failed. Unexpectedly reached an unimplemented handler function.");
    }

    fn time_of_day(&mut self, _machine: &mut VM) -> Option<u64> {
        panic!("Failed. Unexpectedly reached an unimplemented handler function.");
    }
}


#[test]
fn test_full_file_single_load() {
    // See the examples in the vxasm repository, this is the ld.vsm
    let bytes = hex::decode("6558564c000a00000000000000000000000000000001b27acab0c6ccc799475b2b9dd8e5eb8689dff72b4e044bf3c6582727aa033f0000000000000060").unwrap();

    let mut handler = System::new();
    let (_header, instructions) = Loader::load_bytes(&bytes)
        .unwrap()
        .to_instructions(BulkValidator::new())
        .unwrap();

    let mut vm = VM::new(instructions);

    vm.run(&mut handler).unwrap();
    assert_eq!(vm.registers().get_value(Register::R0 as u8), 63);
}
#[test]
fn test_power() {
    // See the examples in the vxasm repository, this is the ld.vsm
    let bytes = hex::decode("6558564c005b00000000000000000000000000000001c58043c2580e23d9465f0b1558d09b9bfc1ee1105a08417c6f6839e7aa030400000000000000600304000000000000007043040000000000000045020100000000000000200586056702000000000000000070020100000000000000f034763a0e000000000000002122801f77f037090000000000000044").unwrap();

    let mut handler = System::new();
    let (_header, instructions) = Loader::load_bytes(&bytes)
        .unwrap()
        .to_instructions(BulkValidator::new())
        .unwrap();

    let mut vm = VM::new(instructions);

    vm.run(&mut handler).unwrap();
    assert_eq!(vm.registers().get_value(Register::ROU as u8), 256);
}
