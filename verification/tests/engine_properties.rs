use vxlvm::error::VMError;
use vxlvm::error::VXLVMError;
use vxlvm::instruction::Instruction;
use vxlvm::instruction_arguments::Address;
use vxlvm::instruction_arguments::Immediate;
use vxlvm::instruction_arguments::Register;
use vxlvm::vm::OverflowBehaviour;
use vxlvm::vm::SyscallHandler;
use vxlvm::vm::VM;

pub struct HostStub;

impl SyscallHandler for HostStub {
    fn execute_target_specific_call(&mut self, _call: u64, _machine: &mut VM) -> Option<u64> {
        None
    }

    fn exit(&mut self, _machine: &mut VM) -> Option<u64> {
        None
    }

    fn write_byte_terminal(&mut self, _machine: &mut VM) -> Option<u64> {
        None
    }

    fn write_terminal(&mut self, _machine: &mut VM) -> Option<u64> {
        None
    }

    fn read_byte_terminal(&mut self, _machine: &mut VM) -> Option<u64> {
        None
    }

    fn read_terminal(&mut self, _machine: &mut VM) -> Option<u64> {
        None
    }

    fn open_file(&mut self, _machine: &mut VM) -> Option<u64> {
        None
    }

    fn close_file(&mut self, _machine: &mut VM) -> Option<u64> {
        None
    }

    fn read_file(&mut self, _machine: &mut VM) -> Option<u64> {
        None
    }

    fn write_file(&mut self, _machine: &mut VM) -> Option<u64> {
        None
    }

    fn delete_file(&mut self, _machine: &mut VM) -> Option<u64> {
        None
    }

    fn move_file(&mut self, _machine: &mut VM) -> Option<u64> {
        None
    }

    fn copy_file(&mut self, _machine: &mut VM) -> Option<u64> {
        None
    }

    fn execute_file(&mut self, _machine: &mut VM) -> Option<u64> {
        None
    }

    fn execute_vxl_file(&mut self, _machine: &mut VM) -> Option<u64> {
        None
    }

    fn time_of_day(&mut self, _machine: &mut VM) -> Option<u64> {
        None
    }
}

fn arith_vm(behaviour: OverflowBehaviour, a: u64, b: u64, op: Instruction) -> VM {
    VM::new_with_options(
        1024,
        vec![
            Instruction::Ldi(Immediate::new(a), Register::R0),
            Instruction::Ldi(Immediate::new(b), Register::R1),
            op,
        ],
        0,
        behaviour,
    )
}

#[test]
fn test_reporting_mode_reports_overflow() {
    let mut vm = arith_vm(
        OverflowBehaviour::Reporting,
        i64::MAX as u64,
        1,
        Instruction::Addi(Register::R2, Register::R0, Register::R1),
    );
    let mut handler = HostStub;
    assert_eq!(vm.run(&mut handler), Err(VMError::IntegerOverflowError));
}

#[test]
fn test_clamping_mode_saturates() {
    let mut vm = arith_vm(
        OverflowBehaviour::Clamping,
        i64::MAX as u64,
        1,
        Instruction::Addi(Register::R2, Register::R0, Register::R1),
    );
    let mut handler = HostStub;
    vm.run(&mut handler).unwrap();
    assert_eq!(vm.registers().get_value(Register::R2 as u8), i64::MAX as u64);
}

#[test]
fn test_wrapping_mode_wraps() {
    let mut vm = arith_vm(
        OverflowBehaviour::Wrapping,
        i64::MAX as u64,
        1,
        Instruction::Addi(Register::R2, Register::R0, Register::R1),
    );
    let mut handler = HostStub;
    vm.run(&mut handler).unwrap();
    assert_eq!(
        vm.registers().get_value(Register::R2 as u8),
        (i64::MAX as u64).wrapping_add(1)
    );
}

#[test]
fn test_modulo_zero_is_reported() {
    let mut vm = arith_vm(
        OverflowBehaviour::Clamping,
        50,
        0,
        Instruction::Modu(Register::R2, Register::R0, Register::R1),
    );
    let mut handler = HostStub;
    assert_eq!(
        vm.run(&mut handler),
        Err(VMError::AttemptedModuloZeroOperation)
    );
}

#[test]
fn test_stack_push_beyond_capacity_fails() {
    let mut vm = VM::new_with_options(
        12,
        vec![
            Instruction::Push(Register::R0),
            Instruction::Push(Register::R0),
        ],
        0,
        OverflowBehaviour::Clamping,
    );
    let mut handler = HostStub;
    assert_eq!(vm.run_next(&mut handler), Ok(()));
    assert_eq!(
        vm.run_next(&mut handler),
        Err(VMError::AccessBeyondStackBounds)
    );
}

#[test]
fn test_seti_rejects_write_touching_block_end() {
    let mut vm = VM::new(vec![
        Instruction::Malloci(Immediate::new(8), Register::R0),
        Instruction::Ldi(Immediate::new(0), Register::R1),
        Instruction::Ldi(Immediate::new(99), Register::R2),
        Instruction::Seti(Register::R0, Register::R1, Register::R2),
    ]);
    let mut handler = HostStub;
    assert_eq!(
        vm.run(&mut handler),
        Err(VMError::IndexBeyondBoundsError(0, 8))
    );
}

#[test]
fn test_geti_reads_up_to_block_end() {
    let mut vm = VM::new(vec![
        Instruction::Malloci(Immediate::new(8), Register::R0),
        Instruction::Ldi(Immediate::new(0), Register::R1),
        Instruction::Geti(Register::R2, Register::R0, Register::R1),
    ]);
    let mut handler = HostStub;
    vm.run(&mut handler).unwrap();
    assert_eq!(vm.registers().get_value(Register::R2 as u8), 0);
}

#[test]
fn test_freed_address_is_reused_smallest_first() {
    let mut vm = VM::new(vec![
        Instruction::Malloci(Immediate::new(4), Register::R0),
        Instruction::Malloci(Immediate::new(4), Register::R1),
        Instruction::Freea(Address::new(0)),
        Instruction::Malloci(Immediate::new(4), Register::R2),
    ]);
    let mut handler = HostStub;
    vm.run(&mut handler).unwrap();
    assert_eq!(vm.registers().get_value(Register::R0 as u8), 0);
    assert_eq!(vm.registers().get_value(Register::R1 as u8), 1);
    assert_eq!(vm.registers().get_value(Register::R2 as u8), 0);
}

#[test]
fn test_cmpf_nan_clears_condition_bits() {
    let nan_bits: u64 = f64::NAN.to_bits();
    let mut vm = VM::new(vec![
        Instruction::Ldf(Immediate::new(nan_bits), Register::R0),
        Instruction::Ldf(Immediate::new(1.0f64.to_bits()), Register::R1),
        Instruction::Cmp(Register::R0, Register::R1),
        Instruction::Cmpf(Register::R0, Register::R1),
    ]);
    let mut handler = HostStub;
    // the integer compare first sets some condition bit
    vm.run_next(&mut handler).unwrap();
    vm.run_next(&mut handler).unwrap();
    vm.run_next(&mut handler).unwrap();
    assert_ne!(vm.registers().get_value(Register::RFL as u8) & 0b111, 0);
    // the float compare on NaN then clears all three
    vm.run_next(&mut handler).unwrap();
    assert_eq!(vm.registers().get_value(Register::RFL as u8) & 0b111, 0);
}

#[test]
fn test_signed_compare_and_branch() {
    let mut vm = VM::new(vec![
        Instruction::Ldi(Immediate::new((-33i64) as u64), Register::R0),
        Instruction::Ldi(Immediate::new((-32i64) as u64), Register::R1),
        Instruction::Cmpi(Register::R0, Register::R1),
        Instruction::Jlt(Address::new(5)),
        Instruction::Halt,
        Instruction::Ldi(Immediate::new(1), Register::R2),
    ]);
    let mut handler = HostStub;
    vm.run_next(&mut handler).unwrap();
    vm.run_next(&mut handler).unwrap();
    vm.run_next(&mut handler).unwrap();
    assert_eq!(vm.registers().get_value(Register::RFL as u8) & 0b010, 0b010);
    vm.run_next(&mut handler).unwrap();
    vm.run_next(&mut handler).unwrap();
    assert_eq!(vm.registers().get_value(Register::R2 as u8), 1);
}

#[test]
fn test_float_arithmetic_matches_ieee() {
    let cases: Vec<(Instruction, f64, f64, f64)> = vec![
        (
            Instruction::Addf(Register::R2, Register::R0, Register::R1),
            12.3,
            14.4,
            12.3 + 14.4,
        ),
        (
            Instruction::Subf(Register::R2, Register::R0, Register::R1),
            12.3,
            14.4,
            12.3 - 14.4,
        ),
        (
            Instruction::Mulf(Register::R2, Register::R0, Register::R1),
            12.3,
            2.2,
            12.3 * 2.2,
        ),
        (
            Instruction::Divf(Register::R2, Register::R0, Register::R1),
            12.4,
            3.2,
            12.4 / 3.2,
        ),
    ];
    for (op, a, b, expected) in cases {
        let mut vm = VM::new(vec![
            Instruction::Ldf(Immediate::new(a.to_bits()), Register::R0),
            Instruction::Ldf(Immediate::new(b.to_bits()), Register::R1),
            op,
        ]);
        let mut handler = HostStub;
        vm.run(&mut handler).unwrap();
        assert_eq!(
            vm.registers().get_value(Register::R2 as u8),
            expected.to_bits()
        );
    }
}

#[test]
fn test_integer_arithmetic_results() {
    let cases: Vec<(Instruction, u64, u64, u64)> = vec![
        (
            Instruction::Addi(Register::R2, Register::R0, Register::R1),
            55i64 as u64,
            5i64 as u64,
            60i64 as u64,
        ),
        (
            Instruction::Subi(Register::R2, Register::R0, Register::R1),
            55i64 as u64,
            (-5i64) as u64,
            60i64 as u64,
        ),
        (
            Instruction::Muli(Register::R2, Register::R0, Register::R1),
            50i64 as u64,
            (-5i64) as u64,
            (-250i64) as u64,
        ),
        (
            Instruction::Divi(Register::R2, Register::R0, Register::R1),
            50i64 as u64,
            5i64 as u64,
            10i64 as u64,
        ),
        (
            Instruction::Modi(Register::R2, Register::R0, Register::R1),
            50i64 as u64,
            7i64 as u64,
            1i64 as u64,
        ),
        (
            Instruction::Addu(Register::R2, Register::R0, Register::R1),
            0xFFFFFFFFFFFFFFF0,
            0xF,
            0xFFFFFFFFFFFFFFFF,
        ),
        (
            Instruction::Subu(Register::R2, Register::R0, Register::R1),
            1,
            1,
            0,
        ),
        (
            Instruction::Mulu(Register::R2, Register::R0, Register::R1),
            0x1111111111111111,
            0xF,
            0xFFFFFFFFFFFFFFFF,
        ),
        (
            Instruction::Divu(Register::R2, Register::R0, Register::R1),
            0xFFFFFFFFFFFFFFFF,
            0xF,
            0x1111111111111111,
        ),
        (
            Instruction::Modu(Register::R2, Register::R0, Register::R1),
            50,
            6,
            2,
        ),
    ];
    for (op, a, b, expected) in cases {
        let mut vm = VM::new(vec![
            Instruction::Ldi(Immediate::new(a), Register::R0),
            Instruction::Ldi(Immediate::new(b), Register::R1),
            op,
        ]);
        let mut handler = HostStub;
        vm.run(&mut handler).unwrap();
        assert_eq!(vm.registers().get_value(Register::R2 as u8), expected);
    }
}

#[test]
fn test_rotations_and_shifts() {
    let cases: Vec<(Instruction, u64, u64, u64)> = vec![
        (
            Instruction::Rotl(Register::R0, Register::R1),
            0x8000000000000001,
            1,
            3,
        ),
        (
            Instruction::Rotr(Register::R0, Register::R1),
            3,
            1,
            0x8000000000000001,
        ),
        (Instruction::Sll(Register::R0, Register::R1), 1, 63, 1u64 << 63),
        (Instruction::Sll(Register::R0, Register::R1), 1, 64, 0),
        (Instruction::Srl(Register::R0, Register::R1), 1u64 << 63, 63, 1),
        (Instruction::Srl(Register::R0, Register::R1), 1, 64, 0),
    ];
    for (op, v, amount, expected) in cases {
        let mut vm = VM::new(vec![
            Instruction::Ldi(Immediate::new(v), Register::R0),
            Instruction::Ldi(Immediate::new(amount), Register::R1),
            op,
        ]);
        let mut handler = HostStub;
        vm.run(&mut handler).unwrap();
        assert_eq!(vm.registers().get_value(Register::R0 as u8), expected);
    }
}

#[test]
fn test_halted_machine_stays_halted() {
    let mut vm = VM::new(vec![Instruction::Halt, Instruction::Nop]);
    let mut handler = HostStub;
    vm.run_next(&mut handler).unwrap();
    assert_eq!(vm.run_next(&mut handler), Err(VMError::SystemHalted));
    assert_eq!(vm.run_next(&mut handler), Err(VMError::SystemHalted));
}

#[test]
fn test_unknown_system_call_is_reported() {
    let mut vm = VM::new(vec![Instruction::Syscall(Immediate::new(999))]);
    let mut handler = HostStub;
    assert_eq!(
        vm.run(&mut handler),
        Err(VMError::UnknownSystemCall(999))
    );
}

#[test]
fn test_free_of_vacant_address_is_reported() {
    let mut vm = VM::new(vec![Instruction::Freea(Address::new(3))]);
    let mut handler = HostStub;
    assert_eq!(
        vm.run(&mut handler),
        Err(VMError::FailedFreeNoAddressError(3))
    );
}

#[test]
fn test_get_of_vacant_address_is_reported() {
    let mut vm = VM::new(vec![
        Instruction::Ldi(Immediate::new(5), Register::R1),
        Instruction::Length(Register::R0, Register::R1),
    ]);
    let mut handler = HostStub;
    assert_eq!(
        vm.run(&mut handler),
        Err(VMError::FailedGetNoAddressError(5))
    );
}

#[test]
fn test_float_round_trip_truncates() {
    // the bit pattern of 0.2; truncation toward zero gives 0
    let mut vm = VM::new(vec![
        Instruction::Ldi(Immediate::new(0x3FC999999999999A), Register::R0),
        Instruction::F2i(Register::R0),
    ]);
    let mut handler = HostStub;
    vm.run(&mut handler).unwrap();
    assert_eq!(vm.registers().get_value(Register::R0 as u8), 0);
}

#[test]
fn test_error_codes_are_stable() {
    assert_eq!(vxlvm::error::LoaderError::InvalidChecksum.as_u8(), 2);
    assert_eq!(
        vxlvm::error::ValidatorError::InvalidInstructionFormat.as_u8(),
        4
    );
    assert_eq!(VMError::UnknownSystemCall(7).as_u8(), 12);
    assert_eq!(VMError::Unknown(String::new()).as_u8(), 255);
}

#[test]
fn test_cmpf_orders_like_the_host() {
    let cases: Vec<(f64, f64, u64)> = vec![
        (-33.33, -33.33, 0b001),
        (33.33, 33.33, 0b001),
        (0.0, -0.0, 0b001),
        (-33.33, 34.0, 0b010),
        (33.33, 34.0, 0b010),
        (-33.0, -32.0, 0b010),
        (34.0, -33.33, 0b100),
        (34.0, 33.33, 0b100),
        (-32.0, -33.33, 0b100),
        (f64::NEG_INFINITY, f64::INFINITY, 0b010),
    ];
    for (a, b, expected) in cases {
        let mut vm = VM::new(vec![
            Instruction::Ldf(Immediate::new(a.to_bits()), Register::R0),
            Instruction::Ldf(Immediate::new(b.to_bits()), Register::R1),
            Instruction::Cmpf(Register::R0, Register::R1),
        ]);
        let mut handler = HostStub;
        vm.run(&mut handler).unwrap();
        assert_eq!(
            vm.registers().get_value(Register::RFL as u8) & 0b111,
            expected
        );
    }
}

#[test]
fn test_conditional_branches_follow_the_flags() {
    // for each pair and branch: whether the branch must be taken
    let cases: Vec<(u64, u64, Instruction, bool)> = vec![
        (33, 33, Instruction::Jeq(Address::new(5)), true),
        (33, 34, Instruction::Jeq(Address::new(5)), false),
        (33, 34, Instruction::Jne(Address::new(5)), true),
        (33, 33, Instruction::Jne(Address::new(5)), false),
        (34, 33, Instruction::Jgt(Address::new(5)), true),
        (33, 33, Instruction::Jgt(Address::new(5)), false),
        (33, 33, Instruction::Jge(Address::new(5)), true),
        (33, 34, Instruction::Jge(Address::new(5)), false),
        (33, 34, Instruction::Jlt(Address::new(5)), true),
        (33, 33, Instruction::Jlt(Address::new(5)), false),
        (33, 33, Instruction::Jle(Address::new(5)), true),
        (34, 33, Instruction::Jle(Address::new(5)), false),
    ];
    for (a, b, branch, taken) in cases {
        let mut vm = VM::new(vec![
            Instruction::Ldi(Immediate::new(a), Register::R0),
            Instruction::Ldi(Immediate::new(b), Register::R1),
            Instruction::Cmp(Register::R0, Register::R1),
            branch,
            Instruction::Halt,
            Instruction::Ldi(Immediate::new(1), Register::R2),
        ]);
        let mut handler = HostStub;
        vm.run(&mut handler).unwrap();
        assert_eq!(
            vm.registers().get_value(Register::R2 as u8),
            if taken { 1 } else { 0 }
        );
    }
}

#[test]
fn test_byte_store_and_load_round_trip() {
    let mut vm = VM::new(vec![
        Instruction::Malloci(Immediate::new(4), Register::R0),
        Instruction::Ldi(Immediate::new(2), Register::R1),
        Instruction::Ldi(Immediate::new(0x1FF), Register::R2),
        Instruction::Setb(Register::R0, Register::R1, Register::R2),
        Instruction::Getb(Register::R3, Register::R0, Register::R1),
    ]);
    let mut handler = HostStub;
    vm.run(&mut handler).unwrap();
    // only the low byte of the stored value lands in the block
    assert_eq!(vm.registers().get_value(Register::R3 as u8), 0xFF);
    assert_eq!(vm.memory().retrieve(&0).unwrap(), &vec![0, 0, 0xFF, 0]);
}

#[test]
fn test_error_renderings_interpolate_values() {
    assert_eq!(
        vxlvm::error::LoaderError::InvalidChecksum.short_description(),
        "Loader Error: 2"
    );
    assert_eq!(
        vxlvm::error::ValidatorError::InvalidInstructionFormat.short_description(),
        "Validator Error: 4"
    );
    assert_eq!(
        VMError::UnknownSystemCall(999).short_description(),
        "Machine Error: 12"
    );
    assert_eq!(
        VMError::Unknown(String::new()).short_description(),
        "Machine Error: 255"
    );
    assert_eq!(
        VMError::FailedFreeNoAddressError(5).specific_description(),
        "Failed to free. No address 5."
    );
    assert_eq!(
        VMError::IndexBeyondBoundsError(12, 8).specific_description(),
        "Index: 12, is beyond the bounds of 8."
    );
    assert_eq!(
        VMError::UnknownSystemCall(1234567890).specific_description(),
        "Unknown system call 1234567890"
    );
    assert_eq!(
        VMError::Unknown("custom".to_owned()).specific_description(),
        "custom"
    );
    assert_eq!(
        vxlvm::error::LoaderError::InvalidMagic.specific_description(),
        "This file is not of the executable-voxeol format."
    );
}

#[test]
fn test_handler_side_heap_access() {
    let mut vm = VM::new(vec![]);
    let a = vm.allocate_block(4);
    let b = vm.allocate_block(4);
    assert_eq!(a, 0);
    assert_eq!(b, 1);
    assert!(vm.assign_block(a, vec![1, 2, 3, 4]));
    assert_eq!(vm.memory().retrieve(&a).unwrap(), &vec![1, 2, 3, 4]);
    assert!(vm.free_block(a));
    assert!(!vm.free_block(a));
    assert_eq!(vm.allocate_block(2), 0);
}
