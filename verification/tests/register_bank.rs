use vxlvm::instruction_arguments::Register;
use vxlvm::vm::Registers;

#[test]
fn test_wrapping_add() {
    let mut registers = Registers::new(true);

    registers.set_value(Register::R0 as u8, u64::MAX - 10);

    assert_eq!(registers.get_value(Register::R0 as u8), u64::MAX - 10);

    registers.add_value(Register::R0 as u8, 11);

    assert_eq!(registers.get_value(Register::R0 as u8), 0);
}

#[test]
fn test_clamped_add() {
    let mut registers = Registers::new(false);

    registers.set_value(Register::R0 as u8, u64::MAX - 10);

    assert_eq!(registers.get_value(Register::R0 as u8), u64::MAX - 10);

    registers.add_value(Register::R0 as u8, 11);

    assert_eq!(registers.get_value(Register::R0 as u8), u64::MAX);
}

#[test]
fn test_wrapping_sub() {
    let mut registers = Registers::new(true);

    registers.set_value(Register::R0 as u8, 10);
    assert_eq!(registers.get_value(Register::R0 as u8), 10);

    registers.sub_value(Register::R0 as u8, 11);
    assert_eq!(registers.get_value(Register::R0 as u8), u64::MAX);
}

#[test]
fn test_clamped_sub() {
    let mut registers = Registers::new(false);

    registers.set_value(Register::R0 as u8, 10);
    assert_eq!(registers.get_value(Register::R0 as u8), 10);

    registers.sub_value(Register::R0 as u8, 11);
    assert_eq!(registers.get_value(Register::R0 as u8), 0);
}
