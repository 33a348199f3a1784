use vxlvm::instruction::encode_program;
use vxlvm::instruction::Instruction;
use vxlvm::instruction_arguments::Address;
use vxlvm::instruction_arguments::Immediate;
use vxlvm::instruction_arguments::Register;
use vxlvm::validator::BulkValidator;

#[test]
fn test_noop() {
    let bytes: [u8; 1] = [0b0000_0000];

    let mut validator = BulkValidator::with_bytes(bytes.to_vec());

    assert_eq!(validator.take_next_instruction(), Ok(Instruction::Nop));
}

#[test]
fn test_ldi() {
    // ldi 63, $r0
    let bytes: [u8; 10] = [
        0b0000_0011, // ldi
        0b0011_1111, // 63
        0b0000_0000,
        0b0000_0000,
        0b0000_0000,
        0b0000_0000,
        0b0000_0000,
        0b0000_0000,
        0b0000_0000,
        0b0110_0000, // r0
    ];

    let mut validator = BulkValidator::with_bytes(bytes.to_vec());

    assert_eq!(
        validator.take_next_instruction(),
        Ok(Instruction::Ldi(Immediate::new(63), Register::R0))
    );
}

#[test]
fn test_ldf() {
    // ldf 63.24, $r0
    let bytes: [u8; 10] = [
        0b0000_0011, // ldi
        0b0001_1111,
        0b1000_0101,
        0b1110_1011,
        0b0101_0001,
        0b1011_1000,
        0b1001_1110,
        0b0100_1111,
        0b0100_0000,
        0b0110_0000, // r0
    ];

    let mut validator = BulkValidator::with_bytes(bytes.to_vec());

    assert_eq!(
        validator.take_next_instruction(),
        Ok(Instruction::Ldi(Immediate::new(63.24f64.to_bits()), Register::R0))
    );
}

#[test]
fn test_ldb() {
    // ldb 63, $r0
    let bytes: [u8; 10] = [
        0b0000_0010, // ldi
        0b0011_1111, // 63
        0b0000_0000,
        0b0000_0000,
        0b0000_0000,
        0b0000_0000,
        0b0000_0000,
        0b0000_0000,
        0b0000_0000,
        0b0110_0000, // r0
    ];

    let mut validator = BulkValidator::with_bytes(bytes.to_vec());

    assert_eq!(
        validator.take_next_instruction(),
        Ok(Instruction::Ldb(Immediate::new(63), Register::R0))
    );
}

#[test]
fn test_mov() {
    // mov $r0, $rou (move rou -> r0)
    let bytes: [u8; 2] = [
        0b0000_0101, // mov
        0b0110_0010, // r0, rou
    ];

    let mut validator = BulkValidator::with_bytes(bytes.to_vec());

    assert_eq!(
        validator.take_next_instruction(),
        Ok(Instruction::Mov(Register::R0, Register::ROU))
    );
}

#[test]
fn test_movra() {
    // mov $r0, $rou (move rou -> r0)
    let bytes: [u8; 2] = [
        0b0000_0101, // mov
        0b0110_0010, // r0, rou
    ];

    let mut validator = BulkValidator::with_bytes(bytes.to_vec());

    assert_eq!(
        validator.take_next_instruction(),
        Ok(Instruction::Mov(Register::R0, Register::ROU))
    );
}

#[test]
fn test_addi() {
    // addi $r2, $r0, $r1 (r0 + r1 -> r2)
    let bytes: [u8; 3] = [
        0b0001_1010, // addi
        0b1000_0110, // r2, r0
        0b0111_0000, // r1
    ];

    let mut validator = BulkValidator::with_bytes(bytes.to_vec());

    assert_eq!(
        validator.take_next_instruction(),
        Ok(Instruction::Addi(Register::R2, Register::R0, Register::R1))
    );
}

#[test]
fn test_encode_decode_round_trip() {
    let program: Vec<Instruction> = vec![
        Instruction::Nop,
        Instruction::Ldi(Immediate::new(0x1234_5678_9ABC_DEF0), Register::R3),
        Instruction::Ldb(Immediate::new(0x0463), Register::R0),
        Instruction::Mov(Register::R1, Register::ROU),
        Instruction::Push(Register::R9),
        Instruction::Malloc(Register::R0, Register::R1),
        Instruction::Freea(Address::new(7)),
        Instruction::Seti(Register::R0, Register::R1, Register::R2),
        Instruction::Copyi(
            Immediate::new(1),
            Immediate::new(2),
            Immediate::new(3),
            Register::R4,
            Register::R5,
        ),
        Instruction::Copy(
            Register::R0,
            Register::R1,
            Register::R2,
            Register::R3,
            Register::R4,
        ),
        Instruction::Addf(Register::R0, Register::R1, Register::R2),
        Instruction::Cmpi(Register::RFL, Register::RSP),
        Instruction::Jle(Address::new(99)),
        Instruction::Swpa(Address::new(1), Address::new(0)),
        Instruction::Call(Address::new(3)),
        Instruction::Ret,
        Instruction::Halt,
    ];

    let bytes = encode_program(&program);
    let validator = BulkValidator::with_bytes(bytes);
    let decoded = validator.process_all_instructions().unwrap();

    assert_eq!(decoded, program);
}

#[test]
fn test_encode_one_round_trip() {
    let instruction = Instruction::Isetb(Immediate::new(5), Register::R7, Register::R8);
    let bytes = instruction.encode();

    let mut validator = BulkValidator::with_bytes(bytes);
    assert_eq!(validator.take_next_instruction(), Ok(instruction));
    assert!(!validator.has_next_byte());
}

#[test]
fn test_unknown_opcode_is_rejected() {
    let mut validator = BulkValidator::with_bytes(vec![0x46]);
    assert_eq!(
        validator.take_next_instruction(),
        Err(vxlvm::error::ValidatorError::UnknownRegisterCountForOpcode)
    );
}

#[test]
fn test_truncated_instruction_is_rejected() {
    // ldi with only three of its eight immediate bytes
    let mut validator = BulkValidator::with_bytes(vec![0x03, 0x01, 0x02, 0x03]);
    assert_eq!(
        validator.take_next_instruction(),
        Err(vxlvm::error::ValidatorError::UnexpectedEndOfBytes)
    );
}
