//! The error taxonomy shared by the loader, the validator and the machine.
//!
//! Every failure of the pipeline is one of three disjoint kinds. Each kind
//! carries a small numeric code for short-form diagnostics.

use vstd::prelude::*;

verus! {

/// Failures while parsing and checking the container header.
#[derive(Clone, Copy, PartialEq, Eq, Debug, Hash)]
pub enum LoaderError {
    NotEnoughBytesForHeader,
    UnsupportedVersion,
    InvalidChecksum,
    NonMatchingFileSize,
    InvalidMagic,
    InvalidEndHeaderMarker,
}

/// Failures while decoding the payload bytes into instructions.
#[derive(Clone, Copy, PartialEq, Eq, Debug, Hash)]
pub enum ValidatorError {
    UnexpectedEndOfBytes,
    UnknownRegisterCountForOpcode,
    UnknownImmediateCountForOpcode,
    UnknownAddressCountForOpcode,
    InvalidInstructionFormat,
}

/// Failures raised by the execution engine.
#[derive(Debug, Clone, PartialEq, Hash)]
pub enum VMError {
    SystemHalted,
    NoInstruction,
    AccessBeyondStackBounds,
    FailedMalloc,
    FailedFreeNoAddressError(u64),
    FailedSetNoAddressError(u64),
    FailedGetNoAddressError(u64),
    IndexBeyondBoundsError(u64, u64),
    IntegerOverflowError,
    UnsignedIntegerOverflowError,
    FloatOverflowError,
    AttemptedModuloZeroOperation,
    UnknownSystemCall(u64),
    Unknown(String),
}

impl LoaderError {
    /// The numeric code of this loader error.
    pub fn as_u8(&self) -> (r: u8)
        ensures
            r == self.code(),
    {
        match self {
            LoaderError::NotEnoughBytesForHeader => 0,
            LoaderError::UnsupportedVersion => 1,
            LoaderError::InvalidChecksum => 2,
            LoaderError::NonMatchingFileSize => 3,
            LoaderError::InvalidMagic => 4,
            LoaderError::InvalidEndHeaderMarker => 5,
        }
    }

    pub open spec fn code(self) -> u8 {
        match self {
            LoaderError::NotEnoughBytesForHeader => 0,
            LoaderError::UnsupportedVersion => 1,
            LoaderError::InvalidChecksum => 2,
            LoaderError::NonMatchingFileSize => 3,
            LoaderError::InvalidMagic => 4,
            LoaderError::InvalidEndHeaderMarker => 5,
        }
    }
}

impl ValidatorError {
    /// The numeric code of this validator error.
    pub fn as_u8(&self) -> (r: u8)
        ensures
            r == self.code(),
    {
        match self {
            ValidatorError::UnexpectedEndOfBytes => 0,
            ValidatorError::UnknownRegisterCountForOpcode => 1,
            ValidatorError::UnknownImmediateCountForOpcode => 2,
            ValidatorError::UnknownAddressCountForOpcode => 3,
            ValidatorError::InvalidInstructionFormat => 4,
        }
    }

    pub open spec fn code(self) -> u8 {
        match self {
            ValidatorError::UnexpectedEndOfBytes => 0,
            ValidatorError::UnknownRegisterCountForOpcode => 1,
            ValidatorError::UnknownImmediateCountForOpcode => 2,
            ValidatorError::UnknownAddressCountForOpcode => 3,
            ValidatorError::InvalidInstructionFormat => 4,
        }
    }
}

impl VMError {
    /// The numeric code of this machine error.
    pub fn as_u8(&self) -> (r: u8)
        ensures
            r == self.code(),
    {
        match self {
            VMError::SystemHalted => 0,
            VMError::NoInstruction => 1,
            VMError::AccessBeyondStackBounds => 2,
            VMError::FailedMalloc => 3,
            VMError::FailedFreeNoAddressError(_) => 4,
            VMError::FailedSetNoAddressError(_) => 5,
            VMError::FailedGetNoAddressError(_) => 6,
            VMError::IndexBeyondBoundsError(_, _) => 7,
            VMError::IntegerOverflowError => 8,
            VMError::UnsignedIntegerOverflowError => 9,
            VMError::FloatOverflowError => 10,
            VMError::AttemptedModuloZeroOperation => 11,
            VMError::UnknownSystemCall(_) => 12,
            VMError::Unknown(_) => 255,
        }
    }

    pub open spec fn code(self) -> u8 {
        match self {
            VMError::SystemHalted => 0,
            VMError::NoInstruction => 1,
            VMError::AccessBeyondStackBounds => 2,
            VMError::FailedMalloc => 3,
            VMError::FailedFreeNoAddressError(_) => 4,
            VMError::FailedSetNoAddressError(_) => 5,
            VMError::FailedGetNoAddressError(_) => 6,
            VMError::IndexBeyondBoundsError(_, _) => 7,
            VMError::IntegerOverflowError => 8,
            VMError::UnsignedIntegerOverflowError => 9,
            VMError::FloatOverflowError => 10,
            VMError::AttemptedModuloZeroOperation => 11,
            VMError::UnknownSystemCall(_) => 12,
            VMError::Unknown(_) => 255,
        }
    }
}

/// Relies on String::push: appends exactly the given character to the
/// string.
pub assume_specification[ String::push ](s: &mut String, ch: char)
    ensures
        final(s)@ == old(s)@.push(ch),
;

/// Relies on String::push_str: appends exactly the given string slice to
/// the string.
pub assume_specification[ String::push_str ](s: &mut String, other: &str)
    ensures
        final(s)@ == old(s)@ + other@,
;

/// The decimal digit character for `d`, which must lie below ten.
pub open spec fn spec_digit(d: u64) -> char {
    if d == 0 {
        '0'
    } else if d == 1 {
        '1'
    } else if d == 2 {
        '2'
    } else if d == 3 {
        '3'
    } else if d == 4 {
        '4'
    } else if d == 5 {
        '5'
    } else if d == 6 {
        '6'
    } else if d == 7 {
        '7'
    } else if d == 8 {
        '8'
    } else {
        '9'
    }
}

/// The decimal rendering of `v`, most significant digit first, without
/// leading zeros (a single zero digit for zero itself).
pub open spec fn spec_decimal(v: u64) -> Seq<char>
    decreases v,
{
    if v < 10 {
        seq![spec_digit(v as u64)]
    } else {
        spec_decimal((v / 10) as u64).push(spec_digit((v % 10) as u64))
    }
}

/// Appends the decimal rendering of `v` to `out`.
fn push_decimal(out: &mut String, v: u64)
    ensures
        final(out)@ == old(out)@ + spec_decimal(v),
    decreases v,
{
    if v >= 10 {
        push_decimal(out, v / 10);
    }
    let d = v % 10;
    let c: char = if d == 0 {
        '0'
    } else if d == 1 {
        '1'
    } else if d == 2 {
        '2'
    } else if d == 3 {
        '3'
    } else if d == 4 {
        '4'
    } else if d == 5 {
        '5'
    } else if d == 6 {
        '6'
    } else if d == 7 {
        '7'
    } else if d == 8 {
        '8'
    } else {
        '9'
    };
    out.push(c);
    proof {
        assert(out@ =~= old(out)@ + spec_decimal(v));
    }
}

/// The two renderings every error of the pipeline offers: a descriptive
/// sentence and a short kind-plus-code form.
pub trait VXLVMError {
    /// The sentence the descriptive rendering must produce.
    spec fn spec_specific_description(&self) -> Seq<char>;

    /// The kind-plus-code line the short rendering must produce.
    spec fn spec_short_description(&self) -> Seq<char>;

    /// A sentence describing the failure, the carried values included.
    fn specific_description(&self) -> (r: String)
        ensures
            r@ == self.spec_specific_description(),
    ;

    /// The error kind and its numeric code.
    fn short_description(&self) -> (r: String)
        ensures
            r@ == self.spec_short_description(),
    ;
}

impl VXLVMError for LoaderError {
    open spec fn spec_specific_description(&self) -> Seq<char> {
        match self {
            LoaderError::NotEnoughBytesForHeader => "The supplied input does not contain enough bytes for the header."@,
            LoaderError::UnsupportedVersion => "This file contains code for an unsupported voxeol version."@,
            LoaderError::InvalidChecksum => "This file's checksum is invalid."@,
            LoaderError::NonMatchingFileSize => "The expected file size does not match the actual size."@,
            LoaderError::InvalidMagic => "This file is not of the executable-voxeol format."@,
            LoaderError::InvalidEndHeaderMarker => "Could not find the end-header marker."@,
        }
    }

    open spec fn spec_short_description(&self) -> Seq<char> {
        "Loader Error: "@ + spec_decimal(self.code() as u64)
    }

    fn specific_description(&self) -> (r: String) {
        match self {
            LoaderError::NotEnoughBytesForHeader => "The supplied input does not contain enough bytes for the header.".to_owned(),
            LoaderError::UnsupportedVersion => "This file contains code for an unsupported voxeol version.".to_owned(),
            LoaderError::InvalidChecksum => "This file's checksum is invalid.".to_owned(),
            LoaderError::NonMatchingFileSize => "The expected file size does not match the actual size.".to_owned(),
            LoaderError::InvalidMagic => "This file is not of the executable-voxeol format.".to_owned(),
            LoaderError::InvalidEndHeaderMarker => "Could not find the end-header marker.".to_owned(),
        }
    }

    fn short_description(&self) -> (r: String) {
        let mut r = "Loader Error: ".to_owned();
        push_decimal(&mut r, self.as_u8() as u64);
        r
    }
}

impl VXLVMError for ValidatorError {
    open spec fn spec_specific_description(&self) -> Seq<char> {
        match self {
            ValidatorError::UnexpectedEndOfBytes => "Unexpectedly ran out of bytes to validate."@,
            ValidatorError::UnknownRegisterCountForOpcode => "Unknown register count for opcode."@,
            ValidatorError::UnknownImmediateCountForOpcode => "Unknown immediate count for opcode."@,
            ValidatorError::UnknownAddressCountForOpcode => "Unknown address count for opcode."@,
            ValidatorError::InvalidInstructionFormat => "Invalid instruction format"@,
        }
    }

    open spec fn spec_short_description(&self) -> Seq<char> {
        "Validator Error: "@ + spec_decimal(self.code() as u64)
    }

    fn specific_description(&self) -> (r: String) {
        match self {
            ValidatorError::UnexpectedEndOfBytes => "Unexpectedly ran out of bytes to validate.".to_owned(),
            ValidatorError::UnknownRegisterCountForOpcode => "Unknown register count for opcode.".to_owned(),
            ValidatorError::UnknownImmediateCountForOpcode => "Unknown immediate count for opcode.".to_owned(),
            ValidatorError::UnknownAddressCountForOpcode => "Unknown address count for opcode.".to_owned(),
            ValidatorError::InvalidInstructionFormat => "Invalid instruction format".to_owned(),
        }
    }

    fn short_description(&self) -> (r: String) {
        let mut r = "Validator Error: ".to_owned();
        push_decimal(&mut r, self.as_u8() as u64);
        r
    }
}

impl VXLVMError for VMError {
    open spec fn spec_specific_description(&self) -> Seq<char> {
        match self {
            VMError::SystemHalted => "System is halted."@,
            VMError::NoInstruction => "No instruction to execute."@,
            VMError::AccessBeyondStackBounds => "Attempt to access beyond stack bounds"@,
            VMError::FailedMalloc => "Failed to allocate memory"@,
            VMError::FailedFreeNoAddressError(a) => "Failed to free. No address "@ + spec_decimal(
                *a,
            ) + "."@,
            VMError::FailedSetNoAddressError(a) => "Failed to set memory. No address "@
                + spec_decimal(*a) + "."@,
            VMError::FailedGetNoAddressError(a) => "Failed to get from memory. No address "@
                + spec_decimal(*a) + "."@,
            VMError::IndexBeyondBoundsError(i, b) => "Index: "@ + spec_decimal(*i)
                + ", is beyond the bounds of "@ + spec_decimal(*b) + "."@,
            VMError::IntegerOverflowError => "Integer overflow."@,
            VMError::UnsignedIntegerOverflowError => "Unsigned integer overflow"@,
            VMError::FloatOverflowError => "Float overflow."@,
            VMError::AttemptedModuloZeroOperation => "Attempted a divide by 0 operation"@,
            VMError::UnknownSystemCall(c) => "Unknown system call "@ + spec_decimal(*c),
            VMError::Unknown(s) => s@,
        }
    }

    open spec fn spec_short_description(&self) -> Seq<char> {
        "Machine Error: "@ + spec_decimal(self.code() as u64)
    }

    fn specific_description(&self) -> (r: String) {
        match self {
            VMError::SystemHalted => "System is halted.".to_owned(),
            VMError::NoInstruction => "No instruction to execute.".to_owned(),
            VMError::AccessBeyondStackBounds => "Attempt to access beyond stack bounds".to_owned(),
            VMError::FailedMalloc => "Failed to allocate memory".to_owned(),
            VMError::FailedFreeNoAddressError(a) => {
                let mut r = "Failed to free. No address ".to_owned();
                push_decimal(&mut r, *a);
                r.push_str(".");
                r
            },
            VMError::FailedSetNoAddressError(a) => {
                let mut r = "Failed to set memory. No address ".to_owned();
                push_decimal(&mut r, *a);
                r.push_str(".");
                r
            },
            VMError::FailedGetNoAddressError(a) => {
                let mut r = "Failed to get from memory. No address ".to_owned();
                push_decimal(&mut r, *a);
                r.push_str(".");
                r
            },
            VMError::IndexBeyondBoundsError(i, b) => {
                let mut r = "Index: ".to_owned();
                push_decimal(&mut r, *i);
                r.push_str(", is beyond the bounds of ");
                push_decimal(&mut r, *b);
                r.push_str(".");
                r
            },
            VMError::IntegerOverflowError => "Integer overflow.".to_owned(),
            VMError::UnsignedIntegerOverflowError => "Unsigned integer overflow".to_owned(),
            VMError::FloatOverflowError => "Float overflow.".to_owned(),
            VMError::AttemptedModuloZeroOperation => "Attempted a divide by 0 operation".to_owned(),
            VMError::UnknownSystemCall(c) => {
                let mut r = "Unknown system call ".to_owned();
                push_decimal(&mut r, *c);
                r
            },
            VMError::Unknown(s) => s.clone(),
        }
    }

    fn short_description(&self) -> (r: String) {
        let mut r = "Machine Error: ".to_owned();
        push_decimal(&mut r, self.as_u8() as u64);
        r
    }
}

} // verus!
