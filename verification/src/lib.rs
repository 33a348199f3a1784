//! A register-based bytecode virtual machine for the VXL executable format.
//!
//! The crate is organised as a pipeline: the loader parses and checks the
//! container header, the validator decodes the payload bytes into typed
//! instructions, and the machine executes the decoded instruction list
//! against a register bank, a fixed-size stack and an addressable heap.
//! Every stage carries a specification: the loader and the decoder are
//! proved to follow the container grammar, and the machine is proved to
//! follow the step semantics of the instruction set; `laws` states and
//! proves the properties that relate several instructions.

pub mod error;
pub mod float_bits;
pub mod hashes;
pub mod instruction;
pub mod instruction_arguments;
pub mod laws;
pub mod loader;
pub mod validator;
pub mod vm;

pub use error::LoaderError;
pub use error::VMError;
pub use error::VXLVMError;
pub use error::ValidatorError;
