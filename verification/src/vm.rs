//! The virtual machine: register bank, stack, heap and the execute engine.

pub mod machine;
pub mod memory;
pub mod registers;
pub mod stack;

pub use machine::OverflowBehaviour;
pub use machine::SyscallHandler;
pub use machine::VM;
pub use memory::Memory;
pub use registers::Registers;
pub use stack::Stack;
