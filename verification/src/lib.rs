//! A CHIP-8 virtual machine: instruction decoder, execution engine, call
//! stack and monochrome display, with every function verified against a
//! mathematical model of the machine.

pub mod display;

pub use display::Display;
pub use display::DISPLAY_HEIGHT;
pub use display::DISPLAY_WIDTH;

pub mod instruction;

pub use instruction::Instruction;
pub use instruction::InstructionDecodeError;

pub mod stack;

pub use stack::Stack;

pub mod keyboard;

pub use keyboard::Keyboard;

pub mod font;

pub use font::FONT_DATA;

pub mod machine;

pub use machine::MachineState;

pub mod vm;

pub use vm::VMError;
pub use vm::MEMORY_SIZE;
pub use vm::VM;
pub use vm::VREG_COUNT;
