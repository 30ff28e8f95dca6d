//! A CHIP-8 virtual machine: the instruction interpreter and its display
//! surface, with every state transition stated over a mathematical model
//! of the machine and proved against it.

pub mod chip8;
