//! A virtual machine for the Synacor Challenge architecture: a 16-bit
//! word-addressed machine with eight registers, an unbounded stack, a 15-bit
//! address space and byte-wide console I/O.
pub mod isa;
pub mod machine;
pub mod image;
pub mod console;
pub mod cpu;

pub use cpu::{Listing, Reply, CPU};
pub use console::{Command, DebugCommand};
pub use image::ImageError;
pub use isa::WordName;
pub use machine::{Event, Fault};
