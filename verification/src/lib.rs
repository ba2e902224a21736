//! The console of a freestanding program: a text-mode display writer, a
//! serial diagnostic channel, the exit signal of the hosting machine, and a
//! harness that runs test procedures and reports over the channel.

pub mod harness;
pub mod port_io;
pub mod vga_buffer;
