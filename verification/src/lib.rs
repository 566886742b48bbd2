//! The bootstrap and diagnostic core of a freestanding kernel.
//!
//! The kernel has one way to be seen from outside: a byte-wide debug port that
//! an emulator relays to the host's terminal. This library decides which bytes
//! go to that port and in what order, and which state the kernel is in after
//! each step; the hardware write itself is left to the caller, who drains the
//! bytes of a [`console::ConsolePort`] and sends them on.

pub mod console;
pub mod fault;
pub mod float;
pub mod format;
pub mod kernel;
pub mod number;
pub mod text;
pub mod writer;
