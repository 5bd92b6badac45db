//! Core of a handheld-console emulator for a 32-bit ARM7TDMI-class platform.
//!
//! The crate models the CPU interpreter (both the 32-bit wide and the 16-bit
//! compact instruction encodings), the memory bus with its mapped regions and
//! I/O window, the interrupt controller, the DMA engine, the display timing
//! registers, and the high-level firmware services.  Every state change is
//! specified by a contract over the machine state.

pub mod alu;
pub mod arm;
pub mod bits;
pub mod cpu;
pub mod debug;
pub mod dma;
pub mod irq;
pub mod keypad;
pub mod lcd;
pub mod mem;
pub mod ops;
pub mod sched;
pub mod serial;
pub mod sound;
pub mod syscall;
pub mod thumb;
