//! Address-space and device-bus layer of a retro-computer emulator.
//!
//! The crate models a byte-addressable virtual bus built from memory-mapped
//! peripherals (RAM, ROM, a dual-pipe serial UART, a stub keyboard, and
//! nested buses), a bank-switching translation unit for 24-bit addressing,
//! DMA-style bulk transfers, and the dispatcher that turns coprocessor traps
//! from the CPU core into bank-map or DMA operations.

pub mod bank;
pub mod cop;
pub mod devices;
pub mod dma;
pub mod errors;
pub mod lebytes;
pub mod memory;
pub mod mmu;
pub mod noise;
pub mod physical;
pub mod serial;
