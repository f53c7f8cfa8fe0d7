//! The logic of a minimal AArch64 kernel for the QEMU `virt` machine: a
//! bitmap allocator of physical frames, the identity map that the MMU is
//! enabled with, the decoding of exceptions, and the transmission of text
//! through the PL011 UART.

pub mod allocator;
pub mod bits;
pub mod exception;
pub mod layout;
pub mod mmu;
pub mod uart;
