//! Stand-ins for the system functions that the loaded image imports: one set
//! for the emulator, one for native execution.

pub mod emulator;
pub mod native;
pub mod syscall;
