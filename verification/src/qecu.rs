//! The interception engine and the planning side of the emulation handle.

pub mod arch;
pub mod capability;
pub mod emulator;
pub mod interceptor;
