//! A verified core for an 8-bit virtual machine with a 64x32 monochrome
//! display, sixteen 8-bit registers, a bounded call stack, two countdown
//! timers and a sixteen-key input pad.
//!
//! The whole machine state is modelled by the ghost type
//! [`state::MachineState`]; one fetch-decode-execute step is specified by
//! [`isa::spec_tick`], and the executable [`machine::Machine`] is proved to
//! follow that specification exactly.

mod draw;
pub mod isa;
pub mod laws;
pub mod machine;
pub mod state;

pub use machine::Machine;
pub use state::MachineError;
pub use state::MachineState;
