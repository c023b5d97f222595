//! Automatic peripheral-value inference for rehosted firmware.
//!
//! Firmware running under an instruction-level emulator often polls a
//! memory-mapped peripheral register in a tight loop, waiting for a status
//! bit that no real device will ever set.  This library watches the stream
//! of micro-operations the host emulator executes, detects such polling
//! loops, and decides when a constraint solver should be asked for a
//! register value that lets the loop exit.  The host emulator and the
//! solver themselves stay outside: the library is a state machine over
//! plain values (addresses, sizes, counters) whose every transition is
//! specified and verified.

pub mod bytes;
pub mod dummy_peripheral;
pub mod errors;
pub mod laws;
pub mod result_cache;
pub mod trace;
pub mod watchpoint;
