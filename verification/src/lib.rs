//! Verified core of the RP2040 USB device driver.
//!
//! Every rule of the driver lives in this crate: which endpoints and which endpoint memory are
//! handed out, which words go into the controller's registers and in which order, which buffer of
//! a double-buffered endpoint is served next, and what is returned to the USB stack.
//!
//! The crate never touches the hardware. Its functions append the register accesses that are due
//! to an [`ops::OpList`], and an operation that has to look at a register or has to wait says so
//! with an [`ops::Request`]; whoever owns the peripheral carries these out and hands the values
//! back.
// Names that only contracts and proofs use are gone from compiled code.
#![allow(unused_imports)]

pub mod buffer;
pub mod bus;
pub mod control;
pub mod driver;
pub mod endpoint;
pub mod instance;
pub mod interrupt;
pub mod laws;
pub mod ops;
pub mod regs;
pub mod types;
