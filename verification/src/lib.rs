//! Core logic of a differential-drive robot base that talks to its motor
//! controller over a serial line.
//!
//! The crate covers the parts of the driver that have exact, machine-checkable
//! behaviour: the ASCII command protocol (encoding commands, decoding replies),
//! the decimal numeral reading and writing that the protocol rests on, the
//! validation of encoder replies performed by the hardware abstraction layer,
//! and the tick bookkeeping of the per-wheel estimators.
//!
//! The surrounding program owns the serial transport and the floating-point
//! conversions (radians, velocities, odometry); it hands this crate plain
//! strings and integers and gets plain values back.

pub mod comm;
pub mod decimal;
pub mod hal;
pub mod sensors;
pub mod text;
