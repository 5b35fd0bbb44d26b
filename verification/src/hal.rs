//! The decision logic of the hardware abstraction layer.
//!
//! The layer around this crate owns the serial connection and the two wheel
//! estimators; polling sends `ReadEncoderValues` and feeds the decoded counts
//! into the estimators. What is checked here is the part with exact
//! behaviour: the configuration record, the error taxonomy, and the
//! validation that a poll reply really carries encoder values.

use vstd::prelude::*;
use vstd::string::StringExecFns;

use crate::comm::HwSerialConnectionError;
use crate::comm::SerialResponse;

verus! {

/// Error type for hardware abstraction layer operations.
#[derive(Debug)]
pub enum HalError {
    /// Error communicating with the hardware.
    HardwareCommunicationError(HwSerialConnectionError),
}

impl From<HwSerialConnectionError> for HalError {
    fn from(source: HwSerialConnectionError) -> (r: HalError) {
        HalError::HardwareCommunicationError(source)
    }
}

impl vstd::std_specs::convert::FromSpecImpl<HwSerialConnectionError> for HalError {
    open spec fn obeys_from_spec() -> bool {
        true
    }

    open spec fn from_spec(v: HwSerialConnectionError) -> HalError {
        HalError::HardwareCommunicationError(v)
    }
}

/// Configuration for the hardware abstraction layer.
#[derive(Debug)]
pub struct HalConfig {
    /// The serial device to connect to (e.g., "/dev/ttyUSB0").
    pub serial_device: String,
    /// The baud rate for the serial connection.
    pub baud_rate: u32,
    /// The timeout for the serial connection in milliseconds.
    pub timeout: u64,
    /// The number of encoder ticks per revolution of the motor.
    pub motor_ticks_per_revolution: u64,
}

/// The message reported when a poll gets a reply that is not encoder values.
pub open spec fn invalid_encoder_reply_msg() -> Seq<char> {
    "Invalid response to a ReadEncoderValues from hardware"@
}

/// Extracts the two encoder counts from the reply to `ReadEncoderValues`,
/// or reports the protocol violation when the device answered with anything
/// else.
pub fn encoder_values_from_response(response: SerialResponse) -> (r: Result<(i64, i64), HalError>)
    ensures
        response matches SerialResponse::EncoderValues { left, right } ==> (r matches Ok(p) && p.0
            == left && p.1 == right),
        response is Other ==> (r matches Err(e) && e matches
            HalError::HardwareCommunicationError(w) && w matches
            HwSerialConnectionError::WrongResponseError { error } && error@
            == invalid_encoder_reply_msg()),
{
    match response {
        SerialResponse::EncoderValues { left, right } => Ok((left, right)),
        SerialResponse::Other { message: _ } => Err(
            HalError::HardwareCommunicationError(
                HwSerialConnectionError::WrongResponseError {
                    error: String::from_str("Invalid response to a ReadEncoderValues from hardware"),
                },
            ),
        ),
    }
}

} // verus!
