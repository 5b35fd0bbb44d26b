//! The ASCII command protocol spoken to the motor controller.
//!
//! Commands are encoded as single `\r`-terminated lines; replies are decoded
//! according to the command that was sent, since the wire format of a reply is
//! not self-describing. The transport itself (opening the serial device,
//! writing and reading bytes) lives outside this crate; these functions work
//! on the text alone.

use vstd::prelude::*;
use vstd::string::StrSliceExecFns;
use vstd::string::StringExecFns;

use crate::decimal::dec_numeral;
use crate::decimal::format_i64;
use crate::decimal::int_parse_error_msg;
use crate::decimal::is_i64_numeral;
use crate::decimal::numeral_value;
use crate::decimal::parse_error_kind;
use crate::decimal::parse_i64;
use crate::decimal::IntParseError;
use crate::text::split_whitespace_tokens;
use crate::text::tokens_of;
use crate::text::trim_str;
use crate::text::trimmed;

verus! {

/// The commands that can be sent to the motor controller.
///
/// PID gains travel on the wire as decimal text, so they are carried here as
/// the text to send; rendering a numeric gain into that text is the caller's
/// (floating-point) concern.
#[derive(Debug)]
pub enum SerialCommands {
    /// Ask for the two cumulative encoder counts.
    ReadEncoderValues,
    /// Set the target wheel speeds, in encoder ticks per second.
    SetMotorValues { left: i64, right: i64 },
    /// Set the PID gains of the motor controller.
    SetPIDValues { kp: String, ki: String, kd: String, ko: String },
}

/// A decoded reply from the motor controller.
#[derive(Debug)]
pub enum SerialResponse {
    /// The two cumulative encoder counts.
    EncoderValues { left: i64, right: i64 },
    /// Any other reply, passed through after trimming.
    Other { message: String },
}

/// Error type for the serial connection.
#[derive(Debug)]
pub enum HwSerialConnectionError {
    /// The transport failed to open, write or read.
    SerialPortConnectionError { error: String },
    /// The reply did not have the shape the command calls for.
    WrongResponseError { error: String },
}

impl PartialEq for HwSerialConnectionError {
    fn eq(&self, other: &Self) -> (r: bool) {
        match (self, other) {
            (
                HwSerialConnectionError::SerialPortConnectionError { error: a },
                HwSerialConnectionError::SerialPortConnectionError { error: b },
            ) => *a == *b,
            (
                HwSerialConnectionError::WrongResponseError { error: a },
                HwSerialConnectionError::WrongResponseError { error: b },
            ) => *a == *b,
            _ => false,
        }
    }
}

impl vstd::std_specs::cmp::PartialEqSpecImpl for HwSerialConnectionError {
    open spec fn obeys_eq_spec() -> bool {
        true
    }

    open spec fn eq_spec(&self, other: &Self) -> bool {
        match (self, other) {
            (
                HwSerialConnectionError::SerialPortConnectionError { error: a },
                HwSerialConnectionError::SerialPortConnectionError { error: b },
            ) => a@ == b@,
            (
                HwSerialConnectionError::WrongResponseError { error: a },
                HwSerialConnectionError::WrongResponseError { error: b },
            ) => a@ == b@,
            _ => false,
        }
    }
}

/// The exact line a command puts on the wire, trailing carriage return
/// included.
pub open spec fn encoded_command(command: &SerialCommands) -> Seq<char> {
    match command {
        SerialCommands::ReadEncoderValues => seq!['e', '\r'],
        SerialCommands::SetMotorValues { left, right } => seq!['m', ' '] + dec_numeral(
            *left as int,
        ) + seq![' '] + dec_numeral(*right as int) + seq!['\r'],
        SerialCommands::SetPIDValues { kp, ki, kd, ko } => seq!['u', ' '] + kp@ + seq![':'] + ki@
            + seq![':'] + kd@ + seq![':'] + ko@ + seq!['\r'],
    }
}

/// Encodes a command as the line to send over the serial connection.
pub fn prepare_command_to_send(command: &SerialCommands) -> (s: String)
    ensures
        s@ == encoded_command(command),
{
    match command {
        SerialCommands::ReadEncoderValues => {
            let s = String::from_str("e\r");
            proof {
                reveal_strlit("e\r");
                assert(s@ =~= encoded_command(command));
            }
            s
        },
        SerialCommands::SetMotorValues { left, right } => {
            let s = String::from_str("m ").concat(format_i64(*left).as_str()).concat(" ").concat(
                format_i64(*right).as_str(),
            ).concat("\r");
            proof {
                reveal_strlit("m ");
                reveal_strlit(" ");
                reveal_strlit("\r");
                assert(s@ =~= encoded_command(command));
            }
            s
        },
        SerialCommands::SetPIDValues { kp, ki, kd, ko } => {
            let s = String::from_str("u ").concat(kp.as_str()).concat(":").concat(
                ki.as_str(),
            ).concat(":").concat(kd.as_str()).concat(":").concat(ko.as_str()).concat("\r");
            proof {
                reveal_strlit("u ");
                reveal_strlit(":");
                reveal_strlit("\r");
                assert(s@ =~= encoded_command(command));
            }
            s
        },
    }
}

/// The message reported when a reply is empty.
pub open spec fn empty_response_msg() -> Seq<char> {
    "Empty response from serial port"@
}

/// The prefix of the message reported when an encoder reply does not hold
/// exactly two tokens.
pub open spec fn invalid_format_prefix() -> Seq<char> {
    "Invalid response format for encoder values: "@
}

/// Whether a reply line is a well-formed encoder reply: exactly two
/// whitespace-separated tokens, each a decimal numeral in `i64` range.
pub open spec fn encoder_reply_ok(resp: Seq<char>) -> bool {
    &&& tokens_of(resp).len() == 2
    &&& is_i64_numeral(tokens_of(resp)[0])
    &&& is_i64_numeral(tokens_of(resp)[1])
}

/// The message reported for a nonempty reply that is not a well-formed
/// encoder reply: the raw line when the token count is off, or std's integer
/// parse message for the first token that fails.
pub open spec fn encoder_reply_error_msg(resp: Seq<char>) -> Seq<char>
    recommends
        resp.len() > 0 && !encoder_reply_ok(resp),
{
    if tokens_of(resp).len() != 2 {
        invalid_format_prefix() + resp
    } else if !is_i64_numeral(tokens_of(resp)[0]) {
        int_parse_error_msg(parse_error_kind(tokens_of(resp)[0]))
    } else {
        int_parse_error_msg(parse_error_kind(tokens_of(resp)[1]))
    }
}

/// No character of a decimal numeral is whitespace.
proof fn lemma_numeral_has_no_space(v: int)
    ensures
        forall|i: int| 0 <= i < dec_numeral(v).len() ==> !crate::text::is_space(
            #[trigger] dec_numeral(v)[i],
        ),
{
    crate::decimal::lemma_numeral_round_trip(v);
    let s = dec_numeral(v);
    let body = crate::decimal::numeral_body(s);
    assert forall|i: int| 0 <= i < s.len() implies !crate::text::is_space(#[trigger] s[i]) by {
        if v < 0 {
            assert(s[0] == '-');
            if i > 0 {
                assert(body[i - 1] == s[i]);
                assert(crate::decimal::is_digit(s[i]));
            }
        } else {
            assert(body[i] == s[i]);
            assert(crate::decimal::is_digit(s[i]));
        }
    }
}

/// A reply line that spells two integers the way the device writes them --
/// their decimal numerals joined by a space -- is a well-formed encoder
/// reply, and it decodes to exactly those two counts. The wire format and
/// the parser agree, for every pair of counts.
pub proof fn lemma_encoder_reply_decodes(left: i64, right: i64)
    ensures
        encoder_reply_ok(dec_numeral(left as int) + seq![' '] + dec_numeral(right as int)),
        numeral_value(
            tokens_of(dec_numeral(left as int) + seq![' '] + dec_numeral(right as int))[0],
        ) == left,
        numeral_value(
            tokens_of(dec_numeral(left as int) + seq![' '] + dec_numeral(right as int))[1],
        ) == right,
{
    let a = dec_numeral(left as int);
    let b = dec_numeral(right as int);
    crate::decimal::lemma_numeral_round_trip(left as int);
    crate::decimal::lemma_numeral_round_trip(right as int);
    lemma_numeral_has_no_space(left as int);
    lemma_numeral_has_no_space(right as int);
    crate::text::lemma_tokens_of_two(a, b);
}

/// The message std's integer parsing reports for the given failure.
fn int_error_message(e: IntParseError) -> (m: String)
    ensures
        m@ == int_parse_error_msg(e),
{
    match e {
        IntParseError::Empty => String::from_str("cannot parse integer from empty string"),
        IntParseError::InvalidDigit => String::from_str("invalid digit found in string"),
        IntParseError::TooLarge => String::from_str("number too large to fit in target type"),
        IntParseError::TooSmall => String::from_str("number too small to fit in target type"),
    }
}

/// Decodes a reply in the light of the command that was sent.
///
/// An empty reply always fails. A reply to `ReadEncoderValues` must be
/// exactly two whitespace-separated decimal numerals in `i64` range; any
/// other command's reply is passed through, trimmed, without validation.
pub fn parse_response(command: &SerialCommands, response: String) -> (r: Result<
    SerialResponse,
    HwSerialConnectionError,
>)
    ensures
        response@.len() == 0 ==> (r matches Err(e) && e matches
            HwSerialConnectionError::WrongResponseError { error } && error@
            == empty_response_msg()),
        response@.len() > 0 && !(command is ReadEncoderValues) ==> (r matches Ok(resp)
            && resp matches SerialResponse::Other { message } && message@ == trimmed(response@)),
        response@.len() > 0 && command is ReadEncoderValues && encoder_reply_ok(response@) ==> (
        r matches Ok(resp) && resp matches SerialResponse::EncoderValues { left, right } && left
            == numeral_value(tokens_of(response@)[0]) && right == numeral_value(
            tokens_of(response@)[1],
        )),
        response@.len() > 0 && command is ReadEncoderValues && !encoder_reply_ok(response@) ==> (
        r matches Err(e) && e matches HwSerialConnectionError::WrongResponseError { error }
            && error@ == encoder_reply_error_msg(response@)),
{
    if response.as_str().is_empty() {
        return Err(
            HwSerialConnectionError::WrongResponseError {
                error: String::from_str("Empty response from serial port"),
            },
        );
    }
    match command {
        SerialCommands::ReadEncoderValues => {
            let tokens = split_whitespace_tokens(response.as_str());
            if tokens.len() != 2 {
                let msg = String::from_str("Invalid response format for encoder values: ").concat(
                    response.as_str(),
                );
                return Err(HwSerialConnectionError::WrongResponseError { error: msg });
            }
            proof {
                assert(tokens@[0]@ == tokens_of(response@)[0]);
                assert(tokens@[1]@ == tokens_of(response@)[1]);
            }
            let left = match parse_i64(tokens[0]) {
                Ok(v) => v,
                Err(e) => {
                    return Err(
                        HwSerialConnectionError::WrongResponseError {
                            error: int_error_message(e),
                        },
                    );
                },
            };
            let right = match parse_i64(tokens[1]) {
                Ok(v) => v,
                Err(e) => {
                    return Err(
                        HwSerialConnectionError::WrongResponseError {
                            error: int_error_message(e),
                        },
                    );
                },
            };
            Ok(SerialResponse::EncoderValues { left, right })
        },
        _ => {
            let message = trim_str(response.as_str()).to_owned();
            Ok(SerialResponse::Other { message })
        },
    }
}

} // verus!
