use andino::comm::parse_response;
use andino::comm::prepare_command_to_send;
use andino::comm::HwSerialConnectionError;
use andino::comm::SerialCommands;
use andino::comm::SerialResponse;

#[test]
fn test_prepare_command_to_send_read_encoders() {
    let command = SerialCommands::ReadEncoderValues;
    let command_str = prepare_command_to_send(&command);
    assert_eq!(command_str, "e\r");
}

#[test]
fn test_prepare_command_to_send_set_motor_values() {
    let command = SerialCommands::SetMotorValues { left: 100, right: 200 };
    let command_str = prepare_command_to_send(&command);
    assert_eq!(command_str, "m 100 200\r");
}

#[test]
fn test_prepare_command_to_send_set_pid_values() {
    let command = SerialCommands::SetPIDValues {
        kp: "1".to_string(),
        ki: "2".to_string(),
        kd: "3".to_string(),
        ko: "4".to_string(),
    };
    let command_str = prepare_command_to_send(&command);
    assert_eq!(command_str, "u 1:2:3:4\r");
}

#[test]
fn test_parse_response_encoders() {
    let response = "123 456".to_string();
    let command = SerialCommands::ReadEncoderValues;
    let parsed_response = parse_response(&command, response).unwrap();
    match parsed_response {
        SerialResponse::EncoderValues { left, right } => {
            assert_eq!(left, 123);
            assert_eq!(right, 456);
        }
        _ => panic!("Expected EncoderValues response"),
    }
}

#[test]
fn test_parse_response_encoders_error() {
    let response = "123 456 789".to_string();
    let command = SerialCommands::ReadEncoderValues;
    let parsed_response = parse_response(&command, response.clone());
    assert!(parsed_response.is_err());
    assert_eq!(
        parsed_response.unwrap_err(),
        HwSerialConnectionError::WrongResponseError {
            error: "Invalid response format for encoder values: ".to_string() + response.as_str()
        }
    );
}

#[test]
fn test_parse_response_other() {
    let response = "Random Msg".to_string();
    let command = SerialCommands::SetMotorValues { left: 0, right: 0 };
    let parsed_response = parse_response(&command, response).unwrap();
    match parsed_response {
        SerialResponse::Other { message } => {
            assert_eq!(message, "Random Msg");
        }
        _ => panic!("Expected Other response"),
    }
}

#[test]
fn test_prepare_command_negative_motor_values() {
    let command = SerialCommands::SetMotorValues { left: -7, right: i64::MIN };
    let command_str = prepare_command_to_send(&command);
    assert_eq!(command_str, "m -7 -9223372036854775808\r");
}

#[test]
fn test_parse_response_empty_always_fails() {
    let read = SerialCommands::ReadEncoderValues;
    let other = SerialCommands::SetMotorValues { left: 1, right: 2 };
    for command in [read, other] {
        let parsed = parse_response(&command, String::new());
        assert_eq!(
            parsed.unwrap_err(),
            HwSerialConnectionError::WrongResponseError {
                error: "Empty response from serial port".to_string()
            }
        );
    }
}

#[test]
fn test_parse_response_encoders_one_token() {
    let command = SerialCommands::ReadEncoderValues;
    let parsed = parse_response(&command, "123".to_string());
    assert_eq!(
        parsed.unwrap_err(),
        HwSerialConnectionError::WrongResponseError {
            error: "Invalid response format for encoder values: 123".to_string()
        }
    );
}

#[test]
fn test_parse_response_encoders_surrounding_whitespace() {
    let command = SerialCommands::ReadEncoderValues;
    let parsed = parse_response(&command, "\t-123   456\r\n".to_string()).unwrap();
    match parsed {
        SerialResponse::EncoderValues { left, right } => {
            assert_eq!(left, -123);
            assert_eq!(right, 456);
        }
        _ => panic!("Expected EncoderValues response"),
    }
}

#[test]
fn test_parse_response_encoders_bad_integer() {
    let command = SerialCommands::ReadEncoderValues;
    let parsed = parse_response(&command, "12x 456".to_string());
    assert_eq!(
        parsed.unwrap_err(),
        HwSerialConnectionError::WrongResponseError {
            error: "invalid digit found in string".to_string()
        }
    );
}

#[test]
fn test_parse_response_encoders_out_of_range() {
    let command = SerialCommands::ReadEncoderValues;
    let parsed = parse_response(&command, "1 9223372036854775808".to_string());
    assert_eq!(
        parsed.unwrap_err(),
        HwSerialConnectionError::WrongResponseError {
            error: "number too large to fit in target type".to_string()
        }
    );
}

#[test]
fn test_parse_response_other_is_trimmed() {
    let command = SerialCommands::SetPIDValues {
        kp: "1".to_string(),
        ki: "2".to_string(),
        kd: "3".to_string(),
        ko: "4".to_string(),
    };
    let parsed = parse_response(&command, "  OK\r\n".to_string()).unwrap();
    match parsed {
        SerialResponse::Other { message } => {
            assert_eq!(message, "OK");
        }
        _ => panic!("Expected Other response"),
    }
}
