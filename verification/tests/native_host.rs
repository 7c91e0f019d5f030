use myki::native_host::{
    check_credential_id, decode_salt_32, frame_length, frame_message, parse_command, salt_error_text,
    unknown_command_message, NativeCommand, SaltError,
};

#[test]
fn commands_are_recognised() {
    assert_eq!(parse_command("unlock"), NativeCommand::Unlock);
    assert_eq!(parse_command("lock"), NativeCommand::Lock);
    assert_eq!(parse_command("list"), NativeCommand::List);
    assert_eq!(parse_command("search"), NativeCommand::Search);
    assert_eq!(parse_command("get_password"), NativeCommand::GetPassword);
    assert_eq!(parse_command("generate_password"), NativeCommand::GeneratePassword);
    assert_eq!(parse_command("ping"), NativeCommand::Ping);
    assert_eq!(parse_command("Ping"), NativeCommand::Unknown);
    assert_eq!(parse_command(""), NativeCommand::Unknown);
    assert_eq!(unknown_command_message("foo"), "Unknown command: foo");
}

#[test]
fn salts_must_be_32_bytes_of_base64() {
    let good = myki::crypto::encode_base64(&[7u8; 32]);
    assert_eq!(decode_salt_32(&good).unwrap(), [7u8; 32]);
    let short = myki::crypto::encode_base64(&[7u8; 16]);
    match decode_salt_32(&short) {
        Err(e @ SaltError::Length(16)) => assert_eq!(salt_error_text(&e), "Invalid salt length"),
        other => panic!("unexpected {:?}", other),
    }
    match decode_salt_32("***") {
        Err(e @ SaltError::Encoding(_)) => assert_eq!(salt_error_text(&e), "Invalid salt"),
        other => panic!("unexpected {:?}", other),
    }
}

#[test]
fn credential_id_is_required() {
    assert!(check_credential_id("abc").is_ok());
    assert_eq!(check_credential_id(""), Err("Missing credential id".to_string()));
}

#[test]
fn frames_carry_little_endian_length() {
    let f = frame_message(b"{\"a\":1}");
    assert_eq!(&f[..4], &[7, 0, 0, 0]);
    assert_eq!(&f[4..], b"{\"a\":1}");
    assert_eq!(frame_length([7, 0, 0, 0]), 7);
    assert_eq!(frame_length([0, 1, 0, 0]), 256);
    assert_eq!(frame_length([1, 2, 3, 4]), 0x04030201);
    let big = vec![0u8; 300];
    let g = frame_message(&big);
    assert_eq!(frame_length([g[0], g[1], g[2], g[3]]), 300);
}
