use lanmic::net::{check_address, is_would_block, validate_port, IoErrorKind};

#[test]
fn ports_from_outside_are_range_checked() {
    assert_eq!(validate_port(45678).unwrap(), 45678);
    assert_eq!(validate_port(65535).unwrap(), 65535);
    for bad in [0, -1, 65536, 70000, i32::MAX, i32::MIN] {
        assert!(validate_port(bad).is_err(), "{bad} should be rejected");
    }
}

#[test]
fn a_bad_port_is_named() {
    assert_eq!(
        validate_port(70000).unwrap_err().message(),
        "port 70000 is outside 1..=65535"
    );
    assert_eq!(
        validate_port(i32::MIN).unwrap_err().message(),
        "port -2147483648 is outside 1..=65535"
    );
    assert_eq!(
        validate_port(0).unwrap_err().message(),
        "port 0 is outside 1..=65535"
    );
}

#[test]
fn nothing_to_read_is_not_a_dead_socket() {
    assert!(is_would_block(IoErrorKind::WouldBlock));
    assert!(is_would_block(IoErrorKind::TimedOut));
    assert!(is_would_block(IoErrorKind::Interrupted));
    assert!(!is_would_block(IoErrorKind::InvalidInput));
    assert!(!is_would_block(IoErrorKind::Other));
}

#[test]
fn an_empty_host_is_an_error() {
    assert_eq!(check_address(""), Err(IoErrorKind::InvalidInput));
    assert_eq!(check_address("   "), Err(IoErrorKind::InvalidInput));
    assert_eq!(check_address("\u{3000}\t"), Err(IoErrorKind::InvalidInput));
    assert_eq!(check_address(" 10.0.0.1 "), Ok(()));
}
