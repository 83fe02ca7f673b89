use tmkms::{
    ConsensusError, KmsError, KmsErrorKind, SignerError, SignerErrorKind, StateError,
    ValidationError,
};

#[test]
fn signer_failures_map_to_kinds() {
    let cases = [
        (SignerErrorKind::Io, KmsErrorKind::IoError),
        (SignerErrorKind::KeyInvalid, KmsErrorKind::InvalidKey),
        (SignerErrorKind::ParseError, KmsErrorKind::ParseError),
        (SignerErrorKind::ProviderError, KmsErrorKind::SigningError),
        (SignerErrorKind::SignatureInvalid, KmsErrorKind::VerificationError),
    ];
    for (kind, expected) in cases {
        let e = KmsError::from(SignerError {
            kind,
            description: "backend said no".to_string(),
        });
        assert_eq!(e.kind(), expected);
        assert_eq!(e.cause().unwrap(), "backend said no");
    }
}

#[test]
fn provider_error_is_signing_error_and_conflict_is_double_sign() {
    let e = KmsError::from(SignerError {
        kind: SignerErrorKind::ProviderError,
        description: "provider error".to_string(),
    });
    assert_eq!(e.kind(), KmsErrorKind::SigningError);
    assert!(!e.is_fatal());
    let d = KmsError::from(StateError {
        description: "conflicting vote at height 10 round 0".to_string(),
    });
    assert_eq!(d.kind(), KmsErrorKind::DoubleSign);
    assert!(d.is_fatal());
}

#[test]
fn consensus_failures_map_to_kinds() {
    let cases = [
        (ConsensusError::Crypto, KmsErrorKind::CryptoError),
        (ConsensusError::InvalidKey, KmsErrorKind::InvalidKey),
        (ConsensusError::Io, KmsErrorKind::IoError),
        (ConsensusError::Protocol, KmsErrorKind::ProtocolError),
        (ConsensusError::Length, KmsErrorKind::ParseError),
        (ConsensusError::Parse, KmsErrorKind::ParseError),
        (ConsensusError::OutOfRange, KmsErrorKind::ParseError),
        (ConsensusError::SignatureInvalid, KmsErrorKind::VerificationError),
    ];
    for (source, expected) in cases {
        let e = KmsError::from(source);
        assert_eq!(e.kind(), expected);
        assert!(e.cause().is_none());
    }
}

#[test]
fn validation_failure_is_invalid_message() {
    let e = KmsError::from(ValidationError {
        description: "missing height".to_string(),
    });
    assert_eq!(e.kind(), KmsErrorKind::InvalidMessageError);
    assert_eq!(e.cause().unwrap(), "missing height");
}

#[test]
fn panics_become_panic_errors() {
    let e = KmsError::from_panic(Some("boom".to_string()));
    assert_eq!(e.kind(), KmsErrorKind::PanicError);
    assert_eq!(e.cause().unwrap(), "boom");
    let u = KmsError::from_panic(None);
    assert_eq!(u.kind(), KmsErrorKind::PanicError);
    assert_eq!(u.cause().unwrap(), "unknown cause");
}

#[test]
fn io_and_serialization_failures_map_to_kinds() {
    let io = std::io::Error::new(std::io::ErrorKind::UnexpectedEof, "closed");
    let e = KmsError::from_io_error(io);
    assert_eq!(e.kind(), KmsErrorKind::IoError);
    assert_eq!(e.cause().unwrap(), "closed");
    let json = serde_json::from_str::<u32>("not json").unwrap_err();
    let s = KmsError::from_json_error(json);
    assert_eq!(s.kind(), KmsErrorKind::SerializationError);
    assert!(s.cause().is_some());
}

#[test]
fn io_and_serialization_messages_are_kept() {
    let e = KmsError::from_io_message("connection reset".to_string());
    assert_eq!(e.kind(), KmsErrorKind::IoError);
    assert_eq!(e.cause().unwrap(), "connection reset");
    let s = KmsError::from_json_message("expected value at line 1".to_string());
    assert_eq!(s.kind(), KmsErrorKind::SerializationError);
    assert_eq!(s.cause().unwrap(), "expected value at line 1");
}

#[test]
fn kinds_describe_themselves_and_only_two_are_fatal() {
    assert_eq!(KmsErrorKind::DoubleSign.description(), "attempted double sign");
    assert_eq!(KmsErrorKind::IoError.description(), "I/O error");
    assert!(KmsErrorKind::ExceedMaxHeight.is_fatal());
    assert!(KmsErrorKind::DoubleSign.is_fatal());
    assert!(!KmsErrorKind::ConfigError.is_fatal());
    let e = KmsError::new(KmsErrorKind::HookError, None);
    assert_eq!(e.kind(), KmsErrorKind::HookError);
    assert!(e.cause().is_none());
}
