//! The error taxonomy: every failure of the daemon, whatever its source, is
//! reported as one `KmsError` that carries exactly one `KmsErrorKind`.

use vstd::prelude::*;

verus! {

/// Kinds of errors
#[derive(Copy, Clone, Debug, PartialEq, Eq, Structural)]
pub enum KmsErrorKind {
    /// Access denied (hardware-backed signers)
    AccessError,
    /// Error in configuration file
    ConfigError,
    /// KMS internal panic
    PanicError,
    /// Cryptographic operation failed
    CryptoError,
    /// Error running a subcommand to update chain state
    HookError,
    /// Malformatted or otherwise invalid cryptographic key
    InvalidKey,
    /// Validation of consensus message failed
    InvalidMessageError,
    /// Input/output error
    IoError,
    /// Parse error
    ParseError,
    /// Network protocol-related errors
    ProtocolError,
    /// Serialization error
    SerializationError,
    /// Signing operation failed
    SigningError,
    /// Verification operation failed
    VerificationError,
    /// Attempted double sign
    DoubleSign,
    /// Requested a signature above the stop height
    ExceedMaxHeight,
}

/// The human-readable description of each kind.
pub open spec fn kind_description(kind: KmsErrorKind) -> Seq<char> {
    match kind {
        KmsErrorKind::AccessError => "access denied"@,
        KmsErrorKind::ConfigError => "config error"@,
        KmsErrorKind::PanicError => "internal crash"@,
        KmsErrorKind::CryptoError => "cryptographic error"@,
        KmsErrorKind::HookError => "subcommand hook failed"@,
        KmsErrorKind::InvalidKey => "invalid key"@,
        KmsErrorKind::InvalidMessageError => "invalid consensus message"@,
        KmsErrorKind::IoError => "I/O error"@,
        KmsErrorKind::ParseError => "parse error"@,
        KmsErrorKind::ProtocolError => "protocol error"@,
        KmsErrorKind::SerializationError => "serialization error"@,
        KmsErrorKind::SigningError => "signing operation failed"@,
        KmsErrorKind::VerificationError => "verification failed"@,
        KmsErrorKind::DoubleSign => "attempted double sign"@,
        KmsErrorKind::ExceedMaxHeight => "requested signature above stop height"@,
    }
}

/// Kinds after which callers must not retry: the process has to stop signing.
pub open spec fn kind_is_fatal(kind: KmsErrorKind) -> bool {
    kind == KmsErrorKind::DoubleSign || kind == KmsErrorKind::ExceedMaxHeight
}

impl KmsErrorKind {
    /// Human-readable description of this kind
    pub fn description(&self) -> (r: &'static str)
        ensures
            r@ == kind_description(*self),
    {
        match self {
            KmsErrorKind::AccessError => "access denied",
            KmsErrorKind::ConfigError => "config error",
            KmsErrorKind::PanicError => "internal crash",
            KmsErrorKind::CryptoError => "cryptographic error",
            KmsErrorKind::HookError => "subcommand hook failed",
            KmsErrorKind::InvalidKey => "invalid key",
            KmsErrorKind::InvalidMessageError => "invalid consensus message",
            KmsErrorKind::IoError => "I/O error",
            KmsErrorKind::ParseError => "parse error",
            KmsErrorKind::ProtocolError => "protocol error",
            KmsErrorKind::SerializationError => "serialization error",
            KmsErrorKind::SigningError => "signing operation failed",
            KmsErrorKind::VerificationError => "verification failed",
            KmsErrorKind::DoubleSign => "attempted double sign",
            KmsErrorKind::ExceedMaxHeight => "requested signature above stop height",
        }
    }

    /// Is this a kind after which the process must refuse to sign (never retried)?
    pub fn is_fatal(&self) -> (r: bool)
        ensures
            r == kind_is_fatal(*self),
    {
        match self {
            KmsErrorKind::DoubleSign | KmsErrorKind::ExceedMaxHeight => true,
            _ => false,
        }
    }
}

/// Error type: one kind and an optional human-readable cause
#[derive(Clone, Debug)]
pub struct KmsError {
    pub kind: KmsErrorKind,
    pub cause: Option<String>,
}

/// The cause of an error, as characters.
pub open spec fn cause_view(cause: Option<String>) -> Option<Seq<char>> {
    match cause {
        Some(s) => Some(s@),
        None => None,
    }
}

impl KmsError {
    /// The kind of this error.
    pub open spec fn spec_kind(&self) -> KmsErrorKind {
        self.kind
    }

    /// The cause of this error, if one was given.
    pub open spec fn spec_cause(&self) -> Option<Seq<char>> {
        cause_view(self.cause)
    }

    /// Create an error of the given kind, with an optional cause
    pub fn new(kind: KmsErrorKind, cause: Option<String>) -> (r: KmsError)
        ensures
            r.spec_kind() == kind,
            r.spec_cause() == cause_view(cause),
    {
        KmsError { kind, cause }
    }

    /// The kind of this error
    pub fn kind(&self) -> (r: KmsErrorKind)
        ensures
            r == self.spec_kind(),
    {
        self.kind
    }

    /// The cause of this error, if one was given
    pub fn cause(&self) -> (r: Option<&String>)
        ensures
            cause_view(
                match r {
                    Some(s) => Some(*s),
                    None => None,
                },
            ) == self.spec_cause(),
    {
        match &self.cause {
            Some(s) => Some(s),
            None => None,
        }
    }

    /// Create an error from a panic, given the panic's message when it was a string
    pub fn from_panic(msg: Option<String>) -> (r: KmsError)
        ensures
            r.spec_kind() == KmsErrorKind::PanicError,
            r.spec_cause() == Some(
                match msg {
                    Some(m) => m@,
                    None => "unknown cause"@,
                },
            ),
    {
        match msg {
            Some(m) => KmsError { kind: KmsErrorKind::PanicError, cause: Some(m) },
            None => KmsError {
                kind: KmsErrorKind::PanicError,
                cause: Some(String::from_str("unknown cause")),
            },
        }
    }
}

/// Failures reported by the consensus library (keys, hashes, encodings)
#[derive(Copy, Clone, Debug, PartialEq, Eq, Structural)]
pub enum ConsensusError {
    /// Cryptographic operation failed
    Crypto,
    /// Malformatted or otherwise invalid cryptographic key
    InvalidKey,
    /// Input/output error
    Io,
    /// Network protocol-related error
    Protocol,
    /// Length incorrect
    Length,
    /// Parse error
    Parse,
    /// Value out of range
    OutOfRange,
    /// Signature invalid
    SignatureInvalid,
}

/// The kind that each failure of the consensus library is reported as.
pub open spec fn consensus_kind(e: ConsensusError) -> KmsErrorKind {
    match e {
        ConsensusError::Crypto => KmsErrorKind::CryptoError,
        ConsensusError::InvalidKey => KmsErrorKind::InvalidKey,
        ConsensusError::Io => KmsErrorKind::IoError,
        ConsensusError::Protocol => KmsErrorKind::ProtocolError,
        ConsensusError::Length | ConsensusError::Parse | ConsensusError::OutOfRange => KmsErrorKind::ParseError,
        ConsensusError::SignatureInvalid => KmsErrorKind::VerificationError,
    }
}

impl From<ConsensusError> for KmsError {
    fn from(other: ConsensusError) -> (r: KmsError) {
        let kind = match other {
            ConsensusError::Crypto => KmsErrorKind::CryptoError,
            ConsensusError::InvalidKey => KmsErrorKind::InvalidKey,
            ConsensusError::Io => KmsErrorKind::IoError,
            ConsensusError::Protocol => KmsErrorKind::ProtocolError,
            ConsensusError::Length | ConsensusError::Parse | ConsensusError::OutOfRange => {
                KmsErrorKind::ParseError
            },
            ConsensusError::SignatureInvalid => KmsErrorKind::VerificationError,
        };
        KmsError { kind, cause: None }
    }
}

impl vstd::std_specs::convert::FromSpecImpl<ConsensusError> for KmsError {
    open spec fn obeys_from_spec() -> bool {
        true
    }

    open spec fn from_spec(v: ConsensusError) -> KmsError {
        KmsError { kind: consensus_kind(v), cause: None }
    }
}

/// Kinds of failures reported by a signing backend
#[derive(Copy, Clone, Debug, PartialEq, Eq, Structural)]
pub enum SignerErrorKind {
    /// Input/output error
    Io,
    /// Invalid key
    KeyInvalid,
    /// Parse error
    ParseError,
    /// Failure of the provider behind the backend (software or hardware)
    ProviderError,
    /// Signature invalid
    SignatureInvalid,
}

/// A failure reported by a signing backend
pub struct SignerError {
    /// What went wrong
    pub kind: SignerErrorKind,
    /// Human-readable description
    pub description: String,
}

/// The kind that each signing backend failure is reported as.
pub open spec fn signer_kind(k: SignerErrorKind) -> KmsErrorKind {
    match k {
        SignerErrorKind::Io => KmsErrorKind::IoError,
        SignerErrorKind::KeyInvalid => KmsErrorKind::InvalidKey,
        SignerErrorKind::ParseError => KmsErrorKind::ParseError,
        SignerErrorKind::ProviderError => KmsErrorKind::SigningError,
        SignerErrorKind::SignatureInvalid => KmsErrorKind::VerificationError,
    }
}

impl From<SignerError> for KmsError {
    fn from(other: SignerError) -> (r: KmsError) {
        let kind = match other.kind {
            SignerErrorKind::Io => KmsErrorKind::IoError,
            SignerErrorKind::KeyInvalid => KmsErrorKind::InvalidKey,
            SignerErrorKind::ParseError => KmsErrorKind::ParseError,
            SignerErrorKind::ProviderError => KmsErrorKind::SigningError,
            SignerErrorKind::SignatureInvalid => KmsErrorKind::VerificationError,
        };
        KmsError { kind, cause: Some(other.description) }
    }
}

impl vstd::std_specs::convert::FromSpecImpl<SignerError> for KmsError {
    open spec fn obeys_from_spec() -> bool {
        true
    }

    open spec fn from_spec(v: SignerError) -> KmsError {
        KmsError { kind: signer_kind(v.kind), cause: Some(v.description) }
    }
}

/// A consensus message failed validation
pub struct ValidationError {
    /// Which rule the message broke
    pub description: String,
}

impl From<ValidationError> for KmsError {
    fn from(other: ValidationError) -> (r: KmsError) {
        KmsError { kind: KmsErrorKind::InvalidMessageError, cause: Some(other.description) }
    }
}

impl vstd::std_specs::convert::FromSpecImpl<ValidationError> for KmsError {
    open spec fn obeys_from_spec() -> bool {
        true
    }

    open spec fn from_spec(v: ValidationError) -> KmsError {
        KmsError { kind: KmsErrorKind::InvalidMessageError, cause: Some(v.description) }
    }
}

/// The consensus-safety state refused a message that conflicts with one
/// already signed at the same height and round
pub struct StateError {
    /// The conflict found
    pub description: String,
}

impl From<StateError> for KmsError {
    fn from(other: StateError) -> (r: KmsError) {
        KmsError { kind: KmsErrorKind::DoubleSign, cause: Some(other.description) }
    }
}

impl vstd::std_specs::convert::FromSpecImpl<StateError> for KmsError {
    open spec fn obeys_from_spec() -> bool {
        true
    }

    open spec fn from_spec(v: StateError) -> KmsError {
        KmsError { kind: KmsErrorKind::DoubleSign, cause: Some(v.description) }
    }
}

#[verifier::external_type_specification]
#[verifier::external_body]
pub struct ExIoError(std::io::Error);

#[verifier::external_type_specification]
#[verifier::external_body]
pub struct ExJsonError(serde_json::Error);

/// Relies on the `Display` impl of `std::io::Error` for the message.
#[verifier::external_body]
fn io_error_message(e: &std::io::Error) -> String {
    e.to_string()
}

/// Relies on the `Display` impl of `serde_json::Error` for the message.
#[verifier::external_body]
fn json_error_message(e: &serde_json::Error) -> String {
    e.to_string()
}

impl KmsError {
    /// An I/O failure, with the given message as the cause
    pub fn from_io_message(message: String) -> (r: KmsError)
        ensures
            r.spec_kind() == KmsErrorKind::IoError,
            r.spec_cause() == Some(message@),
    {
        KmsError { kind: KmsErrorKind::IoError, cause: Some(message) }
    }

    /// A failure of structured-data serialization, with the given message as the cause
    pub fn from_json_message(message: String) -> (r: KmsError)
        ensures
            r.spec_kind() == KmsErrorKind::SerializationError,
            r.spec_cause() == Some(message@),
    {
        KmsError { kind: KmsErrorKind::SerializationError, cause: Some(message) }
    }

    /// An I/O failure, with its message as the cause
    pub fn from_io_error(other: std::io::Error) -> (r: KmsError)
        ensures
            r.spec_kind() == KmsErrorKind::IoError,
            r.spec_cause() is Some,
    {
        KmsError::from_io_message(io_error_message(&other))
    }

    /// A failure of structured-data serialization, with its message as the cause
    pub fn from_json_error(other: serde_json::Error) -> (r: KmsError)
        ensures
            r.spec_kind() == KmsErrorKind::SerializationError,
            r.spec_cause() is Some,
    {
        KmsError::from_json_message(json_error_message(&other))
    }

    /// Must the process refuse to go on signing after this error?
    pub fn is_fatal(&self) -> (r: bool)
        ensures
            r == kind_is_fatal(self.spec_kind()),
    {
        self.kind.is_fatal()
    }
}

} // verus!
