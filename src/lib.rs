//! Core of a remote signing daemon for validator nodes: the framing and
//! decoding of signing requests, the response builder, the unified error
//! taxonomy, and account identifiers.

pub mod account;
pub mod amino;
pub mod digest;
pub mod error;
pub mod rpc;

pub use account::Id;
pub use error::{ConsensusError, KmsError, KmsErrorKind, SignerError, SignerErrorKind, StateError, ValidationError};
pub use rpc::{FrameError, Request, Response, TendermintRequest, MAX_MSG_LEN};
pub use amino::{MessageType, TypePrefixes};
