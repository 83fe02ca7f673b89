//! Remote procedure calls: framing, decoding of requests, and the responses
//! built from them.
//!
//! A frame is `varint(length) || type prefix (4 bytes) || payload`, where
//! `length` counts the bytes after the length field and is at most
//! `MAX_MSG_LEN`.

use crate::amino::{amino_name, known_prefix, lemma_known_prefixes_distinct, prefixes_valid, type_prefix, MessageType, TypePrefixes, PREFIX_LEN};
use crate::error::{KmsError, KmsErrorKind};
use vstd::prelude::*;

verus! {

/// Maximum size of an RPC message
pub const MAX_MSG_LEN: usize = 1024;

/// Most bytes a length field may take
pub const MAX_VARINT_LEN: usize = 10;

/// Why a frame could not be decoded
#[derive(Copy, Clone, Debug, PartialEq, Eq, Structural)]
pub enum FrameError {
    /// Fewer than four bytes were read
    TooShort,
    /// The length field does not end within its first ten bytes
    InvalidLength,
    /// The declared length is larger than `MAX_MSG_LEN`
    TooLarge,
    /// Fewer bytes were read than the frame declares
    Truncated,
    /// The type prefix is the one of no known message type
    UnknownMessage,
}

/// Where the length field that starts at `i` of `buf` ends (one past its
/// last byte): at the first byte below 0x80, within the first ten bytes.
pub open spec fn varint_end(buf: Seq<u8>, i: int) -> Option<int>
    decreases MAX_VARINT_LEN - i,
{
    if i < 0 || i >= MAX_VARINT_LEN || i >= buf.len() {
        None
    } else if buf[i] < 0x80 {
        Some(i + 1)
    } else {
        varint_end(buf, i + 1)
    }
}

/// The value of a varint: seven bits a byte, least significant group first.
pub open spec fn varint_value(s: Seq<u8>) -> nat
    decreases s.len(),
{
    if s.len() == 0 {
        0
    } else {
        (s[0] % 0x80) as nat + 0x80 * varint_value(s.drop_first())
    }
}

/// The varint encoding of `n`, in as few bytes as it takes.
pub open spec fn varint_encoding(n: nat) -> Seq<u8>
    decreases n,
{
    if n < 0x80 {
        seq![n as u8]
    } else {
        seq![(n % 0x80 + 0x80) as u8] + varint_encoding(n / 0x80)
    }
}

/// The message type whose prefix is `prefix`, the first match in the order
/// vote, proposal, public key, ping.
pub open spec fn message_type_of(prefix: Seq<u8>) -> Option<MessageType> {
    if prefix == known_prefix(MessageType::Vote) {
        Some(MessageType::Vote)
    } else if prefix == known_prefix(MessageType::Proposal) {
        Some(MessageType::Proposal)
    } else if prefix == known_prefix(MessageType::PubKey) {
        Some(MessageType::PubKey)
    } else if prefix == known_prefix(MessageType::Ping) {
        Some(MessageType::Ping)
    } else {
        None
    }
}

/// What the bytes of one read decode to: the type and payload of the
/// request, or why there is none.
pub open spec fn decode_frame(buf: Seq<u8>) -> Result<(MessageType, Seq<u8>), FrameError> {
    if buf.len() < 4 {
        Err(FrameError::TooShort)
    } else {
        match varint_end(buf, 0) {
            None => Err(FrameError::InvalidLength),
            Some(w) => {
                let len = varint_value(buf.take(w));
                if len > MAX_MSG_LEN {
                    Err(FrameError::TooLarge)
                } else if buf.len() < w + len {
                    Err(FrameError::Truncated)
                } else if len < PREFIX_LEN {
                    Err(FrameError::UnknownMessage)
                } else {
                    match message_type_of(buf.subrange(w, w + PREFIX_LEN)) {
                        Some(t) => Ok((t, buf.subrange(w + PREFIX_LEN, w + len))),
                        None => Err(FrameError::UnknownMessage),
                    }
                }
            },
        }
    }
}

/// The frame that carries `payload` as a message of type `t`.
pub open spec fn encode_frame(t: MessageType, payload: Seq<u8>) -> Seq<u8> {
    varint_encoding((PREFIX_LEN + payload.len()) as nat) + known_prefix(t) + payload
}

/// Request to sign a vote
pub struct SignVoteRequest {
    /// The encoded vote
    pub vote: Vec<u8>,
}

/// Request to sign a proposal
pub struct SignProposalRequest {
    /// The encoded proposal
    pub proposal: Vec<u8>,
}

/// Request for the public key
pub struct PubKeyRequest {
    /// The encoded query
    pub payload: Vec<u8>,
}

/// Keep-alive request
pub struct PingRequest {
    /// The encoded keep-alive
    pub payload: Vec<u8>,
}

/// Requests to the KMS
pub enum Request {
    /// Sign the given proposal
    SignProposal(SignProposalRequest),
    /// Sign the given vote
    SignVote(SignVoteRequest),
    /// Show the public key
    ShowPublicKey(PubKeyRequest),
    /// Keep the connection alive
    ReplyPing(PingRequest),
}

/// An error reported to the remote party in a response
pub struct RemoteError {
    /// Error code
    pub code: i32,
    /// Description of the error
    pub description: String,
}

/// Response to a vote signing request
pub struct SignedVoteResponse {
    /// The vote, signed once the signer has filled it in
    pub vote: Vec<u8>,
    /// The error, where signing failed
    pub err: Option<RemoteError>,
}

/// Response to a proposal signing request
pub struct SignedProposalResponse {
    /// The proposal, signed once the signer has filled it in
    pub proposal: Vec<u8>,
    /// The error, where signing failed
    pub err: Option<RemoteError>,
}

/// Response to a keep-alive
pub struct PingResponse {
    /// The keep-alive payload, echoed
    pub payload: Vec<u8>,
}

/// Response to a public key request
pub struct PubKeyResponse {
    /// The query payload, echoed
    pub payload: Vec<u8>,
    /// The Ed25519 public key, once the signer has filled it in
    pub pub_key_ed25519: Vec<u8>,
}

/// Responses from the KMS
pub enum Response {
    /// Signed vote
    SignedVote(SignedVoteResponse),
    /// Signed proposal
    SignedProposal(SignedProposalResponse),
    /// Keep-alive answer
    Ping(PingResponse),
    /// Public key
    PublicKey(PubKeyResponse),
}

impl Request {
    /// The type of this request.
    pub open spec fn spec_type(&self) -> MessageType {
        match self {
            Request::SignVote(_) => MessageType::Vote,
            Request::SignProposal(_) => MessageType::Proposal,
            Request::ShowPublicKey(_) => MessageType::PubKey,
            Request::ReplyPing(_) => MessageType::Ping,
        }
    }

    /// The payload this request carries.
    pub open spec fn spec_payload(&self) -> Seq<u8> {
        match self {
            Request::SignVote(r) => r.vote@,
            Request::SignProposal(r) => r.proposal@,
            Request::ShowPublicKey(r) => r.payload@,
            Request::ReplyPing(r) => r.payload@,
        }
    }
}

impl Response {
    /// The type of request this response answers.
    pub open spec fn spec_type(&self) -> MessageType {
        match self {
            Response::SignedVote(_) => MessageType::Vote,
            Response::SignedProposal(_) => MessageType::Proposal,
            Response::PublicKey(_) => MessageType::PubKey,
            Response::Ping(_) => MessageType::Ping,
        }
    }

    /// The request payload this response carries back.
    pub open spec fn spec_payload(&self) -> Seq<u8> {
        match self {
            Response::SignedVote(r) => r.vote@,
            Response::SignedProposal(r) => r.proposal@,
            Response::PublicKey(r) => r.payload@,
            Response::Ping(r) => r.payload@,
        }
    }

    /// Does this response carry an error?
    pub open spec fn spec_has_error(&self) -> bool {
        match self {
            Response::SignedVote(r) => r.err is Some,
            Response::SignedProposal(r) => r.err is Some,
            _ => false,
        }
    }
}

/// A length field ends after its start, within its first ten bytes and
/// within the buffer.
proof fn lemma_varint_end_bounds(buf: Seq<u8>, i: int)
    requires
        varint_end(buf, i) is Some,
    ensures
        i < varint_end(buf, i)->0 <= buf.len(),
        varint_end(buf, i)->0 <= MAX_VARINT_LEN,
    decreases MAX_VARINT_LEN - i,
{
    if !(i < 0 || i >= MAX_VARINT_LEN || i >= buf.len()) && buf[i] >= 0x80 {
        lemma_varint_end_bounds(buf, i + 1);
    }
}

/// Where the length field of `buf` ends, if it ends within its first ten bytes
fn varint_width(buf: &[u8]) -> (r: Option<usize>)
    ensures
        match varint_end(buf@, 0) {
            Some(w) => r matches Some(x) && x as int == w,
            None => r is None,
        },
        r matches Some(w) ==> 0 < w <= buf@.len() && w <= MAX_VARINT_LEN,
{
    proof {
        if varint_end(buf@, 0) is Some {
            lemma_varint_end_bounds(buf@, 0);
        }
    }
    let mut i: usize = 0;
    while i < MAX_VARINT_LEN && i < buf.len()
        invariant
            i <= MAX_VARINT_LEN,
            varint_end(buf@, 0) == varint_end(buf@, i as int),
        decreases MAX_VARINT_LEN - i,
    {
        if buf[i] < 0x80 {
            return Some(i + 1);
        }
        i = i + 1;
    }
    None
}

/// The value of the length field `buf[..w]`, or `None` where it exceeds `MAX_MSG_LEN`
fn varint_length(buf: &[u8], w: usize) -> (r: Option<usize>)
    requires
        w <= buf@.len(),
    ensures
        varint_value(buf@.take(w as int)) <= MAX_MSG_LEN ==> r == Some(
            varint_value(buf@.take(w as int)) as usize,
        ),
        varint_value(buf@.take(w as int)) > MAX_MSG_LEN ==> r is None,
{
    let mut acc: u64 = 0;
    let mut big = false;
    let mut j: usize = w;
    while j > 0
        invariant
            j <= w <= buf@.len(),
            big ==> varint_value(buf@.subrange(j as int, w as int)) > MAX_MSG_LEN,
            !big ==> acc == varint_value(buf@.subrange(j as int, w as int)) && acc <= MAX_MSG_LEN,
        decreases j,
    {
        let ghost rest = buf@.subrange(j as int, w as int);
        let ghost whole = buf@.subrange(j - 1, w as int);
        assert(whole.drop_first() =~= rest);
        let ghost v = varint_value(rest);
        assert(varint_value(whole) == (buf@[j - 1] % 0x80) as nat + 0x80 * v);
        if !big {
            let next: u64 = (buf[j - 1] % 0x80) as u64 + 0x80 * acc;
            if next > MAX_MSG_LEN as u64 {
                big = true;
            } else {
                acc = next;
            }
        } else {
            assert(0x80 * v >= v) by (nonlinear_arith);
        }
        j = j - 1;
    }
    assert(buf@.subrange(0, w as int) =~= buf@.take(w as int));
    if big {
        None
    } else {
        Some(acc as usize)
    }
}

/// Does `buf` hold `prefix` at `start`?
fn prefix_at(buf: &[u8], start: usize, prefix: &Vec<u8>) -> (r: bool)
    requires
        start + PREFIX_LEN <= buf@.len(),
        prefix@.len() == PREFIX_LEN,
    ensures
        r == (buf@.subrange(start as int, start + PREFIX_LEN) == prefix@),
{
    let n = buf.len();
    let mut i: usize = 0;
    while i < PREFIX_LEN
        invariant
            n == buf@.len(),
            start + PREFIX_LEN <= buf@.len(),
            prefix@.len() == PREFIX_LEN,
            i <= PREFIX_LEN,
            forall|j: int| 0 <= j < i ==> buf@[start + j] == prefix@[j],
        decreases PREFIX_LEN - i,
    {
        if buf[start + i] != prefix[i] {
            assert(buf@.subrange(start as int, start + PREFIX_LEN)[i as int] != prefix@[i as int]);
            return false;
        }
        i = i + 1;
    }
    assert(buf@.subrange(start as int, start + PREFIX_LEN) =~= prefix@);
    true
}

/// A copy of `buf[start..end]`
fn copy_range(buf: &[u8], start: usize, end: usize) -> (r: Vec<u8>)
    requires
        start <= end <= buf@.len(),
    ensures
        r@ == buf@.subrange(start as int, end as int),
{
    let mut r: Vec<u8> = Vec::new();
    let mut i: usize = start;
    while i < end
        invariant
            start <= i <= end <= buf@.len(),
            r@ == buf@.subrange(start as int, i as int),
        decreases end - i,
    {
        assert(buf@.subrange(start as int, i + 1) =~= buf@.subrange(start as int, i as int).push(
            buf@[i as int],
        ));
        r.push(buf[i]);
        i = i + 1;
    }
    r
}

impl Request {
    /// Decode the request in the bytes of one read from the transport. Only
    /// the bytes of the frame that the length field declares are used;
    /// anything after them is ignored.
    pub fn read(buf: &[u8], prefixes: &TypePrefixes) -> (r: Result<Request, FrameError>)
        requires
            prefixes.wf(),
        ensures
            match decode_frame(buf@) {
                Ok((t, payload)) => r matches Ok(req) && req.spec_type() == t && req.spec_payload()
                    == payload,
                Err(e) => r == Err::<Request, FrameError>(e),
            },
    {
        if buf.len() < 4 {
            return Err(FrameError::TooShort);
        }
        let w = match varint_width(buf) {
            Some(w) => w,
            None => return Err(FrameError::InvalidLength),
        };
        let len = match varint_length(buf, w) {
            Some(len) => len,
            None => return Err(FrameError::TooLarge),
        };
        if buf.len() - w < len {
            return Err(FrameError::Truncated);
        }
        if len < PREFIX_LEN {
            return Err(FrameError::UnknownMessage);
        }
        let payload = copy_range(buf, w + PREFIX_LEN, w + len);
        if prefix_at(buf, w, prefixes.prefix(MessageType::Vote)) {
            Ok(Request::SignVote(SignVoteRequest { vote: payload }))
        } else if prefix_at(buf, w, prefixes.prefix(MessageType::Proposal)) {
            Ok(Request::SignProposal(SignProposalRequest { proposal: payload }))
        } else if prefix_at(buf, w, prefixes.prefix(MessageType::PubKey)) {
            Ok(Request::ShowPublicKey(PubKeyRequest { payload }))
        } else if prefix_at(buf, w, prefixes.prefix(MessageType::Ping)) {
            Ok(Request::ReplyPing(PingRequest { payload }))
        } else {
            Err(FrameError::UnknownMessage)
        }
    }

    /// The frame that carries this request; a payload too large for any
    /// frame is refused
    pub fn encode(&self, prefixes: &TypePrefixes) -> (r: Result<Vec<u8>, FrameError>)
        requires
            prefixes.wf(),
        ensures
            PREFIX_LEN + self.spec_payload().len() > MAX_MSG_LEN ==> r == Err::<Vec<u8>, FrameError>(
                FrameError::TooLarge,
            ),
            PREFIX_LEN + self.spec_payload().len() <= MAX_MSG_LEN ==> (r matches Ok(v) && v@
                == encode_frame(self.spec_type(), self.spec_payload())),
    {
        let (t, payload) = match self {
            Request::SignVote(r) => (MessageType::Vote, &r.vote),
            Request::SignProposal(r) => (MessageType::Proposal, &r.proposal),
            Request::ShowPublicKey(r) => (MessageType::PubKey, &r.payload),
            Request::ReplyPing(r) => (MessageType::Ping, &r.payload),
        };
        if payload.len() > MAX_MSG_LEN - PREFIX_LEN {
            return Err(FrameError::TooLarge);
        }
        let len = PREFIX_LEN + payload.len();
        let mut out: Vec<u8> = Vec::new();
        if len < 0x80 {
            out.push(len as u8);
        } else {
            out.push((len % 0x80 + 0x80) as u8);
            out.push((len / 0x80) as u8);
        }
        proof {
            reveal_with_fuel(varint_encoding, 2);
            assert(out@ =~= varint_encoding(len as nat));
        }
        let prefix = prefixes.prefix(t);
        let mut i: usize = 0;
        while i < PREFIX_LEN
            invariant
                prefix@.len() == PREFIX_LEN,
                i <= PREFIX_LEN,
                out@ == varint_encoding(len as nat) + prefix@.take(i as int),
            decreases PREFIX_LEN - i,
        {
            assert(prefix@.take(i + 1) =~= prefix@.take(i as int).push(prefix@[i as int]));
            out.push(prefix[i]);
            i = i + 1;
        }
        assert(prefix@.take(PREFIX_LEN as int) =~= prefix@);
        let ghost head = out@;
        let mut j: usize = 0;
        while j < payload.len()
            invariant
                j <= payload@.len(),
                out@ == head + payload@.take(j as int),
            decreases payload@.len() - j,
        {
            assert(payload@.take(j + 1) =~= payload@.take(j as int).push(payload@[j as int]));
            out.push(payload[j]);
            j = j + 1;
        }
        assert(payload@.take(payload@.len() as int) =~= payload@);
        assert(out@ =~= encode_frame(t, payload@));
        Ok(out)
    }

    /// The response to this request, before any signing: the payload is
    /// carried back and no error is set
    pub fn build_response(self) -> (r: Response)
        ensures
            r.spec_type() == self.spec_type(),
            r.spec_payload() == self.spec_payload(),
            !r.spec_has_error(),
    {
        match self {
            Request::SignVote(r) => r.build_response(),
            Request::SignProposal(r) => r.build_response(),
            Request::ShowPublicKey(r) => r.build_response(),
            Request::ReplyPing(r) => r.build_response(),
        }
    }
}

/// Requests that are answered with a signature: the response is built from
/// the request, which it consumes, before the signer fills it in
pub trait TendermintRequest: Sized {
    /// The type of this request.
    spec fn spec_type(&self) -> MessageType;

    /// The payload of this request.
    spec fn spec_payload(&self) -> Seq<u8>;

    /// The response that carries the payload back, with no error set
    fn build_response(self) -> (r: Response)
        ensures
            r.spec_type() == self.spec_type(),
            r.spec_payload() == self.spec_payload(),
            !r.spec_has_error(),
    ;
}

impl TendermintRequest for SignVoteRequest {
    open spec fn spec_type(&self) -> MessageType {
        MessageType::Vote
    }

    open spec fn spec_payload(&self) -> Seq<u8> {
        self.vote@
    }

    fn build_response(self) -> (r: Response) {
        Response::SignedVote(SignedVoteResponse { vote: self.vote, err: None })
    }
}

impl TendermintRequest for SignProposalRequest {
    open spec fn spec_type(&self) -> MessageType {
        MessageType::Proposal
    }

    open spec fn spec_payload(&self) -> Seq<u8> {
        self.proposal@
    }

    fn build_response(self) -> (r: Response) {
        Response::SignedProposal(SignedProposalResponse { proposal: self.proposal, err: None })
    }
}

impl PubKeyRequest {
    /// The response that carries the query back, with no key filled in yet
    pub fn build_response(self) -> (r: Response)
        ensures
            r.spec_type() == MessageType::PubKey,
            r.spec_payload() == self.payload@,
            r matches Response::PublicKey(k) && k.pub_key_ed25519@.len() == 0,
    {
        Response::PublicKey(PubKeyResponse { payload: self.payload, pub_key_ed25519: Vec::new() })
    }
}

impl PingRequest {
    /// The keep-alive answer, which carries the payload back
    pub fn build_response(self) -> (r: Response)
        ensures
            r.spec_type() == MessageType::Ping,
            r.spec_payload() == self.payload@,
    {
        Response::Ping(PingResponse { payload: self.payload })
    }
}

/// The kind that each frame error is reported as: data that did not arrive
/// is an I/O error, the rest protocol errors.
pub open spec fn frame_error_kind(e: FrameError) -> KmsErrorKind {
    match e {
        FrameError::TooShort | FrameError::Truncated => KmsErrorKind::IoError,
        _ => KmsErrorKind::ProtocolError,
    }
}

/// The description of each frame error.
pub open spec fn frame_error_description(e: FrameError) -> Seq<char> {
    match e {
        FrameError::TooShort => "Did not read enough bytes to continue."@,
        FrameError::InvalidLength => "Invalid RPC message length."@,
        FrameError::TooLarge => "RPC message too large."@,
        FrameError::Truncated => "RPC message truncated."@,
        FrameError::UnknownMessage => "Received unknown RPC message."@,
    }
}

impl FrameError {
    /// Description of this error
    pub fn description(&self) -> (r: &'static str)
        ensures
            r@ == frame_error_description(*self),
    {
        match self {
            FrameError::TooShort => "Did not read enough bytes to continue.",
            FrameError::InvalidLength => "Invalid RPC message length.",
            FrameError::TooLarge => "RPC message too large.",
            FrameError::Truncated => "RPC message truncated.",
            FrameError::UnknownMessage => "Received unknown RPC message.",
        }
    }

    /// This error as a `KmsError`, with its description as the cause
    pub fn into_kms_error(self) -> (r: KmsError)
        ensures
            r.spec_kind() == frame_error_kind(self),
            r.spec_cause() == Some(frame_error_description(self)),
    {
        let kind = match self {
            FrameError::TooShort | FrameError::Truncated => KmsErrorKind::IoError,
            _ => KmsErrorKind::ProtocolError,
        };
        KmsError::new(kind, Some(String::from_str(self.description())))
    }
}

/// A frame that declares more than `MAX_MSG_LEN` bytes is refused as too
/// large, whatever follows its length field.
pub proof fn lemma_oversized_frame_refused(buf: Seq<u8>)
    requires
        buf.len() >= 4,
        varint_end(buf, 0) is Some,
        varint_value(buf.take(varint_end(buf, 0)->0)) > MAX_MSG_LEN,
    ensures
        decode_frame(buf) == Err::<(MessageType, Seq<u8>), FrameError>(FrameError::TooLarge),
{
}

/// Fewer than four bytes are refused as too short.
pub proof fn lemma_short_read_refused(buf: Seq<u8>)
    requires
        buf.len() < 4,
    ensures
        decode_frame(buf) == Err::<(MessageType, Seq<u8>), FrameError>(FrameError::TooShort),
{
}

/// A complete frame whose type prefix is the one of no known type is refused
/// as an unknown message.
pub proof fn lemma_unknown_prefix_refused(buf: Seq<u8>)
    requires
        varint_end(buf, 0) is Some,
        ({
            let w = varint_end(buf, 0)->0;
            let len = varint_value(buf.take(w));
            &&& PREFIX_LEN <= len <= MAX_MSG_LEN
            &&& w + len <= buf.len()
            &&& forall|t: MessageType| buf.subrange(w, w + PREFIX_LEN) != known_prefix(t)
        }),
    ensures
        decode_frame(buf) == Err::<(MessageType, Seq<u8>), FrameError>(FrameError::UnknownMessage),
{
    let w = varint_end(buf, 0)->0;
    let p = buf.subrange(w, w + PREFIX_LEN);
    assert(p != known_prefix(MessageType::Vote));
    assert(p != known_prefix(MessageType::Proposal));
    assert(p != known_prefix(MessageType::PubKey));
    assert(p != known_prefix(MessageType::Ping));
    lemma_varint_end_bounds(buf, 0);
}

/// Decoding the frame that encoding a request gives yields a request of the
/// same type with the same payload.
pub proof fn lemma_frame_round_trip(t: MessageType, payload: Seq<u8>)
    requires
        prefixes_valid(),
        PREFIX_LEN + payload.len() <= MAX_MSG_LEN,
    ensures
        decode_frame(encode_frame(t, payload)) == Ok::<(MessageType, Seq<u8>), FrameError>((t, payload)),
{
    let n = (PREFIX_LEN + payload.len()) as nat;
    let prefix = known_prefix(t);
    assert(type_prefix(amino_name(t)) is Some);
    assert(prefix.len() == PREFIX_LEN);
    let buf = encode_frame(t, payload);
    reveal_with_fuel(varint_encoding, 2);
    let w: int = if n < 0x80 { 1 } else { 2 };
    assert(varint_encoding(n).len() == w);
    assert(buf.take(w) =~= varint_encoding(n));
    if n < 0x80 {
        assert(varint_end(buf, 0) == Some(1int));
        let s = buf.take(w);
        assert(s.drop_first() =~= Seq::<u8>::empty());
        assert(varint_value(s.drop_first()) == 0);
        assert(s[0] == n as u8);
        assert(varint_value(s) == n);
    } else {
        assert(varint_end(buf, 1) == Some(2int));
        assert(varint_end(buf, 0) == Some(2int));
        let s = buf.take(w);
        let tail = s.drop_first();
        assert(tail.drop_first() =~= Seq::<u8>::empty());
        assert(varint_value(tail.drop_first()) == 0);
        assert(tail[0] == (n / 0x80) as u8);
        assert(varint_value(tail) == n / 0x80);
        assert(s[0] == (n % 0x80 + 0x80) as u8);
        assert(s[0] % 0x80 == n % 0x80);
        assert(varint_value(s) == n);
    }
    assert(buf.subrange(w, w + PREFIX_LEN) =~= prefix);
    assert(buf.subrange(w + PREFIX_LEN, w + n) =~= payload);
    assert(message_type_of(prefix) == Some(t)) by {
        lemma_known_prefixes_distinct();
    }
}

/// Building the response of a decoded request carries its payload back,
/// with no error.
pub proof fn lemma_response_echoes_request(req: Request, resp: Response)
    requires
        call_ensures(Request::build_response, (req,), resp),
    ensures
        resp.spec_type() == req.spec_type(),
        resp.spec_payload() == req.spec_payload(),
        !resp.spec_has_error(),
{
}

} // verus!
