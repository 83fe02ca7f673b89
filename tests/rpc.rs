use tmkms::amino::compute_prefix;
use tmkms::rpc::{PingRequest, SignProposalRequest, SignVoteRequest};
use tmkms::{
    FrameError, KmsErrorKind, MessageType, Request, Response, TendermintRequest, TypePrefixes,
    MAX_MSG_LEN,
};

const TYPES: [MessageType; 4] = [
    MessageType::Vote,
    MessageType::Proposal,
    MessageType::PubKey,
    MessageType::Ping,
];

fn prefixes() -> TypePrefixes {
    TypePrefixes::new().ok().expect("prefixes of the known types")
}

fn frame(prefix: &[u8], payload: &[u8]) -> Vec<u8> {
    let len = prefix.len() + payload.len();
    let mut out = Vec::new();
    if len < 0x80 {
        out.push(len as u8);
    } else {
        out.push((len % 0x80 + 0x80) as u8);
        out.push((len / 0x80) as u8);
    }
    out.extend_from_slice(prefix);
    out.extend_from_slice(payload);
    out
}

fn payload_of(req: &Request) -> (MessageType, Vec<u8>) {
    match req {
        Request::SignVote(r) => (MessageType::Vote, r.vote.clone()),
        Request::SignProposal(r) => (MessageType::Proposal, r.proposal.clone()),
        Request::ShowPublicKey(r) => (MessageType::PubKey, r.payload.clone()),
        Request::ReplyPing(r) => (MessageType::Ping, r.payload.clone()),
    }
}

#[test]
fn compute_prefix_skips_and_takes_nonzero_digest_bytes() {
    // sha256("abc") = ba7816bf 8f01cfea ...
    assert_eq!(compute_prefix("abc"), Some(vec![0xbf, 0x8f, 0x01, 0xcf]));
    // sha256("") = e3b0c442 98fc1c14 ...
    assert_eq!(compute_prefix(""), Some(vec![0x42, 0x98, 0xfc, 0x1c]));
}

#[test]
fn prefixes_are_deterministic_and_distinct() {
    let a = prefixes();
    let b = prefixes();
    for t in TYPES {
        assert_eq!(a.prefix(t), b.prefix(t));
        assert_eq!(a.prefix(t).len(), 4);
    }
    for (i, t) in TYPES.iter().enumerate() {
        for u in TYPES.iter().skip(i + 1) {
            assert_ne!(a.prefix(*t), a.prefix(*u));
        }
    }
    assert_eq!(
        a.prefix(MessageType::Vote),
        &compute_prefix("tendermint/remotesigner/SignVoteRequest").unwrap()
    );
}

#[test]
fn ping_frame_decodes_and_is_echoed() {
    let p = prefixes();
    let mut buf = vec![0x05];
    buf.extend_from_slice(p.prefix(MessageType::Ping));
    buf.push(0x2a);
    let req = Request::read(&buf, &p).ok().expect("ping request");
    assert!(matches!(&req, Request::ReplyPing(r) if r.payload == vec![0x2a]));
    match req.build_response() {
        Response::Ping(r) => assert_eq!(r.payload, vec![0x2a]),
        _ => panic!("expected a ping response"),
    }
}

#[test]
fn oversized_frame_is_refused() {
    let p = prefixes();
    // 2000 = 0xd0 0x0f as a varint
    let mut buf = vec![0xd0, 0x0f];
    buf.extend_from_slice(p.prefix(MessageType::Vote));
    buf.extend_from_slice(&[1, 2, 3]);
    let err = Request::read(&buf, &p).err();
    assert_eq!(err, Some(FrameError::TooLarge));
    let kms = FrameError::TooLarge.into_kms_error();
    assert_eq!(kms.kind(), KmsErrorKind::ProtocolError);
    assert_eq!(kms.cause().unwrap(), "RPC message too large.");
}

#[test]
fn largest_frame_is_accepted() {
    let p = prefixes();
    let payload = vec![7u8; MAX_MSG_LEN - 4];
    let buf = frame(p.prefix(MessageType::Vote), &payload);
    assert_eq!(buf.len(), MAX_MSG_LEN + 2);
    let req = Request::read(&buf, &p).ok().unwrap();
    assert_eq!(payload_of(&req), (MessageType::Vote, payload));
    let too_big = frame(p.prefix(MessageType::Vote), &vec![7u8; MAX_MSG_LEN - 3]);
    assert_eq!(Request::read(&too_big, &p).err(), Some(FrameError::TooLarge));
}

#[test]
fn short_reads_are_refused() {
    let p = prefixes();
    assert_eq!(Request::read(&[], &p).err(), Some(FrameError::TooShort));
    assert_eq!(Request::read(&[0x05, 1, 2], &p).err(), Some(FrameError::TooShort));
    let mut buf = vec![0x08];
    buf.extend_from_slice(p.prefix(MessageType::Ping));
    buf.push(1);
    assert_eq!(Request::read(&buf, &p).err(), Some(FrameError::Truncated));
    assert_eq!(
        FrameError::TooShort.into_kms_error().kind(),
        KmsErrorKind::IoError
    );
}

#[test]
fn invalid_length_field_is_refused() {
    let p = prefixes();
    let buf = vec![0xff; 12];
    assert_eq!(Request::read(&buf, &p).err(), Some(FrameError::InvalidLength));
}

#[test]
fn unknown_prefix_is_refused() {
    let p = prefixes();
    let mut unknown = vec![0u8; 4];
    for b in 0..=255u8 {
        unknown = vec![b, b, b, b];
        if TYPES.iter().all(|t| p.prefix(*t) != &unknown) {
            break;
        }
    }
    let buf = frame(&unknown, &[1, 2, 3]);
    assert_eq!(Request::read(&buf, &p).err(), Some(FrameError::UnknownMessage));
    // a zero length carries no prefix at all
    assert_eq!(Request::read(&[0, 0, 0, 0], &p).err(), Some(FrameError::UnknownMessage));
    let kms = FrameError::UnknownMessage.into_kms_error();
    assert_eq!(kms.kind(), KmsErrorKind::ProtocolError);
    assert_eq!(kms.cause().unwrap(), "Received unknown RPC message.");
}

#[test]
fn trailing_bytes_after_frame_are_ignored() {
    let p = prefixes();
    let mut buf = frame(p.prefix(MessageType::Proposal), &[9, 8]);
    buf.extend_from_slice(&[0xee; 20]);
    let req = Request::read(&buf, &p).ok().unwrap();
    assert_eq!(payload_of(&req), (MessageType::Proposal, vec![9, 8]));
}

#[test]
fn encode_then_read_round_trips() {
    let p = prefixes();
    let requests = vec![
        Request::SignVote(SignVoteRequest { vote: vec![1, 2, 3] }),
        Request::SignProposal(SignProposalRequest { proposal: vec![0; 200] }),
        Request::ShowPublicKey(tmkms::rpc::PubKeyRequest { payload: vec![] }),
        Request::ReplyPing(PingRequest { payload: vec![0x2a] }),
    ];
    for req in requests {
        let bytes = req.encode(&p).ok().unwrap();
        let back = Request::read(&bytes, &p).ok().unwrap();
        assert_eq!(payload_of(&back), payload_of(&req));
    }
    let vote = Request::SignVote(SignVoteRequest { vote: vec![1, 2, 3] });
    let mut expected = vec![0x07];
    expected.extend_from_slice(p.prefix(MessageType::Vote));
    expected.extend_from_slice(&[1, 2, 3]);
    assert_eq!(vote.encode(&p).ok().unwrap(), expected);
    let big = Request::SignVote(SignVoteRequest { vote: vec![0; MAX_MSG_LEN] });
    assert_eq!(big.encode(&p).err(), Some(FrameError::TooLarge));
}

#[test]
fn signing_requests_build_unsigned_responses() {
    match (SignVoteRequest { vote: vec![4, 5] }).build_response() {
        Response::SignedVote(r) => {
            assert_eq!(r.vote, vec![4, 5]);
            assert!(r.err.is_none());
        }
        _ => panic!("expected a signed vote response"),
    }
    match (SignProposalRequest { proposal: vec![6] }).build_response() {
        Response::SignedProposal(r) => {
            assert_eq!(r.proposal, vec![6]);
            assert!(r.err.is_none());
        }
        _ => panic!("expected a signed proposal response"),
    }
    match Request::ShowPublicKey(tmkms::rpc::PubKeyRequest { payload: vec![3] }).build_response() {
        Response::PublicKey(r) => {
            assert_eq!(r.payload, vec![3]);
            assert!(r.pub_key_ed25519.is_empty());
        }
        _ => panic!("expected a public key response"),
    }
}
