//! Type prefixes: each known message type is recognised on the wire by four
//! bytes derived from the SHA-256 digest of its registered name.

use crate::digest::{sha256, sha256_of};
use crate::error::{KmsError, KmsErrorKind};
use vstd::prelude::*;
use vstd::string::StringSliceAdditionalSpecFns;

verus! {

/// Registered name of vote signing requests
pub const VOTE_AMINO_NAME: &'static str = "tendermint/remotesigner/SignVoteRequest";

/// Registered name of proposal signing requests
pub const PROPOSAL_AMINO_NAME: &'static str = "tendermint/remotesigner/SignProposalRequest";

/// Registered name of public key requests
pub const PUBKEY_AMINO_NAME: &'static str = "tendermint/remotesigner/PubKeyRequest";

/// Registered name of keep-alive requests
pub const PING_AMINO_NAME: &'static str = "tendermint/remotesigner/PingRequest";

/// Size of a type prefix in bytes
pub const PREFIX_LEN: usize = 4;

/// The known message types
#[derive(Copy, Clone, Debug, PartialEq, Eq, Structural)]
pub enum MessageType {
    /// A vote to sign
    Vote,
    /// A proposal to sign
    Proposal,
    /// A query for the public key
    PubKey,
    /// A keep-alive
    Ping,
}

/// The registered name of each message type, as bytes.
pub open spec fn amino_name(t: MessageType) -> Seq<u8> {
    match t {
        MessageType::Vote => VOTE_AMINO_NAME.spec_bytes(),
        MessageType::Proposal => PROPOSAL_AMINO_NAME.spec_bytes(),
        MessageType::PubKey => PUBKEY_AMINO_NAME.spec_bytes(),
        MessageType::Ping => PING_AMINO_NAME.spec_bytes(),
    }
}

/// `s` with its zero bytes left out, the others in order.
pub open spec fn drop_zeros(s: Seq<u8>) -> Seq<u8>
    decreases s.len(),
{
    if s.len() == 0 {
        s
    } else if s.last() == 0 {
        drop_zeros(s.drop_last())
    } else {
        drop_zeros(s.drop_last()).push(s.last())
    }
}

/// The prefix taken from a digest: leave out the zero bytes, skip three of
/// the rest, leave out the zero bytes again, and take the next four; none
/// where fewer than four remain.
pub open spec fn prefix_of_digest(d: Seq<u8>) -> Option<Seq<u8>> {
    let first = drop_zeros(d);
    if first.len() < 3 {
        None
    } else {
        let second = drop_zeros(first.skip(3));
        if second.len() < PREFIX_LEN {
            None
        } else {
            Some(second.take(PREFIX_LEN as int))
        }
    }
}

/// The prefix of the type registered under `name`.
pub open spec fn type_prefix(name: Seq<u8>) -> Option<Seq<u8>> {
    prefix_of_digest(sha256_of(name))
}

/// The prefix of a known message type (meaningful where `prefixes_valid` holds).
pub open spec fn known_prefix(t: MessageType) -> Seq<u8> {
    type_prefix(amino_name(t))->0
}

/// Each known type has a prefix, and no two of them share one.
pub open spec fn prefixes_valid() -> bool {
    &&& forall|t: MessageType| (#[trigger] type_prefix(amino_name(t))) is Some
    &&& forall|t: MessageType, u: MessageType|
        t != u ==> #[trigger] known_prefix(t) != #[trigger] known_prefix(u)
}

/// Where the prefixes are valid, the six pairs of known types have
/// different prefixes.
pub proof fn lemma_known_prefixes_distinct()
    requires
        prefixes_valid(),
    ensures
        known_prefix(MessageType::Vote) != known_prefix(MessageType::Proposal),
        known_prefix(MessageType::Vote) != known_prefix(MessageType::PubKey),
        known_prefix(MessageType::Vote) != known_prefix(MessageType::Ping),
        known_prefix(MessageType::Proposal) != known_prefix(MessageType::PubKey),
        known_prefix(MessageType::Proposal) != known_prefix(MessageType::Ping),
        known_prefix(MessageType::PubKey) != known_prefix(MessageType::Ping),
{
    assert(known_prefix(MessageType::Vote) != known_prefix(MessageType::Proposal));
    assert(known_prefix(MessageType::Vote) != known_prefix(MessageType::PubKey));
    assert(known_prefix(MessageType::Vote) != known_prefix(MessageType::Ping));
    assert(known_prefix(MessageType::Proposal) != known_prefix(MessageType::PubKey));
    assert(known_prefix(MessageType::Proposal) != known_prefix(MessageType::Ping));
    assert(known_prefix(MessageType::PubKey) != known_prefix(MessageType::Ping));
}

/// No zero byte is left after leaving out the zero bytes.
proof fn lemma_drop_zeros_nonzero(s: Seq<u8>)
    ensures
        forall|i: int| 0 <= i < drop_zeros(s).len() ==> #[trigger] drop_zeros(s)[i] != 0,
    decreases s.len(),
{
    if s.len() > 0 {
        lemma_drop_zeros_nonzero(s.drop_last());
        let r = drop_zeros(s.drop_last());
        if s.last() != 0 {
            assert forall|i: int| 0 <= i < r.push(s.last()).len() implies #[trigger] r.push(s.last())[i] != 0 by {
                if i < r.len() {
                    assert(r[i] != 0);
                }
            }
        }
    }
}

/// A prefix taken from a digest is four bytes, none of them zero.
pub proof fn lemma_prefix_nonzero(d: Seq<u8>)
    requires
        prefix_of_digest(d) is Some,
    ensures
        prefix_of_digest(d)->0.len() == PREFIX_LEN,
        forall|i: int| 0 <= i < PREFIX_LEN ==> #[trigger] prefix_of_digest(d)->0[i] != 0,
{
    let first = drop_zeros(d);
    lemma_drop_zeros_nonzero(first.skip(3));
}

/// The bytes of `s` from `start` on, without the zero bytes
fn without_zeros(s: &[u8], start: usize) -> (r: Vec<u8>)
    requires
        start <= s@.len(),
    ensures
        r@ == drop_zeros(s@.skip(start as int)),
{
    let mut r: Vec<u8> = Vec::new();
    let mut i: usize = start;
    while i < s.len()
        invariant
            start <= i <= s@.len(),
            r@ == drop_zeros(s@.subrange(start as int, i as int)),
        decreases s@.len() - i,
    {
        assert(s@.subrange(start as int, i + 1).drop_last() =~= s@.subrange(start as int, i as int));
        if s[i] != 0 {
            r.push(s[i]);
        }
        i = i + 1;
    }
    assert(s@.subrange(start as int, s@.len() as int) =~= s@.skip(start as int));
    r
}

/// The prefix of the type registered under `name`, or `None` where its
/// digest leaves fewer than four bytes
pub fn compute_prefix(name: &str) -> (r: Option<Vec<u8>>)
    ensures
        match type_prefix(name.spec_bytes()) {
            Some(p) => r matches Some(v) && v@ == p,
            None => r is None,
        },
        r matches Some(v) ==> v@.len() == PREFIX_LEN && forall|i: int| 0 <= i < PREFIX_LEN ==> #[trigger] v@[i] != 0,
{
    proof {
        if type_prefix(name.spec_bytes()) is Some {
            lemma_prefix_nonzero(sha256_of(name.spec_bytes()));
        }
    }
    let digest = sha256(name.as_bytes());
    let first = without_zeros(digest.as_slice(), 0);
    assert(digest@.skip(0) =~= digest@);
    if first.len() < 3 {
        return None;
    }
    let second = without_zeros(first.as_slice(), 3);
    if second.len() < PREFIX_LEN {
        return None;
    }
    let mut prefix: Vec<u8> = Vec::new();
    let mut i: usize = 0;
    while i < PREFIX_LEN
        invariant
            second@.len() >= PREFIX_LEN,
            i <= PREFIX_LEN,
            prefix@ == second@.take(i as int),
        decreases PREFIX_LEN - i,
    {
        assert(second@.take(i + 1) =~= second@.take(i as int).push(second@[i as int]));
        prefix.push(second[i]);
        i = i + 1;
    }
    Some(prefix)
}

/// The prefixes of the four known message types, computed once at start-up
/// and read-only afterwards
pub struct TypePrefixes {
    vote: Vec<u8>,
    proposal: Vec<u8>,
    pub_key: Vec<u8>,
    ping: Vec<u8>,
}

impl TypePrefixes {
    /// The prefix held for `t`.
    pub closed spec fn spec_prefix(&self, t: MessageType) -> Seq<u8> {
        match t {
            MessageType::Vote => self.vote@,
            MessageType::Proposal => self.proposal@,
            MessageType::PubKey => self.pub_key@,
            MessageType::Ping => self.ping@,
        }
    }

    /// Every prefix held is the one of its type, and the prefixes are distinct.
    pub open spec fn wf(&self) -> bool {
        &&& prefixes_valid()
        &&& forall|t: MessageType| #[trigger] self.spec_prefix(t) == known_prefix(t)
    }

    /// Compute the prefixes of the four known types; a configuration error
    /// where one cannot be computed or two coincide
    pub fn new() -> (r: Result<TypePrefixes, KmsError>)
        ensures
            r is Ok <==> prefixes_valid(),
            r matches Ok(p) ==> p.wf(),
            r matches Err(e) ==> e.kind == KmsErrorKind::ConfigError,
    {
        let vote = compute_prefix(VOTE_AMINO_NAME);
        let proposal = compute_prefix(PROPOSAL_AMINO_NAME);
        let pub_key = compute_prefix(PUBKEY_AMINO_NAME);
        let ping = compute_prefix(PING_AMINO_NAME);
        match (vote, proposal, pub_key, ping) {
            (Some(vote), Some(proposal), Some(pub_key), Some(ping)) => {
                let distinct = !bytes_eq(&vote, &proposal) && !bytes_eq(&vote, &pub_key)
                    && !bytes_eq(&vote, &ping) && !bytes_eq(&proposal, &pub_key)
                    && !bytes_eq(&proposal, &ping) && !bytes_eq(&pub_key, &ping);
                let p = TypePrefixes { vote, proposal, pub_key, ping };
                assert(forall|t: MessageType| #[trigger] p.spec_prefix(t) == known_prefix(t));
                if distinct {
                    assert(prefixes_valid()) by {
                        assert forall|t: MessageType, u: MessageType|
                            t != u implies #[trigger] known_prefix(t) != #[trigger] known_prefix(u) by {
                            assert(p.spec_prefix(t) == known_prefix(t));
                            assert(p.spec_prefix(u) == known_prefix(u));
                        }
                    }
                    Ok(p)
                } else {
                    assert(!prefixes_valid()) by {
                        if prefixes_valid() {
                            lemma_known_prefixes_distinct();
                        }
                    }
                    Err(KmsError::new(KmsErrorKind::ConfigError, None))
                }
            },
            _ => {
                assert(!prefixes_valid()) by {
                    if prefixes_valid() {
                        assert(type_prefix(amino_name(MessageType::Vote)) is Some);
                        assert(type_prefix(amino_name(MessageType::Proposal)) is Some);
                        assert(type_prefix(amino_name(MessageType::PubKey)) is Some);
                        assert(type_prefix(amino_name(MessageType::Ping)) is Some);
                    }
                }
                Err(KmsError::new(KmsErrorKind::ConfigError, None))
            },
        }
    }

    /// The prefix of the message type `t`
    pub fn prefix(&self, t: MessageType) -> (r: &Vec<u8>)
        requires
            self.wf(),
        ensures
            r@ == known_prefix(t),
            r@.len() == PREFIX_LEN,
    {
        proof {
            assert(self.spec_prefix(t) == known_prefix(t));
            assert(type_prefix(amino_name(t)) is Some);
        }
        match t {
            MessageType::Vote => &self.vote,
            MessageType::Proposal => &self.proposal,
            MessageType::PubKey => &self.pub_key,
            MessageType::Ping => &self.ping,
        }
    }
}

/// Do two byte strings hold the same bytes?
pub(crate) fn bytes_eq(a: &[u8], b: &[u8]) -> (r: bool)
    ensures
        r == (a@ == b@),
{
    if a.len() != b.len() {
        return false;
    }
    let mut i: usize = 0;
    while i < a.len()
        invariant
            a@.len() == b@.len(),
            i <= a@.len(),
            forall|j: int| 0 <= j < i ==> a@[j] == b@[j],
        decreases a@.len() - i,
    {
        if a[i] != b[i] {
            return false;
        }
        i = i + 1;
    }
    assert(a@ =~= b@);
    true
}

/// The prefixes never depend on the run: any two registries that were built
/// hold the same four prefixes, and within one the four are distinct.
pub proof fn lemma_prefixes_fixed_and_distinct(a: &TypePrefixes, b: &TypePrefixes, t: MessageType, u: MessageType)
    requires
        a.wf(),
        b.wf(),
    ensures
        a.spec_prefix(t) == b.spec_prefix(t),
        t != u ==> a.spec_prefix(t) != a.spec_prefix(u),
        a.spec_prefix(t).len() == PREFIX_LEN,
        forall|i: int| 0 <= i < PREFIX_LEN ==> #[trigger] a.spec_prefix(t)[i] != 0,
{
    assert(type_prefix(amino_name(t)) is Some);
    lemma_prefix_nonzero(sha256_of(amino_name(t)));
    assert(a.spec_prefix(t) == known_prefix(t));
    assert(b.spec_prefix(t) == known_prefix(t));
    assert(a.spec_prefix(u) == known_prefix(u));
}

} // verus!
