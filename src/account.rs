//! Account identifiers: 20 bytes taken from the digest of a public key.

use crate::digest::{sha256, sha256_of};
use crate::error::ConsensusError;
use subtle::ConstantTimeEq;
use subtle_encoding::hex;
use vstd::prelude::*;
use vstd::string::StringSliceAdditionalSpecFns;
use vstd::utf8::{encode_utf8, is_ascii_chars, is_ascii_chars_encode_utf8};

verus! {

/// Size of an account ID in bytes
pub const LENGTH: usize = 20;

/// Is `c` an ASCII hexadecimal digit of the given case (`0-9`, then `A-F` or `a-f`)?
pub open spec fn is_hex_digit(c: u8, upper: bool) -> bool {
    (0x30 <= c <= 0x39) || (upper && 0x41 <= c <= 0x46) || (!upper && 0x61 <= c <= 0x66)
}

/// Is `s` hexadecimal text of the given case: digits in pairs?
pub open spec fn is_hex_text(s: Seq<u8>, upper: bool) -> bool {
    s.len() % 2 == 0 && forall|i: int| 0 <= i < s.len() ==> is_hex_digit(#[trigger] s[i], upper)
}

/// The value of one hexadecimal digit.
pub open spec fn nibble_value(c: u8) -> int {
    if c <= 0x39 {
        c - 0x30
    } else if c <= 0x46 {
        c - 0x41 + 10
    } else {
        c - 0x61 + 10
    }
}

/// The bytes that hexadecimal text stands for, two digits a byte, high digit first.
pub open spec fn hex_decoded(s: Seq<u8>) -> Seq<u8> {
    Seq::new((s.len() / 2) as nat, |i: int| (nibble_value(s[2 * i]) * 16 + nibble_value(s[2 * i + 1])) as u8)
}

/// The upper-case hexadecimal digit of a value below 16.
pub open spec fn upper_digit(n: int) -> u8 {
    if n < 10 {
        (0x30 + n) as u8
    } else {
        (0x41 + n - 10) as u8
    }
}

/// Upper-case hexadecimal text of `b`, two digits a byte, high digit first.
pub open spec fn upper_hex(b: Seq<u8>) -> Seq<u8> {
    Seq::new(
        2 * b.len(),
        |i: int|
            if i % 2 == 0 {
                upper_digit(b[i / 2] as int / 16)
            } else {
                upper_digit(b[i / 2] as int % 16)
            },
    )
}

/// The same text, as characters.
pub open spec fn upper_hex_chars(b: Seq<u8>) -> Seq<char> {
    upper_hex(b).map_values(|c: u8| c as char)
}

/// Is `c` a hexadecimal digit of either case?
pub open spec fn is_any_hex_digit(c: u8) -> bool {
    is_hex_digit(c, true) || is_hex_digit(c, false)
}

/// The byte with an upper-case hexadecimal letter turned to lower case.
pub open spec fn hex_to_lower(c: u8) -> u8 {
    if 0x41 <= c <= 0x46 {
        (c + 0x20) as u8
    } else {
        c
    }
}

/// What an account ID written as text stands for: 40 hexadecimal digits,
/// in any mix of upper and lower case.
pub open spec fn parse_id(s: Seq<u8>) -> Option<Seq<u8>> {
    if s.len() == 2 * LENGTH && forall|i: int| 0 <= i < s.len() ==> is_any_hex_digit(#[trigger] s[i]) {
        Some(hex_decoded(s))
    } else {
        None
    }
}

#[verifier::external_type_specification]
#[verifier::external_body]
pub struct ExHexError(subtle_encoding::Error);

/// Relies on `subtle_encoding::hex::decode`: it accepts exactly the
/// even-length texts of digits and `a-f`, and decodes them two digits a byte.
#[verifier::external_body]
fn decode_lower_hex(s: &[u8]) -> (r: Result<Vec<u8>, subtle_encoding::Error>)
    ensures
        r is Ok <==> is_hex_text(s@, false),
        r matches Ok(v) ==> v@ == hex_decoded(s@),
{
    hex::decode(s)
}

/// Relies on std's `FromIterator<char>` for `String`: the string of these
/// characters, in order.
#[verifier::external_body]
fn string_of_chars(chars: Vec<char>) -> (r: String)
    ensures
        r@ == chars@,
{
    chars.into_iter().collect()
}

/// The upper-case hexadecimal digit of a value below 16
fn upper_digit_char(n: u8) -> (r: char)
    requires
        n < 16,
    ensures
        r == upper_digit(n as int) as char,
{
    if n < 10 {
        (0x30 + n) as char
    } else {
        (0x41 + n - 10) as char
    }
}

/// `text` with its upper-case hexadecimal letters turned to lower case
fn lower_hex_letters(text: &[u8]) -> (r: Vec<u8>)
    ensures
        r@ == text@.map_values(|c: u8| hex_to_lower(c)),
{
    let mut r: Vec<u8> = Vec::new();
    let mut i: usize = 0;
    while i < text.len()
        invariant
            i <= text@.len(),
            r@ == text@.take(i as int).map_values(|c: u8| hex_to_lower(c)),
        decreases text@.len() - i,
    {
        let c = text[i];
        let lowered = if 0x41 <= c && c <= 0x46 {
            c + 0x20
        } else {
            c
        };
        r.push(lowered);
        assert(text@.take(i + 1).map_values(|c: u8| hex_to_lower(c)) =~= text@.take(i as int).map_values(
            |c: u8| hex_to_lower(c),
        ).push(hex_to_lower(c)));
        i = i + 1;
    }
    assert(text@.take(text@.len() as int) =~= text@);
    r
}

/// Relies on `subtle::ConstantTimeEq` for byte slices: true exactly when both
/// slices hold the same bytes, in time independent of their contents.
#[verifier::external_body]
fn ct_eq_bytes(a: &[u8], b: &[u8]) -> (r: bool)
    ensures
        r == (a@ == b@),
{
    bool::from(a.ct_eq(b))
}

/// Account IDs
#[derive(Copy, Clone, Hash)]
pub struct Id([u8; LENGTH]);

impl View for Id {
    type V = Seq<u8>;

    closed spec fn view(&self) -> Seq<u8> {
        self.0@
    }
}

impl Id {
    /// Create a new account ID from raw bytes
    pub fn new(bytes: [u8; LENGTH]) -> (r: Id)
        ensures
            r@ == bytes@,
    {
        Id(bytes)
    }

    /// Borrow the account ID as a byte slice
    pub fn as_bytes(&self) -> (r: &[u8])
        ensures
            r@ == self@,
            r@.len() == LENGTH,
    {
        self.0.as_slice()
    }

    /// The account ID of a public key: the first 20 bytes of the SHA-256
    /// digest of the key's encoded bytes
    pub fn from_public_key(public_key: &[u8]) -> (r: Id)
        ensures
            r@ == sha256_of(public_key@).take(LENGTH as int),
    {
        let digest = sha256(public_key);
        let mut bytes = [0u8; LENGTH];
        let mut i: usize = 0;
        while i < LENGTH
            invariant
                digest@.len() == 32,
                0 <= i <= LENGTH,
                forall|j: int| 0 <= j < i ==> bytes@[j] == digest@[j],
            decreases LENGTH - i,
        {
            bytes[i] = digest[i];
            i = i + 1;
        }
        assert(bytes@ =~= digest@.take(LENGTH as int));
        Id(bytes)
    }

    /// Decode an account ID from 40 hexadecimal digits, upper or lower case
    pub fn parse(s: &str) -> (r: Result<Id, ConsensusError>)
        ensures
            match parse_id(s.spec_bytes()) {
                Some(b) => r matches Ok(id) && id@ == b,
                None => r == Err::<Id, ConsensusError>(ConsensusError::Parse),
            },
    {
        let text = s.as_bytes();
        let lowered = lower_hex_letters(text);
        proof {
            lemma_lowered_hex(text@, lowered@);
        }
        let bytes = match decode_lower_hex(lowered.as_slice()) {
            Ok(v) => v,
            Err(_) => return Err(ConsensusError::Parse),
        };
        if bytes.len() != LENGTH {
            return Err(ConsensusError::Parse);
        }
        let mut result = [0u8; LENGTH];
        let mut i: usize = 0;
        while i < LENGTH
            invariant
                bytes@.len() == LENGTH,
                0 <= i <= LENGTH,
                forall|j: int| 0 <= j < i ==> result@[j] == bytes@[j],
            decreases LENGTH - i,
        {
            result[i] = bytes[i];
            i = i + 1;
        }
        assert(result@ =~= bytes@);
        Ok(Id(result))
    }

    /// The ID as 40 upper-case hexadecimal digits
    pub fn to_hex_string(&self) -> (r: String)
        ensures
            r@ == upper_hex_chars(self@),
    {
        let mut chars: Vec<char> = Vec::new();
        let mut i: usize = 0;
        while i < LENGTH
            invariant
                self@.len() == LENGTH,
                i <= LENGTH,
                chars@ == upper_hex_chars(self@.take(i as int)),
            decreases LENGTH - i,
        {
            let b = self.0[i];
            chars.push(upper_digit_char(b / 16));
            chars.push(upper_digit_char(b % 16));
            assert(chars@ =~= upper_hex_chars(self@.take(i + 1))) by {
                let prev = self@.take(i as int);
                let next = self@.take(i + 1);
                assert forall|k: int| 0 <= k < 2 * i implies #[trigger] upper_hex(next)[k] == upper_hex(prev)[k] by {
                    assert(k / 2 < i);
                }
                assert((2 * i) / 2 == i);
                assert((2 * i + 1) / 2 == i);
            }
            i = i + 1;
        }
        assert(self@.take(LENGTH as int) =~= self@);
        string_of_chars(chars)
    }

    /// Compare two IDs in time independent of their contents
    pub fn ct_eq(&self, other: &Id) -> (r: bool)
        ensures
            r == (self@ == other@),
    {
        ct_eq_bytes(self.as_bytes(), other.as_bytes())
    }
}

impl PartialEq for Id {
    fn eq(&self, other: &Id) -> (r: bool) {
        self.ct_eq(other)
    }
}

impl vstd::std_specs::cmp::PartialEqSpecImpl for Id {
    open spec fn obeys_eq_spec() -> bool {
        true
    }

    open spec fn eq_spec(&self, other: &Id) -> bool {
        self@ == other@
    }
}

impl Eq for Id {
}

impl AsRef<[u8]> for Id {
    fn as_ref(&self) -> (r: &[u8])
        ensures
            r@ == self@,
    {
        self.as_bytes()
    }
}

impl std::str::FromStr for Id {
    type Err = ConsensusError;

    fn from_str(s: &str) -> (r: Result<Id, ConsensusError>)
        ensures
            match parse_id(s.spec_bytes()) {
                Some(b) => r matches Ok(id) && id@ == b,
                None => r == Err::<Id, ConsensusError>(ConsensusError::Parse),
            },
    {
        Id::parse(s)
    }
}

/// Turning the letters of hexadecimal text to lower case keeps what it
/// stands for, and leaves lower-case hexadecimal text exactly where the
/// text held digits of either case.
proof fn lemma_lowered_hex(s: Seq<u8>, l: Seq<u8>)
    requires
        l == s.map_values(|c: u8| hex_to_lower(c)),
    ensures
        l.len() == s.len(),
        (forall|i: int| 0 <= i < l.len() ==> is_hex_digit(#[trigger] l[i], false)) <==> (forall|i: int|
            0 <= i < s.len() ==> is_any_hex_digit(#[trigger] s[i])),
        (forall|i: int| 0 <= i < s.len() ==> is_any_hex_digit(#[trigger] s[i])) ==> hex_decoded(l)
            == hex_decoded(s),
{
    assert forall|i: int| 0 <= i < l.len() implies (is_hex_digit(#[trigger] l[i], false) <==> is_any_hex_digit(s[i])) && (
    is_any_hex_digit(s[i]) ==> nibble_value(l[i]) == nibble_value(s[i])) by {
        assert(l[i] == hex_to_lower(s[i]));
    }
    if forall|i: int| 0 <= i < s.len() ==> is_any_hex_digit(#[trigger] s[i]) {
        assert forall|i: int| 0 <= i < l.len() implies is_hex_digit(#[trigger] l[i], false) by {
            assert(l[i] == hex_to_lower(s[i]));
        }
        assert(hex_decoded(l) =~= hex_decoded(s)) by {
            assert forall|i: int| 0 <= i < hex_decoded(s).len() implies #[trigger] hex_decoded(l)[i] == hex_decoded(s)[i] by {
                assert(l[2 * i] == hex_to_lower(s[2 * i]));
                assert(l[2 * i + 1] == hex_to_lower(s[2 * i + 1]));
                assert(is_any_hex_digit(s[2 * i]));
                assert(is_any_hex_digit(s[2 * i + 1]));
            }
        }
    }
    if forall|i: int| 0 <= i < l.len() ==> is_hex_digit(#[trigger] l[i], false) {
        assert forall|i: int| 0 <= i < s.len() implies is_any_hex_digit(#[trigger] s[i]) by {
            assert(is_hex_digit(l[i], false));
        }
    }
}

/// A value below 16 written as an upper-case digit reads back as itself.
proof fn lemma_upper_digit(n: int)
    requires
        0 <= n < 16,
    ensures
        is_hex_digit(upper_digit(n), true),
        nibble_value(upper_digit(n)) == n,
        upper_digit(n) <= 0x7f,
{
}

/// Writing 20 bytes as hexadecimal and parsing the text gives the same
/// bytes back.
pub proof fn lemma_hex_round_trip(b: Seq<u8>)
    requires
        b.len() == LENGTH,
    ensures
        parse_id(encode_utf8(upper_hex_chars(b))) == Some(b),
{
    let h = upper_hex(b);
    let chars = upper_hex_chars(b);
    assert forall|i: int| 0 <= i < h.len() implies is_hex_digit(#[trigger] h[i], true) && h[i] <= 0x7f by {
        lemma_upper_digit(b[i / 2] as int / 16);
        lemma_upper_digit(b[i / 2] as int % 16);
    }
    assert(is_ascii_chars(chars)) by {
        assert forall|i: int| 0 <= i < chars.len() implies '\0' <= #[trigger] chars[i] <= '\u{7f}' by {
            assert(h[i] <= 0x7f);
        }
    }
    is_ascii_chars_encode_utf8(chars);
    assert(encode_utf8(chars) =~= h) by {
        assert forall|i: int| 0 <= i < h.len() implies #[trigger] encode_utf8(chars)[i] == h[i] by {
            assert(chars[i] as u8 == encode_utf8(chars)[i]);
        }
    }
    assert(forall|i: int| 0 <= i < h.len() ==> is_any_hex_digit(#[trigger] h[i]));
    assert(hex_decoded(h) =~= b) by {
        assert forall|i: int| 0 <= i < b.len() implies #[trigger] hex_decoded(h)[i] == b[i] by {
            let hi = b[i] as int / 16;
            let lo = b[i] as int % 16;
            lemma_upper_digit(hi);
            lemma_upper_digit(lo);
            assert((2 * i) / 2 == i);
            assert((2 * i + 1) / 2 == i);
            assert(h[2 * i] == upper_digit(hi));
            assert(h[2 * i + 1] == upper_digit(lo));
            assert(hi * 16 + lo == b[i]);
        }
    }
}

/// Text that is not 40 hexadecimal digits is refused.
pub proof fn lemma_parse_rejects_malformed(s: Seq<u8>)
    requires
        s.len() != 2 * LENGTH || exists|i: int| 0 <= i < s.len() && !is_any_hex_digit(#[trigger] s[i]),
    ensures
        parse_id(s) is None,
{
}

} // verus!
