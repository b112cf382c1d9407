//! Bundle identifiers: sixteen random bytes with a base58 text.

use base58::{FromBase58, FromBase58Error, ToBase58};
use uuid::Uuid;
use vstd::prelude::*;

use crate::error::RepositoryError;

verus! {

/// Number of bytes in an identifier.
pub const ID_LEN: usize = 16;

/// Longest text, in characters, that is handed to the base58 decoder. The
/// decoder works in a buffer of this many bytes and must not be given more.
pub const MAX_TEXT_LEN: usize = 132;

/// Longest byte string whose base58 text the decoder is known to take back.
pub const MAX_CODEC_LEN: usize = 128;

/// The base58 text of a byte string, as the `base58` crate writes it.
pub uninterp spec fn base58_encoding(bytes: Seq<u8>) -> Seq<char>;

/// The byte string that the `base58` crate reads from a text, if it reads one.
pub uninterp spec fn base58_decoding(text: Seq<char>) -> Option<Seq<u8>>;

/// The characters of the base58 alphabet: digits and letters without `0`,
/// `I`, `O` and `l`.
pub open spec fn is_base58_char(c: char) -> bool {
    ||| '1' <= c <= '9'
    ||| 'A' <= c <= 'H'
    ||| 'J' <= c <= 'N'
    ||| 'P' <= c <= 'Z'
    ||| 'a' <= c <= 'k'
    ||| 'm' <= c <= 'z'
}

/// Every character of the text is of the base58 alphabet.
pub open spec fn all_base58(text: Seq<char>) -> bool {
    forall|i: int| 0 <= i < text.len() ==> is_base58_char(#[trigger] text[i])
}

/// `base58::FromBase58Error`, carried through unread.
#[verifier::external_type_specification]
#[verifier::external_body]
pub struct ExFromBase58Error(FromBase58Error);

/// `uuid::Error`, carried through unread.
#[verifier::external_type_specification]
#[verifier::external_body]
pub struct ExUuidError(uuid::Error);

/// `base58::ToBase58::to_base58` on a byte slice.
///
/// Trusted: the text is the crate's encoding of the bytes; it is made of
/// alphabet characters only, is empty only for no bytes and is at most
/// `len * 138 / 100 + 1` long, the size of the digit buffer plus the leading
/// `1`s; and the crate's decoder reads the same bytes back from it, which
/// holds for inputs of up to 128 bytes.
#[verifier::external_body]
fn base58_encode(bytes: &[u8]) -> (text: String)
    requires
        bytes@.len() <= MAX_CODEC_LEN,
    ensures
        text@ == base58_encoding(bytes@),
        all_base58(text@),
        bytes@.len() > 0 ==> text@.len() > 0,
        text@.len() <= bytes@.len() * 138 / 100 + 1,
        base58_decoding(text@) == Some(bytes@),
{
    bytes.to_base58()
}

/// `base58::FromBase58::from_base58` on a string slice.
///
/// Trusted: the result is the crate's decoding of the text, and on a text of
/// at most 132 characters the decoder fails exactly when a character is not of
/// the alphabet. Longer texts are kept away from it: on some of them it
/// panics.
#[verifier::external_body]
fn base58_decode(text: &str) -> (decoded: Result<Vec<u8>, FromBase58Error>)
    requires
        text@.len() <= MAX_TEXT_LEN,
    ensures
        match decoded {
            Ok(bytes) => base58_decoding(text@) == Some(bytes@),
            Err(_) => base58_decoding(text@) is None,
        },
        decoded is Ok <==> all_base58(text@),
{
    text.from_base58()
}

/// `uuid::Uuid::new_v4`, read as its sixteen bytes.
///
/// Trusted: whatever the random source gave, the version nibble is 4 and the
/// variant bits are `10`. The call panics where the operating system has no
/// random bytes to give.
#[verifier::external_body]
fn uuid_new_v4() -> (bytes: [u8; 16])
    ensures
        is_version4(bytes@),
{
    Uuid::new_v4().into_bytes()
}

/// `uuid::Uuid::from_slice`, read as its sixteen bytes.
///
/// Trusted: a slice of sixteen bytes is taken as it is, any other length is
/// refused.
#[verifier::external_body]
fn uuid_from_slice(bytes: &[u8]) -> (taken: Result<[u8; 16], uuid::Error>)
    ensures
        taken is Ok <==> bytes@.len() == ID_LEN,
        taken matches Ok(b) ==> b@ == bytes@,
{
    match Uuid::from_slice(bytes) {
        Ok(id) => Ok(id.into_bytes()),
        Err(e) => Err(e),
    }
}

/// Sixteen bytes that carry the marks of a random identifier: version 4 in
/// the high half of byte 6, variant `10` in the top bits of byte 8.
pub open spec fn is_version4(bytes: Seq<u8>) -> bool {
    &&& bytes.len() == ID_LEN
    &&& bytes[6] & 0xf0 == 0x40
    &&& bytes[8] & 0xc0 == 0x80
}

/// The two byte strings hold the same bytes at every place before `k`.
pub open spec fn agree_before(a: Seq<u8>, b: Seq<u8>, k: int) -> bool {
    forall|j: int| 0 <= j < k ==> a[j] == b[j]
}

/// `k` is the first place where the two differ, and `a` holds the smaller
/// byte there.
pub open spec fn smaller_at(a: Seq<u8>, b: Seq<u8>, k: int) -> bool {
    &&& 0 <= k < a.len()
    &&& k < b.len()
    &&& agree_before(a, b, k)
    &&& a[k] < b[k]
}

/// The order of identifiers: byte strings of one length, compared byte by
/// byte from the front.
pub open spec fn bytes_precede(a: Seq<u8>, b: Seq<u8>) -> bool {
    exists|k: int| #[trigger] smaller_at(a, b, k)
}

/// No byte string precedes itself, and of two that differ one precedes the
/// other but not both.
pub proof fn lemma_precede_total(a: Seq<u8>, b: Seq<u8>)
    requires
        a.len() == b.len(),
    ensures
        !bytes_precede(a, a),
        a != b ==> bytes_precede(a, b) || bytes_precede(b, a),
        !(bytes_precede(a, b) && bytes_precede(b, a)),
{
    assert forall|k: int| !smaller_at(a, a, k) by {}
    if bytes_precede(a, b) && bytes_precede(b, a) {
        let k = choose|k: int| smaller_at(a, b, k);
        let m = choose|m: int| smaller_at(b, a, m);
        if k < m {
            assert(b[k] == a[k]);
        } else if m < k {
            assert(a[m] == b[m]);
        }
    }
    if a != b {
        lemma_first_difference(a, b, 0);
    }
}

/// Two byte strings of one length that agree before `from` and differ
/// somewhere are ordered one way or the other.
proof fn lemma_first_difference(a: Seq<u8>, b: Seq<u8>, from: int)
    requires
        a.len() == b.len(),
        0 <= from <= a.len(),
        agree_before(a, b, from),
        a != b,
    ensures
        bytes_precede(a, b) || bytes_precede(b, a),
    decreases a.len() - from,
{
    if from == a.len() {
        assert(a =~= b);
    } else if a[from] < b[from] {
        assert(smaller_at(a, b, from));
    } else if b[from] < a[from] {
        assert(agree_before(b, a, from));
        assert(smaller_at(b, a, from));
    } else {
        lemma_first_difference(a, b, from + 1);
    }
}

/// The order is transitive.
pub proof fn lemma_precede_transitive(a: Seq<u8>, b: Seq<u8>, c: Seq<u8>)
    requires
        bytes_precede(a, b),
        bytes_precede(b, c),
    ensures
        bytes_precede(a, c),
{
    let k = choose|k: int| smaller_at(a, b, k);
    let m = choose|m: int| smaller_at(b, c, m);
    let n = if k < m {
        k
    } else {
        m
    };
    assert(agree_before(a, c, n));
    assert(smaller_at(a, c, n));
}

/// The identifier of a bundle.
#[derive(Debug, Clone, Copy, Hash, PartialEq, Eq, PartialOrd, Ord)]
pub struct DocId {
    bytes: [u8; 16],
}

impl View for DocId {
    type V = Seq<u8>;

    closed spec fn view(&self) -> Seq<u8> {
        self.bytes@
    }
}

impl DocId {
    /// The text of an identifier: the base58 encoding of its bytes.
    pub open spec fn text(self) -> Seq<char> {
        base58_encoding(self@)
    }

    /// The bytes that a text stands for, if it is the text of an identifier:
    /// it is short enough for the decoder, decodes, and decodes to sixteen
    /// bytes.
    pub open spec fn parsed(text: Seq<char>) -> Option<Seq<u8>> {
        if text.len() <= MAX_TEXT_LEN {
            match base58_decoding(text) {
                Some(bytes) => if bytes.len() == ID_LEN {
                    Some(bytes)
                } else {
                    None
                },
                None => None,
            }
        } else {
            None
        }
    }

    /// An identifier always has sixteen bytes, and the bytes are all there is
    /// to it.
    pub proof fn lemma_view(self, other: DocId)
        ensures
            self@.len() == ID_LEN,
            self@ == other@ ==> self == other,
    {
        if self@ == other@ {
            assert(self.bytes@ =~= other.bytes@);
            assert(self.bytes == other.bytes);
        }
    }

    /// The identifier with the given bytes.
    pub fn from_bytes(bytes: [u8; 16]) -> (id: DocId)
        ensures
            id@ == bytes@,
    {
        DocId { bytes }
    }

    /// The bytes of the identifier.
    pub fn as_bytes(&self) -> (bytes: &[u8; 16])
        ensures
            bytes@ == self@,
    {
        &self.bytes
    }

    /// Whether this identifier comes before the other in the order of
    /// identifiers.
    pub fn precedes(&self, other: &DocId) -> (before: bool)
        ensures
            before == bytes_precede(self@, other@),
    {
        let mut i: usize = 0;
        while i < ID_LEN
            invariant
                i <= ID_LEN,
                agree_before(self@, other@, i as int),
            decreases ID_LEN - i,
        {
            if self.bytes[i] < other.bytes[i] {
                assert(smaller_at(self@, other@, i as int));
                return true;
            }
            if self.bytes[i] > other.bytes[i] {
                assert forall|k: int| !smaller_at(self@, other@, k) by {
                    if smaller_at(self@, other@, k) && k > i {
                        assert(self@[i as int] == other@[i as int]);
                    }
                }
                return false;
            }
            i += 1;
        }
        assert(self@ =~= other@);
        proof {
            lemma_precede_total(self@, other@);
        }
        false
    }

    /// Whether the two identifiers have the same bytes.
    pub fn same(&self, other: &DocId) -> (equal: bool)
        ensures
            equal == (self@ == other@),
            equal == (*self == *other),
    {
        let mut i: usize = 0;
        while i < ID_LEN
            invariant
                i <= ID_LEN,
                agree_before(self@, other@, i as int),
            decreases ID_LEN - i,
        {
            if self.bytes[i] != other.bytes[i] {
                return false;
            }
            i += 1;
        }
        assert(self@ =~= other@);
        proof {
            self.lemma_view(*other);
        }
        true
    }

    /// A fresh identifier from the operating system's random source. No
    /// collision check is made.
    pub fn random() -> (id: DocId)
        ensures
            is_version4(id@),
    {
        DocId { bytes: uuid_new_v4() }
    }

    /// The text of the identifier. Parsing it gives the identifier back.
    pub fn to_base58(&self) -> (text: String)
        ensures
            text@ == self.text(),
            DocId::parsed(text@) == Some(self@),
            all_base58(text@),
            0 < text@.len() <= 23,
    {
        base58_encode(self.bytes.as_slice())
    }

    /// The text of the identifier, as it is shown and as the bundle's
    /// directory is named.
    pub fn to_string(&self) -> (text: String)
        ensures
            text@ == self.text(),
            DocId::parsed(text@) == Some(self@),
            all_base58(text@),
            0 < text@.len() <= 23,
    {
        self.to_base58()
    }

    /// Reads an identifier from its text.
    ///
    /// Succeeds exactly on a text that is made of alphabet characters and
    /// decodes to sixteen bytes. Every other text is an invalid identifier.
    pub fn from_str(s: &str) -> (id: Result<DocId, RepositoryError>)
        ensures
            match id {
                Ok(id) => DocId::parsed(s@) == Some(id@),
                Err(e) => e == RepositoryError::InvalidIdentifier && DocId::parsed(s@) is None,
            },
            id is Ok <==> {
                &&& s@.len() <= MAX_TEXT_LEN
                &&& all_base58(s@)
                &&& base58_decoding(s@) matches Some(bytes)
                &&& bytes.len() == ID_LEN
            },
    {
        if s.unicode_len() > MAX_TEXT_LEN {
            return Err(RepositoryError::InvalidIdentifier);
        }
        match base58_decode(s) {
            Err(_) => Err(RepositoryError::InvalidIdentifier),
            Ok(decoded) => match uuid_from_slice(decoded.as_slice()) {
                Ok(bytes) => Ok(DocId { bytes }),
                Err(_) => Err(RepositoryError::InvalidIdentifier),
            },
        }
    }
}

} // verus!
