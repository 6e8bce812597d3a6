//! Names: the hash of a public key, and its printable form.
//!
//! A name is a multihash. For the keys this library makes it is the identity hash, so the
//! name holds the key itself; a name may also hold a SHA-256 digest of a key, and then the
//! key has to come from elsewhere. In bytes a name is framed as a version-1 content
//! identifier of a libp2p key: the bytes 1 and 0x72, then the hash code, the digest's length
//! and the digest, the last two numbers as varints. Its printable form is those bytes in
//! base 36 with the multibase prefix `k`.

use crate::bytes::append_bytes;
use crate::error::{InvalidKey, InvalidName, KeyNotEmbedded};
use crate::keys::{
    decode_public_key, decoded_public_key, generate_keypair, keypair_public, Keypair, PublicKey,
};
use crate::varint::{
    lemma_parse_varint_of_encoding, parse_varint, read_varint, varint, write_varint,
};
use vstd::prelude::*;
use vstd::slice::{slice_subrange, slice_to_vec};

verus! {

/// The text of `bytes` in base 36 with lower-case letters and the multibase prefix `k`: what
/// `multibase::encode` writes for `Base::Base36Lower`.
pub uninterp spec fn base36_text(bytes: Seq<u8>) -> Seq<char>;

/// What `multibase::decode` reads from `text`: the code of the base it is written in and the
/// bytes it stands for; `None` where it reads nothing.
pub uninterp spec fn multibase_decoded(text: Seq<char>) -> Option<(char, Seq<u8>)>;

/// Calls `multibase::encode` with `Base::Base36Lower`. The contract names the result, and
/// tells that it begins with the code of the base, which `multibase::encode` puts in front.
#[verifier::external_body]
pub(crate) fn encode_base36(bytes: &[u8]) -> (text: String)
    ensures
        text@ == base36_text(bytes@),
        text@.len() >= 1,
        text@[0] == BASE36_LOWER,
{
    multibase::encode(multibase::Base::Base36Lower, bytes)
}

/// Calls `multibase::decode`, and `Base::code` on the base that comes out. The contract only
/// names the result.
#[verifier::external_body]
pub(crate) fn decode_multibase(text: &str) -> (decoded: Option<(char, Vec<u8>)>)
    ensures
        match multibase_decoded(text@) {
            Some((code, bytes)) => decoded matches Some((c, b)) && c == code && b@ == bytes,
            None => decoded is None,
        },
{
    match multibase::decode(text) {
        Ok((base, bytes)) => Some((base.code(), bytes)),
        Err(_) => None,
    }
}

/// The multibase code of base 36 with lower-case letters.
pub const BASE36_LOWER: char = 'k';

/// The version of the content identifier that frames a name.
pub const CID_VERSION: u8 = 1;

/// The content type of a libp2p key.
pub const LIBP2P_KEY: u8 = 0x72;

/// The code of the identity hash, whose digest is its input.
pub const IDENTITY: u64 = 0x00;

/// The code of SHA-256.
pub const SHA2_256: u64 = 0x12;

/// The length of a SHA-256 digest.
pub const SHA2_256_LENGTH: usize = 32;

/// What a name holds, as mathematical values: the code of its hash, and the digest.
pub struct NameView {
    pub code: nat,
    pub digest: Seq<u8>,
}

/// The hash of a public key.
#[derive(Clone, Debug, PartialEq, Eq)]
pub struct Name {
    code: u64,
    digest: Vec<u8>,
}

impl View for Name {
    type V = NameView;

    closed spec fn view(&self) -> NameView {
        NameView { code: self.code as nat, digest: self.digest@ }
    }
}

/// The bytes of a name: the frame of a content identifier, then the multihash.
pub open spec fn name_bytes(n: NameView) -> Seq<u8> {
    seq![CID_VERSION, LIBP2P_KEY] + varint(n.code) + varint(n.digest.len()) + n.digest
}

/// The printable form of a name.
pub open spec fn name_text(n: NameView) -> Seq<char> {
    base36_text(name_bytes(n))
}

/// The hash code and the digest that the bytes of a name frame: the two bytes of the frame,
/// two varints, and a digest of the length that the second varint gives, with nothing after
/// it.
pub open spec fn framed_hash(bytes: Seq<u8>) -> Option<NameView> {
    if bytes.len() < 2 || bytes[0] != CID_VERSION || bytes[1] != LIBP2P_KEY {
        None
    } else {
        match parse_varint(bytes.skip(2)) {
            None => None,
            Some((code, n)) => match parse_varint(bytes.skip((2 + n) as int)) {
                None => None,
                Some((len, m)) => if 2 + n + m + len == bytes.len() {
                    Some(NameView { code, digest: bytes.skip((2 + n + m) as int) })
                } else {
                    None
                },
            },
        }
    }
}

/// The name that a hash code and a digest make. An identity digest must decode as a public
/// key, and the name holds that key as it is written anew; a SHA-256 digest must be 32 bytes
/// long. No other hash makes a name.
pub open spec fn name_of_hash(h: NameView) -> Option<NameView> {
    if h.code == IDENTITY {
        match decoded_public_key(h.digest) {
            Some(key) => Some(NameView { code: h.code, digest: key }),
            None => None,
        }
    } else if h.code == SHA2_256 && h.digest.len() == SHA2_256_LENGTH {
        Some(h)
    } else {
        None
    }
}

/// The name that bytes stand for.
pub open spec fn name_of_bytes(bytes: Seq<u8>) -> Option<NameView> {
    match framed_hash(bytes) {
        Some(h) => name_of_hash(h),
        None => None,
    }
}

/// The name that text stands for: base 36 with the prefix `k`, of the bytes of a name.
pub open spec fn name_of_text(text: Seq<char>) -> Option<NameView> {
    match multibase_decoded(text) {
        Some((code, bytes)) => if code == BASE36_LOWER {
            name_of_bytes(bytes)
        } else {
            None
        },
        None => None,
    }
}

/// The name of the public key with encoding `key`: its identity hash.
pub open spec fn name_of_key(key: Seq<u8>) -> NameView {
    NameView { code: IDENTITY as nat, digest: key }
}

/// The bytes of a name frame its hash code and its digest: they read back as these two.
pub proof fn lemma_name_bytes_read_back(n: NameView)
    requires
        n.code <= u64::MAX,
        n.digest.len() <= u64::MAX,
    ensures
        framed_hash(name_bytes(n)) == Some(n),
{
    let bytes = name_bytes(n);
    let code = varint(n.code);
    let len = varint(n.digest.len());
    lemma_parse_varint_of_encoding(n.code, len + n.digest);
    lemma_parse_varint_of_encoding(n.digest.len(), n.digest);
    assert(bytes[0] == CID_VERSION && bytes[1] == LIBP2P_KEY);
    assert(bytes.skip(2) =~= code + (len + n.digest));
    assert(bytes.skip((2 + code.len()) as int) =~= len + n.digest);
    assert(bytes.skip((2 + code.len() + len.len()) as int) =~= n.digest);
}

/// A name that holds the digest of a key reads back from its bytes as itself. A name that
/// holds a key reads back as the name of that key as it is written anew.
pub proof fn lemma_name_reads_back(n: NameView)
    requires
        n.code <= u64::MAX,
        n.digest.len() <= u64::MAX,
    ensures
        name_of_bytes(name_bytes(n)) == name_of_hash(n),
{
    lemma_name_bytes_read_back(n);
}

impl Name {
    /// Reads a name from its printable form.
    pub fn parse(text: &str) -> (r: Result<Name, InvalidName>)
        ensures
            match name_of_text(text@) {
                Some(n) => r matches Ok(name) && name@ == n,
                None => r is Err,
            },
    {
        match decode_multibase(text) {
            Some((code, bytes)) => {
                if code == BASE36_LOWER {
                    Name::from_cid_bytes(bytes.as_slice())
                } else {
                    Err(InvalidName)
                }
            },
            None => Err(InvalidName),
        }
    }

    /// Reads a name from its bytes.
    pub fn from_cid_bytes(bytes: &[u8]) -> (r: Result<Name, InvalidName>)
        ensures
            match name_of_bytes(bytes@) {
                Some(n) => r matches Ok(name) && name@ == n,
                None => r is Err,
            },
    {
        if bytes.len() < 2 || bytes[0] != CID_VERSION || bytes[1] != LIBP2P_KEY {
            return Err(InvalidName);
        }
        let (code, after_code) = match read_varint(bytes, 2) {
            Some(read) => read,
            None => {
                return Err(InvalidName);
            },
        };
        let (len, start) = match read_varint(bytes, after_code) {
            Some(read) => read,
            None => {
                return Err(InvalidName);
            },
        };
        if len != (bytes.len() - start) as u64 {
            return Err(InvalidName);
        }
        let digest = slice_subrange(bytes, start, bytes.len());
        proof {
            assert(bytes@.subrange(start as int, bytes@.len() as int) =~= bytes@.skip(
                start as int,
            ));
        }
        if code == IDENTITY {
            match decode_public_key(digest) {
                Some(key) => Ok(Name { code, digest: key }),
                None => Err(InvalidName),
            }
        } else if code == SHA2_256 && digest.len() == SHA2_256_LENGTH {
            Ok(Name { code, digest: slice_to_vec(digest) })
        } else {
            Err(InvalidName)
        }
    }

    /// The name of the public key that `bytes` encode.
    pub fn from_bytes(bytes: &[u8]) -> (r: Result<Name, InvalidName>)
        ensures
            match decoded_public_key(bytes@) {
                Some(key) => r matches Ok(name) && name@ == name_of_key(key),
                None => r is Err,
            },
    {
        match decode_public_key(bytes) {
            Some(key) => Ok(Name { code: IDENTITY, digest: key }),
            None => Err(InvalidName),
        }
    }

    /// The name of a public key.
    pub fn from_public_key(key: &PublicKey) -> (name: Name)
        ensures
            name@ == name_of_key(key@),
    {
        Name { code: IDENTITY, digest: key.to_protobuf_encoding() }
    }

    /// The public key of this name, where the name holds it: the digest of an identity hash.
    pub fn public_key(&self) -> (r: Result<PublicKey, KeyNotEmbedded>)
        ensures
            match r {
                Ok(key) => self@.code == IDENTITY && key@ == self@.digest,
                Err(_) => self@.code != IDENTITY,
            },
    {
        if self.code == IDENTITY {
            Ok(PublicKey::of_encoding(slice_to_vec(self.digest.as_slice())))
        } else {
            Err(KeyNotEmbedded)
        }
    }

    /// The bytes of this name.
    pub fn to_bytes(&self) -> (bytes: Vec<u8>)
        ensures
            bytes@ == name_bytes(self@),
    {
        let mut bytes: Vec<u8> = Vec::new();
        bytes.push(CID_VERSION);
        bytes.push(LIBP2P_KEY);
        write_varint(self.code, &mut bytes);
        write_varint(self.digest.len() as u64, &mut bytes);
        append_bytes(&mut bytes, self.digest.as_slice());
        assert(bytes@ =~= name_bytes(self@));
        bytes
    }

    /// The printable form of this name. It begins with `k`.
    pub fn to_string(&self) -> (text: String)
        ensures
            text@ == name_text(self@),
            text@.len() >= 1,
            text@[0] == BASE36_LOWER,
    {
        let bytes = self.to_bytes();
        encode_base36(bytes.as_slice())
    }

    /// A copy of this name.
    pub fn duplicate(&self) -> (name: Name)
        ensures
            name@ == self@,
    {
        Name { code: self.code, digest: slice_to_vec(self.digest.as_slice()) }
    }

    /// Whether two names are the same: the same hash of the same digest.
    pub fn same_as(&self, other: &Name) -> (same: bool)
        ensures
            same == (self@ == other@),
    {
        let same = self.code == other.code && crate::bytes::bytes_equal(
            self.digest.as_slice(),
            other.digest.as_slice(),
        );
        proof {
            if same {
                assert(self@.digest =~= other@.digest);
            }
        }
        same
    }
}

/// A name together with the keypair that may publish under it.
#[derive(Clone, Debug)]
pub struct WritableName {
    keypair: Keypair,
    name: Name,
}

impl WritableName {
    /// A new name, with a fresh Ed25519 keypair. The name holds the pair's public key.
    pub fn new() -> (writable: WritableName)
        ensures
            writable.name_view().code == IDENTITY,
            keypair_public(writable.keypair_view()) matches Some(key) && writable.name_view()
                == name_of_key(key),
    {
        let (keypair, public) = generate_keypair();
        WritableName { keypair, name: Name::from_public_key(&public) }
    }

    /// Reads a writable name from the protobuf encoding of its keypair.
    pub fn decode(bytes: &[u8]) -> (r: Result<WritableName, InvalidKey>)
        ensures
            match keypair_public(bytes@) {
                Some(key) => r matches Ok(w) && w.keypair_view() == bytes@ && w.name_view()
                    == name_of_key(key),
                None => r is Err,
            },
    {
        let keypair = match Keypair::from_protobuf_encoding(bytes) {
            Ok(pair) => pair,
            Err(_) => {
                return Err(InvalidKey);
            },
        };
        match keypair.public() {
            Some(public) => Ok(WritableName { keypair, name: Name::from_public_key(&public) }),
            None => Err(InvalidKey),
        }
    }

    /// What the name holds.
    pub closed spec fn name_view(&self) -> NameView {
        self.name@
    }

    /// The encoding of the keypair.
    pub closed spec fn keypair_view(&self) -> Seq<u8> {
        self.keypair@
    }

    /// The name.
    pub fn to_name(&self) -> (name: Name)
        ensures
            name@ == self.name_view(),
    {
        self.name.duplicate()
    }

    /// The keypair.
    pub fn keypair(&self) -> (pair: &Keypair)
        ensures
            pair@ == self.keypair_view(),
    {
        &self.keypair
    }

    /// The printable form of the name. It begins with `k`.
    pub fn to_string(&self) -> (text: String)
        ensures
            text@ == name_text(self.name_view()),
            text@.len() >= 1,
            text@[0] == BASE36_LOWER,
    {
        self.name.to_string()
    }
}

} // verus!
