//! The keypair of a node and the identifier derived from it.
//!
//! Keys and signatures are byte strings here. The cryptography is libp2p's:
//! each operation on them is one call into `libp2p::identity`, named below by
//! a function of the bytes that go in.

use vstd::prelude::*;
use crate::bytes::{bytes_equal, copy_bytes, optional_bytes};
use crate::message::{optional_signature, Signature};
use crate::peer::PeerId;
use crate::roster::Member;

verus! {

/// The encoded public key of the keypair that `secret` encodes, where it
/// encodes one.
pub uninterp spec fn public_key_of(secret: Seq<u8>) -> Option<Seq<u8>>;

/// The bytes of the peer identifier that belongs to an encoded public key,
/// where the bytes are such a key.
pub uninterp spec fn peer_id_of(public_key: Seq<u8>) -> Option<Seq<u8>>;

/// The signature that the keypair encoded by `secret` puts on `data`, where
/// `secret` encodes a keypair and that keypair can sign.
pub uninterp spec fn signature_of(secret: Seq<u8>, data: Seq<u8>) -> Option<Seq<u8>>;

/// Whether `signature` is a signature on `data` under an encoded public key;
/// `None` where the bytes are no such key.
pub uninterp spec fn signature_check(public_key: Seq<u8>, data: Seq<u8>, signature: Seq<u8>) -> Option<bool>;

/// `Keypair::generate_ed25519`, followed by `Keypair::to_protobuf_encoding`:
/// a new keypair from the system's entropy, as bytes. Which keypair comes is
/// left open. The claim is what holds of every Ed25519 keypair: it has an
/// encoding, the encoding is read back as a keypair with a public key, and
/// that key is read back as a key with a peer identifier. The call does not
/// return where the system has no entropy to give.
#[verifier::external_body]
fn fresh_secret() -> (secret: Option<Vec<u8>>)
    ensures
        match secret {
            Some(bytes) => usable_secret(bytes@),
            None => false,
        },
{
    match libp2p::identity::Keypair::generate_ed25519().to_protobuf_encoding() {
        Ok(bytes) => Some(bytes),
        Err(_) => None,
    }
}

/// Whether `secret` encodes a keypair from which a public key and, from that
/// key, a peer identifier can be derived: what an identity is made of.
pub open spec fn usable_secret(secret: Seq<u8>) -> bool {
    public_key_of(secret) matches Some(key) && peer_id_of(key) is Some
}

/// `Keypair::public` on the keypair that `Keypair::from_protobuf_encoding`
/// reads from `secret`, encoded by `PublicKey::encode_protobuf`. The claim is
/// only that the outcome depends on `secret` alone.
#[verifier::external_body]
fn derive_public_key(secret: &Vec<u8>) -> (key: Option<Vec<u8>>)
    ensures
        optional_bytes(key) == public_key_of(secret@),
{
    match libp2p::identity::Keypair::from_protobuf_encoding(secret) {
        Ok(pair) => Some(pair.public().encode_protobuf()),
        Err(_) => None,
    }
}

/// `PeerId::from_public_key` on the key that `PublicKey::try_decode_protobuf`
/// reads from `public_key`, as `PeerId::to_bytes` gives it. The claim is only
/// that the outcome depends on `public_key` alone.
#[verifier::external_body]
fn derive_peer_id(public_key: &Vec<u8>) -> (id: Option<Vec<u8>>)
    ensures
        optional_bytes(id) == peer_id_of(public_key@),
{
    match libp2p::identity::PublicKey::try_decode_protobuf(public_key) {
        Ok(key) => Some(libp2p::identity::PeerId::from_public_key(&key).to_bytes()),
        Err(_) => None,
    }
}

/// `Keypair::sign` with the keypair that `Keypair::from_protobuf_encoding`
/// reads from `secret`. The claim is only that the outcome depends on
/// `secret` and `data` alone.
#[verifier::external_body]
fn sign_bytes(secret: &Vec<u8>, data: &Vec<u8>) -> (signature: Option<Vec<u8>>)
    ensures
        optional_bytes(signature) == signature_of(secret@, data@),
{
    match libp2p::identity::Keypair::from_protobuf_encoding(secret) {
        Ok(pair) => match pair.sign(data) {
            Ok(signature) => Some(signature),
            Err(_) => None,
        },
        Err(_) => None,
    }
}

/// `PublicKey::verify` with the key that `PublicKey::try_decode_protobuf`
/// reads from `public_key`. The claim is only that the outcome depends on the
/// three byte strings alone.
#[verifier::external_body]
fn check_signature(public_key: &Vec<u8>, data: &Vec<u8>, signature: &Vec<u8>) -> (verdict: Option<bool>)
    ensures
        verdict == signature_check(public_key@, data@, signature@),
{
    match libp2p::identity::PublicKey::try_decode_protobuf(public_key) {
        Ok(key) => Some(key.verify(data, signature)),
        Err(_) => None,
    }
}

/// Whether `signature` proves that `publisher` published `data`: its key is
/// the one from which `publisher` is derived, and it verifies on `data` under
/// that key.
pub open spec fn signed_by(publisher: Seq<u8>, data: Seq<u8>, key: Seq<u8>, signature: Seq<u8>) -> bool {
    &&& peer_id_of(key) == Some(publisher)
    &&& signature_check(key, data, signature) == Some(true)
}

/// Decides `signed_by` from what the two outside calls returned.
pub fn accept_signature(publisher: &PeerId, owner: Option<Vec<u8>>, verdict: Option<bool>) -> (accepted: bool)
    ensures
        accepted == (optional_bytes(owner) == Some(publisher@) && verdict == Some(true)),
{
    match owner {
        Some(owner) => match verdict {
            Some(valid) => valid && bytes_equal(&owner, publisher.as_bytes()),
            None => false,
        },
        None => false,
    }
}

/// Whether `signature` proves that `publisher` published `data`.
pub fn verify_signature(publisher: &PeerId, data: &Vec<u8>, signature: &Signature) -> (accepted: bool)
    ensures
        accepted == signed_by(publisher@, data@, signature.key@, signature.bytes@),
{
    let owner = derive_peer_id(&signature.key);
    let verdict = check_signature(&signature.key, data, &signature.bytes);
    accept_signature(publisher, owner, verdict)
}

/// A node's keypair with the public key and the identifier derived from it.
/// It is made once and never changes.
#[derive(Debug)]
pub struct NodeIdentity {
    secret: Vec<u8>,
    public_key: Vec<u8>,
    peer: PeerId,
}

impl NodeIdentity {
    /// The encoded keypair.
    pub closed spec fn secret(&self) -> Seq<u8> {
        self.secret@
    }

    /// The encoded public key.
    pub closed spec fn public_key(&self) -> Seq<u8> {
        self.public_key@
    }

    /// The node's identifier.
    pub closed spec fn peer(&self) -> Seq<u8> {
        self.peer@
    }

    /// The key and the signature that this node puts on `data`.
    pub open spec fn signature_on(&self, data: Seq<u8>) -> Option<(Seq<u8>, Seq<u8>)> {
        match signature_of(self.secret(), data) {
            Some(bytes) => Some((self.public_key(), bytes)),
            None => None,
        }
    }

    /// The public key is that of the keypair, and the identifier is derived
    /// from the public key. Every identity is made so.
    pub open spec fn derived(&self) -> bool {
        &&& public_key_of(self.secret()) == Some(self.public_key())
        &&& peer_id_of(self.public_key()) == Some(self.peer())
    }

    #[verifier::type_invariant]
    closed spec fn made_derived(&self) -> bool {
        self.derived()
    }

    /// The identity that belongs to an encoded keypair; `None` where the
    /// bytes encode no keypair.
    pub fn from_secret(secret: Vec<u8>) -> (identity: Option<NodeIdentity>)
        ensures
            identity is Some <==> usable_secret(secret@),
            identity matches Some(identity) ==> identity.secret() == secret@ && identity.derived(),
    {
        match derive_public_key(&secret) {
            Some(public_key) => match derive_peer_id(&public_key) {
                Some(peer) => Some(NodeIdentity { secret, public_key, peer: PeerId::from_bytes(peer) }),
                None => None,
            },
            None => None,
        }
    }

    /// A new identity from the system's entropy. There is always one: the
    /// keypair that comes is an Ed25519 keypair, of which a public key and a
    /// peer identifier can be derived.
    pub fn generate() -> (identity: Option<NodeIdentity>)
        ensures
            identity matches Some(identity) && identity.derived() && usable_secret(identity.secret()),
    {
        match fresh_secret() {
            Some(secret) => NodeIdentity::from_secret(secret),
            None => None,
        }
    }

    /// The node's identifier: the one derived from its public key.
    pub fn public_id(&self) -> (id: PeerId)
        ensures
            id@ == self.peer(),
            self.derived(),
    {
        proof {
            use_type_invariant(self);
        }
        self.peer.duplicate()
    }

    /// The encoded public key: that of the keypair.
    pub fn public_key_bytes(&self) -> (key: &Vec<u8>)
        ensures
            key@ == self.public_key(),
            self.derived(),
    {
        proof {
            use_type_invariant(self);
        }
        &self.public_key
    }

    /// The encoded keypair.
    pub fn secret_bytes(&self) -> (secret: &Vec<u8>)
        ensures
            secret@ == self.secret(),
    {
        &self.secret
    }

    /// This node's signature on `data`, with its public key; `None` where
    /// the keypair cannot sign.
    pub fn sign(&self, data: &Vec<u8>) -> (signature: Option<Signature>)
        ensures
            optional_signature(signature) == self.signature_on(data@),
    {
        match sign_bytes(&self.secret, data) {
            Some(bytes) => Some(Signature { key: copy_bytes(&self.public_key), bytes }),
            None => None,
        }
    }

    /// A copy of the identity.
    pub fn duplicate(&self) -> (copy: NodeIdentity)
        ensures
            copy.secret() == self.secret(),
            copy.public_key() == self.public_key(),
            copy.peer() == self.peer(),
    {
        proof {
            use_type_invariant(self);
        }
        NodeIdentity {
            secret: copy_bytes(&self.secret),
            public_key: copy_bytes(&self.public_key),
            peer: self.peer.duplicate(),
        }
    }
}

} // verus!
