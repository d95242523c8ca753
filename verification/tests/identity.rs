use gossip_chat::identity::{accept_signature, verify_signature, NodeIdentity};
use gossip_chat::message::Signature;
use gossip_chat::peer::PeerId;
use gossip_chat::roster::Member;

fn identity() -> NodeIdentity {
    NodeIdentity::generate().expect("a keypair")
}

#[test]
fn generated_identity_matches_libp2p() {
    let node = identity();
    let pair = libp2p::identity::Keypair::from_protobuf_encoding(node.secret_bytes()).expect("decodes");
    assert_eq!(node.public_key_bytes(), &pair.public().encode_protobuf());
    assert_eq!(node.public_id().as_bytes(), &pair.public().to_peer_id().to_bytes());
    assert_ne!(node.public_id().as_bytes(), node.public_key_bytes());
    assert_ne!(node.public_key_bytes(), node.secret_bytes());
}

#[test]
fn two_generated_identities_differ() {
    let a = identity();
    let b = identity();
    assert_ne!(a.public_id(), b.public_id());
    assert_ne!(a.secret_bytes(), b.secret_bytes());
}

#[test]
fn public_id_is_deterministic() {
    let node = identity();
    assert_eq!(node.public_id(), node.public_id());
    let again = NodeIdentity::from_secret(node.secret_bytes().clone()).expect("same keypair");
    assert_eq!(again.public_id(), node.public_id());
    assert_eq!(again.public_key_bytes(), node.public_key_bytes());
    assert_eq!(again.secret_bytes(), node.secret_bytes());
    let copy = node.duplicate();
    assert_eq!(copy.public_id(), node.public_id());
    assert_eq!(copy.secret_bytes(), node.secret_bytes());
}

#[test]
fn from_secret_of_known_keypair() {
    let pair = libp2p::identity::Keypair::ed25519_from_bytes([7u8; 32]).expect("a secret key");
    let secret = pair.to_protobuf_encoding().expect("encodes");
    let node = NodeIdentity::from_secret(secret.clone()).expect("an identity");
    assert_eq!(node.secret_bytes(), &secret);
    assert_eq!(node.public_key_bytes(), &pair.public().encode_protobuf());
    assert_eq!(node.public_id().as_bytes(), &libp2p::PeerId::from(pair.public()).to_bytes());
}

#[test]
fn from_secret_refuses_what_is_no_keypair() {
    assert!(NodeIdentity::from_secret(Vec::new()).is_none());
    assert!(NodeIdentity::from_secret(vec![1, 2, 3, 4, 5]).is_none());
    let node = identity();
    let mut cut = node.secret_bytes().clone();
    cut.truncate(10);
    assert!(NodeIdentity::from_secret(cut).is_none());
}

#[test]
fn signature_verifies_for_signer_and_payload() {
    let node = identity();
    let payload = b"hello".to_vec();
    let signature = node.sign(&payload).expect("signs");
    assert_eq!(&signature.key, node.public_key_bytes());
    assert_ne!(signature.bytes, payload);
    assert_eq!(signature.bytes.len(), 64);
    assert!(verify_signature(&node.public_id(), &payload, &signature));
    let pair = libp2p::identity::Keypair::from_protobuf_encoding(node.secret_bytes()).expect("decodes");
    assert!(pair.public().verify(&payload, &signature.bytes));
    assert_eq!(pair.sign(&payload).expect("signs"), signature.bytes);
}

#[test]
fn signing_is_deterministic() {
    let node = identity();
    let payload = b"same text".to_vec();
    assert_eq!(node.sign(&payload), node.sign(&payload));
    assert_ne!(node.sign(&payload), node.sign(&b"other text".to_vec()));
}

#[test]
fn signature_fails_on_other_payload() {
    let node = identity();
    let signature = node.sign(&b"hello".to_vec()).expect("signs");
    assert!(!verify_signature(&node.public_id(), &b"hellp".to_vec(), &signature));
    assert!(!verify_signature(&node.public_id(), &Vec::new(), &signature));
}

#[test]
fn signature_fails_when_tampered() {
    let node = identity();
    let payload = b"hello".to_vec();
    let mut signature = node.sign(&payload).expect("signs");
    signature.bytes[3] ^= 0x40;
    assert!(!verify_signature(&node.public_id(), &payload, &signature));
    let short = Signature { key: node.public_key_bytes().clone(), bytes: vec![1, 2, 3] };
    assert!(!verify_signature(&node.public_id(), &payload, &short));
}

#[test]
fn signature_fails_for_other_publisher() {
    let signer = identity();
    let other = identity();
    let payload = b"hello".to_vec();
    let signature = signer.sign(&payload).expect("signs");
    assert!(!verify_signature(&other.public_id(), &payload, &signature));
    let swapped = Signature { key: other.public_key_bytes().clone(), bytes: signature.bytes.clone() };
    assert!(!verify_signature(&signer.public_id(), &payload, &swapped));
    assert!(!verify_signature(&other.public_id(), &payload, &swapped));
}

#[test]
fn signature_fails_with_key_that_is_no_key() {
    let node = identity();
    let payload = b"hello".to_vec();
    let signature = node.sign(&payload).expect("signs");
    let broken = Signature { key: vec![9, 9, 9], bytes: signature.bytes.clone() };
    assert!(!verify_signature(&node.public_id(), &payload, &broken));
    let empty = Signature { key: Vec::new(), bytes: signature.bytes };
    assert!(!verify_signature(&node.public_id(), &payload, &empty));
}

#[test]
fn accept_signature_needs_owner_and_verdict() {
    let publisher = PeerId::from_bytes(vec![1, 2, 3]);
    assert!(accept_signature(&publisher, Some(vec![1, 2, 3]), Some(true)));
    assert!(!accept_signature(&publisher, Some(vec![1, 2, 3]), Some(false)));
    assert!(!accept_signature(&publisher, Some(vec![1, 2, 3]), None));
    assert!(!accept_signature(&publisher, Some(vec![1, 2, 4]), Some(true)));
    assert!(!accept_signature(&publisher, Some(vec![1, 2]), Some(true)));
    assert!(!accept_signature(&publisher, None, Some(true)));
    assert!(!accept_signature(&publisher, None, None));
}

#[test]
fn peer_id_copies_and_compares() {
    let a = PeerId::from_bytes(vec![1, 2, 3]);
    let b = PeerId::from_bytes(vec![1, 2, 3]);
    let c = PeerId::from_bytes(vec![1, 2, 4]);
    assert!(a.same(&b));
    assert!(!a.same(&c));
    assert!(!a.same(&PeerId::from_bytes(vec![1, 2])));
    assert_eq!(a.duplicate(), a);
    assert_eq!(a.clone(), a);
    assert_eq!(a.as_bytes(), &vec![1, 2, 3]);
}

#[test]
fn generate_always_gives_an_identity() {
    for _ in 0..32 {
        let node = NodeIdentity::generate().expect("an identity");
        let again = NodeIdentity::from_secret(node.secret_bytes().clone()).expect("a keypair");
        assert_eq!(again.public_key_bytes(), node.public_key_bytes());
        assert_eq!(again.public_id(), node.public_id());
        let pair = libp2p::identity::Keypair::from_protobuf_encoding(node.secret_bytes()).expect("decodes");
        assert_eq!(node.public_id().as_bytes(), &pair.public().to_peer_id().to_bytes());
    }
}
