use gossip_chat::bytes::{bytes_equal, copy_bytes};
use gossip_chat::message::{message_id, Message, MessageId, Signature, Topic};
use gossip_chat::peer::PeerId;
use gossip_chat::roster::Member;
use std::collections::hash_map::DefaultHasher;
use std::hash::Hasher;

fn digest_of(payload: &[u8]) -> u64 {
    let mut hasher = DefaultHasher::new();
    hasher.write(payload);
    hasher.finish()
}

#[test]
fn message_id_is_deterministic() {
    let payload = b"hello".to_vec();
    assert_eq!(message_id(&payload), message_id(&payload));
    assert_eq!(message_id(&payload), message_id(&b"hello".to_vec()));
    assert_eq!(message_id(&Vec::new()), message_id(&Vec::new()));
}

#[test]
fn message_id_is_the_hash_of_the_payload() {
    for payload in [b"".to_vec(), b"hello".to_vec(), b"a longer line of chat".to_vec(), vec![0u8; 100]] {
        assert_eq!(message_id(&payload).digest(), digest_of(&payload));
        assert_eq!(message_id(&payload), MessageId::from_digest(digest_of(&payload)));
    }
}

#[test]
fn message_ids_of_different_payloads_differ() {
    let payloads: Vec<Vec<u8>> = vec![
        b"".to_vec(),
        b"a".to_vec(),
        b"b".to_vec(),
        b"ab".to_vec(),
        b"ba".to_vec(),
        b"hello".to_vec(),
        b"hello ".to_vec(),
        b"Hello".to_vec(),
        vec![0],
        vec![0, 0],
    ];
    for (i, first) in payloads.iter().enumerate() {
        for (j, second) in payloads.iter().enumerate() {
            if i != j {
                assert_ne!(message_id(first), message_id(second));
            }
        }
    }
}

#[test]
fn message_id_ignores_publisher_and_topic() {
    let one = Message {
        topic: Topic::new("chat".to_string()),
        payload: b"hello".to_vec(),
        publisher: PeerId::from_bytes(vec![1]),
        signature: None,
    };
    let other = Message {
        topic: Topic::new("news".to_string()),
        payload: b"hello".to_vec(),
        publisher: PeerId::from_bytes(vec![2]),
        signature: Some(Signature { key: vec![3], bytes: vec![4] }),
    };
    assert_eq!(one.id(), other.id());
    assert_eq!(one.id(), message_id(&b"hello".to_vec()));
}

#[test]
fn message_id_text_is_decimal() {
    assert_eq!(MessageId::from_digest(0).to_text(), b"0".to_vec());
    assert_eq!(MessageId::from_digest(7).to_text(), b"7".to_vec());
    assert_eq!(MessageId::from_digest(9).to_text(), b"9".to_vec());
    assert_eq!(MessageId::from_digest(10).to_text(), b"10".to_vec());
    assert_eq!(MessageId::from_digest(12345).to_text(), b"12345".to_vec());
    assert_eq!(MessageId::from_digest(1000000).to_text(), b"1000000".to_vec());
    assert_eq!(MessageId::from_digest(u64::MAX).to_text(), b"18446744073709551615".to_vec());
}

#[test]
fn message_id_text_matches_to_string() {
    for payload in [b"".to_vec(), b"hello".to_vec(), b"chat".to_vec()] {
        let id = message_id(&payload);
        assert_eq!(id.to_text(), digest_of(&payload).to_string().into_bytes());
    }
}

#[test]
fn topic_copies_and_compares() {
    let chat = Topic::new("chat".to_string());
    assert_eq!(chat.name(), "chat");
    assert!(chat.same(&Topic::new("chat".to_string())));
    assert!(!chat.same(&Topic::new("chat2".to_string())));
    assert!(!chat.same(&Topic::new("".to_string())));
    assert_eq!(chat.duplicate(), chat);
    assert_eq!(chat.clone(), chat);
}

#[test]
fn message_duplicate_is_equal() {
    let message = Message {
        topic: Topic::new("chat".to_string()),
        payload: b"hello".to_vec(),
        publisher: PeerId::from_bytes(vec![1, 2]),
        signature: Some(Signature { key: vec![3], bytes: vec![4, 5] }),
    };
    assert_eq!(message.duplicate(), message);
    let unsigned = Message { signature: None, ..message.duplicate() };
    assert_eq!(unsigned.duplicate(), unsigned);
    assert_ne!(unsigned, message);
    let signature = Signature { key: vec![3], bytes: vec![4, 5] };
    assert_eq!(signature.duplicate(), signature);
}

#[test]
fn bytes_compare_and_copy() {
    assert!(bytes_equal(&vec![], &vec![]));
    assert!(bytes_equal(&vec![1, 2, 3], &vec![1, 2, 3]));
    assert!(!bytes_equal(&vec![1, 2, 3], &vec![1, 2, 4]));
    assert!(!bytes_equal(&vec![1, 2, 3], &vec![1, 2]));
    assert!(!bytes_equal(&vec![], &vec![0]));
    assert_eq!(copy_bytes(&vec![5, 6, 7]), vec![5, 6, 7]);
    assert_eq!(copy_bytes(&vec![]), Vec::<u8>::new());
}
