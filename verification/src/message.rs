//! Topics, messages and the identifier by which a message is recognised.

use vstd::prelude::*;
use vstd::std_specs::hash::DefaultHasherAdditionalSpecFns;
use std::collections::hash_map::DefaultHasher;
use std::hash::Hasher;
use crate::bytes::copy_bytes;
use crate::peer::PeerId;
use crate::roster::Member;

verus! {

/// The name of a topic.
#[derive(Debug, PartialEq, Eq, Hash)]
pub struct Topic {
    name: String,
}

impl View for Topic {
    type V = Seq<char>;

    closed spec fn view(&self) -> Seq<char> {
        self.name@
    }
}

impl DeepView for Topic {
    type V = Seq<char>;

    open spec fn deep_view(&self) -> Seq<char> {
        self@
    }
}

impl Topic {
    /// The topic with this name.
    pub fn new(name: String) -> (topic: Topic)
        ensures
            topic@ == name@,
    {
        Topic { name }
    }

    /// The name of the topic.
    pub fn name(&self) -> (name: &String)
        ensures
            name@ == self@,
    {
        &self.name
    }
}

impl Member for Topic {
    fn same(&self, other: &Topic) -> (same: bool) {
        self.name == other.name
    }

    fn duplicate(&self) -> (copy: Topic) {
        Topic { name: self.name.clone() }
    }
}

impl Clone for Topic {
    fn clone(&self) -> (copy: Topic)
        ensures
            copy@ == self@,
    {
        Topic { name: self.name.clone() }
    }
}

/// The digest that identifies a message: the standard hasher, started afresh
/// and fed the payload in one write.
pub open spec fn spec_message_id(payload: Seq<u8>) -> u64 {
    DefaultHasher::spec_finish(seq![payload])
}

/// The decimal digits of a number in ASCII, the most significant first.
pub open spec fn decimal(n: nat) -> Seq<u8>
    decreases n,
{
    if n < 10 {
        seq![(48 + n) as u8]
    } else {
        decimal(n / 10).push((48 + n % 10) as u8)
    }
}

/// The key by which a message is recognised when it is seen again. It is a
/// function of the payload alone, so the same text from two publishers is one
/// message, and a second sending of a text is a duplicate of the first.
#[derive(Clone, Copy, Debug, PartialEq, Eq, Hash)]
pub struct MessageId {
    digest: u64,
}

impl View for MessageId {
    type V = u64;

    closed spec fn view(&self) -> u64 {
        self.digest
    }
}

impl DeepView for MessageId {
    type V = u64;

    open spec fn deep_view(&self) -> u64 {
        self@
    }
}

impl MessageId {
    /// The identifier with this digest.
    pub fn from_digest(digest: u64) -> (id: MessageId)
        ensures
            id@ == digest,
    {
        MessageId { digest }
    }

    /// The digest.
    pub fn digest(&self) -> (digest: u64)
        ensures
            digest == self@,
    {
        self.digest
    }

    /// The identifier as it is shown and sent: the digest in decimal.
    pub fn to_text(&self) -> (text: Vec<u8>)
        ensures
            text@ == decimal(self@ as nat),
    {
        let mut digits: Vec<u8> = Vec::new();
        let mut rest: u64 = self.digest;
        assert(digits@.reverse() =~= Seq::<u8>::empty());
        while rest >= 10
            invariant
                decimal(self.digest as nat) =~= decimal(rest as nat) + digits@.reverse(),
            decreases rest,
        {
            let digit: u8 = (rest % 10) as u8 + 48;
            proof {
                assert(digits@.push(digit).reverse() =~= seq![digit] + digits@.reverse());
                assert(decimal(rest as nat) == decimal((rest / 10) as nat).push(digit));
            }
            digits.push(digit);
            rest = rest / 10;
        }
        let digit: u8 = rest as u8 + 48;
        proof {
            assert(digits@.push(digit).reverse() =~= seq![digit] + digits@.reverse());
            assert(decimal(rest as nat) =~= seq![digit]);
        }
        digits.push(digit);
        let mut text: Vec<u8> = Vec::new();
        let mut i: usize = digits.len();
        while i > 0
            invariant
                i <= digits.len(),
                text@ =~= digits@.reverse().take(digits.len() - i),
            decreases i,
        {
            i -= 1;
            text.push(digits[i]);
        }
        text
    }
}

/// The identifier of every message with this payload.
pub fn message_id(payload: &Vec<u8>) -> (id: MessageId)
    ensures
        id@ == spec_message_id(payload@),
{
    let mut hasher = DefaultHasher::new();
    hasher.write(payload.as_slice());
    MessageId { digest: hasher.finish() }
}

/// A signature on a payload, with the encoded public key that it verifies
/// under.
#[derive(Debug, PartialEq, Eq)]
pub struct Signature {
    pub key: Vec<u8>,
    pub bytes: Vec<u8>,
}

impl Signature {
    /// A copy of the signature.
    pub fn duplicate(&self) -> (copy: Signature)
        ensures
            copy.key@ == self.key@,
            copy.bytes@ == self.bytes@,
    {
        Signature { key: copy_bytes(&self.key), bytes: copy_bytes(&self.bytes) }
    }
}

impl Clone for Signature {
    fn clone(&self) -> (copy: Signature)
        ensures
            copy.key@ == self.key@,
            copy.bytes@ == self.bytes@,
    {
        self.duplicate()
    }
}

/// What a signature holds.
pub open spec fn optional_signature(signature: Option<Signature>) -> Option<(Seq<u8>, Seq<u8>)> {
    match signature {
        Some(signature) => Some((signature.key@, signature.bytes@)),
        None => None,
    }
}

/// A message as it travels: a payload on a topic, the peer that claims to
/// have published it and, where the publisher signs, its signature on the
/// payload.
#[derive(Debug, PartialEq, Eq)]
pub struct Message {
    pub topic: Topic,
    pub payload: Vec<u8>,
    pub publisher: PeerId,
    pub signature: Option<Signature>,
}

/// What a message holds.
pub struct MessageView {
    pub topic: Seq<char>,
    pub payload: Seq<u8>,
    pub publisher: Seq<u8>,
    pub signature: Option<(Seq<u8>, Seq<u8>)>,
}

impl View for Message {
    type V = MessageView;

    open spec fn view(&self) -> MessageView {
        MessageView {
            topic: self.topic@,
            payload: self.payload@,
            publisher: self.publisher@,
            signature: optional_signature(self.signature),
        }
    }
}

impl DeepView for Message {
    type V = MessageView;

    open spec fn deep_view(&self) -> MessageView {
        self@
    }
}

impl Message {
    /// The identifier of the message.
    pub fn id(&self) -> (id: MessageId)
        ensures
            id@ == spec_message_id(self.payload@),
    {
        message_id(&self.payload)
    }

    /// A copy of the message.
    pub fn duplicate(&self) -> (copy: Message)
        ensures
            copy@ == self@,
    {
        let signature = match &self.signature {
            Some(signature) => Some(signature.duplicate()),
            None => None,
        };
        Message {
            topic: self.topic.duplicate(),
            payload: copy_bytes(&self.payload),
            publisher: self.publisher.duplicate(),
            signature,
        }
    }
}

impl Clone for Message {
    fn clone(&self) -> (copy: Message)
        ensures
            copy@ == self@,
    {
        self.duplicate()
    }
}

} // verus!
