//! The envelope handed from the front handler to the worker, its encoding on
//! the wire, and the two sides of the channel handshake.
use vstd::prelude::*;

verus! {

/// The fixed endpoint both sides of the channel know.
pub const IPC_EXTENSION_ENDPOINT: &'static str = "0.0.0.0:4000";

/// The acknowledgment token, `ACK`, written by the receiver on accept.
pub open spec fn ack_token_spec() -> Seq<u8> {
    seq![65u8, 67u8, 75u8]
}

/// The acknowledgment token as bytes.
pub fn ack_token() -> (r: [u8; 3])
    ensures
        r@ == ack_token_spec(),
{
    let r: [u8; 3] = [65u8, 67u8, 75u8];
    proof {
        assert(r@ =~= ack_token_spec());
    }
    r
}

/// One event from the chat platform, with its body kept as the raw
/// serialized text that the consumer parses on demand.
pub struct SlackEventMessage {
    pub event_type: String,
    pub body: String,
}

/// What crosses the channel.
pub enum ChannelMessage {
    SlackEvent(SlackEventMessage),
}

/// Failures on one connection of the channel.
#[derive(PartialEq, Eq, Structural, Clone, Copy, Debug)]
pub enum ChannelError {
    /// The acknowledgment read back was not the token.
    HandshakeMismatch,
    /// The envelope could not be encoded.
    SerializationError,
    /// The bytes received are not an encoded envelope.
    DeserializationError,
    /// Connecting, reading or writing failed.
    NetworkError,
}

/// The bytes that serde_json writes for the pair of strings `(a, b)`.
pub uninterp spec fn json_pair_bytes(a: Seq<char>, b: Seq<char>) -> Seq<u8>;

/// Relies on serde_json::to_vec: a pair of strings is written as a JSON
/// array of two strings. Writing strings into a vector never fails.
#[verifier::external_body]
fn json_encode_pair(a: &str, b: &str) -> (r: Option<Vec<u8>>)
    ensures
        r is Some,
        r->0@ == json_pair_bytes(a@, b@),
{
    serde_json::to_vec(&(a, b)).ok()
}

pub open spec fn pair_first(p: (String, String)) -> Seq<char> {
    p.0@
}

pub open spec fn pair_second(p: (String, String)) -> Seq<char> {
    p.1@
}

/// Relies on serde_json::from_slice: what serde_json::to_vec wrote for a
/// pair of strings reads back as the same pair.
#[verifier::external_body]
fn json_decode_pair(bytes: &[u8]) -> (r: Option<(String, String)>)
    ensures
        forall|a: Seq<char>, b: Seq<char>|
            #[trigger] json_pair_bytes(a, b) == bytes@ ==> r is Some && pair_first(r->0) == a && pair_second(r->0) == b,
{
    serde_json::from_slice::<(String, String)>(bytes).ok()
}

/// The wire form of the envelope with these fields.
pub open spec fn encoded_envelope(event_type: Seq<char>, body: Seq<char>) -> Seq<u8> {
    json_pair_bytes(event_type, body)
}

impl ChannelMessage {
    pub open spec fn event_type(&self) -> Seq<char> {
        match self {
            ChannelMessage::SlackEvent(m) => m.event_type@,
        }
    }

    pub open spec fn body(&self) -> Seq<char> {
        match self {
            ChannelMessage::SlackEvent(m) => m.body@,
        }
    }

    pub fn new(event_type: String, body: String) -> (r: Self)
        ensures
            r.event_type() == event_type@,
            r.body() == body@,
    {
        ChannelMessage::SlackEvent(SlackEventMessage { event_type, body })
    }

    /// The serialized envelope.
    pub fn encode(&self) -> (r: Result<Vec<u8>, ChannelError>)
        ensures
            r matches Ok(v) && v@ == encoded_envelope(self.event_type(), self.body()),
    {
        match self {
            ChannelMessage::SlackEvent(m) => match json_encode_pair(m.event_type.as_str(), m.body.as_str()) {
                Some(v) => Ok(v),
                None => Err(ChannelError::SerializationError),
            },
        }
    }

    /// Reads an envelope back. Whatever `encode` wrote for an envelope decodes
    /// to an envelope with the same fields, for all strings, empty and
    /// non-ASCII included; anything that is no envelope fails with
    /// `DeserializationError`.
    pub fn decode(bytes: &[u8]) -> (r: Result<ChannelMessage, ChannelError>)
        ensures
            forall|e: Seq<char>, b: Seq<char>|
                #[trigger] encoded_envelope(e, b) == bytes@ ==> (r matches Ok(m) && m.event_type() == e
                    && m.body() == b),
            r matches Err(x) ==> x == ChannelError::DeserializationError,
    {
        match json_decode_pair(bytes) {
            Some(p) => Ok(ChannelMessage::new(p.0, p.1)),
            None => Err(ChannelError::DeserializationError),
        }
    }
}

/// Checks the bytes read at the start of a connection against the token.
pub fn check_ack(received: &[u8]) -> (r: Result<(), ChannelError>)
    ensures
        r is Ok <==> received@ == ack_token_spec(),
        r matches Err(x) ==> x == ChannelError::HandshakeMismatch,
{
    let t = ack_token();
    if received.len() != 3 {
        return Err(ChannelError::HandshakeMismatch);
    }
    if received[0] == t[0] && received[1] == t[1] && received[2] == t[2] {
        proof {
            assert(received@ =~= ack_token_spec());
        }
        Ok(())
    } else {
        Err(ChannelError::HandshakeMismatch)
    }
}

} // verus!
