//! Wire format: one topic and one 32-bit value in a frame of eight bytes.

use vstd::arithmetic::div_mod::lemma_fundamental_div_mod_converse;
use vstd::prelude::*;

verus! {

/// The size of a single message in bytes.
pub const MESSAGE_SIZE: usize = 8;

/// The topic that a control message speaks of. Each topic has a fixed
/// number on the wire, given by [`ESDAMessageID::wire_value`].
#[derive(Clone, Copy, Debug, PartialEq, Eq, Structural)]
pub enum ESDAMessageID {
    SetTargetVelLeft,
    SetTargetVelRight,
    CurrentVelLeft,
    CurrentVelRight,
    CurrentDSPLeft,
    CurrentDSPRight,
    SteerAmount,
    MCUState,
    MCUErrorState,
    ESTOP,
    SetAutonomousMode,
}

/// Why a byte sequence is not a message.
#[derive(Clone, Copy, Debug, PartialEq, Eq, Structural)]
pub enum DecodeError {
    /// The input is not exactly [`MESSAGE_SIZE`] bytes long.
    WrongLength,
    /// The first four bytes hold a number that belongs to no topic.
    UnknownTopic,
}

/// The number that stands for a topic on the wire.
pub open spec fn topic_number(id: ESDAMessageID) -> u32 {
    match id {
        ESDAMessageID::SetTargetVelLeft => 1,
        ESDAMessageID::SetTargetVelRight => 2,
        ESDAMessageID::CurrentVelLeft => 3,
        ESDAMessageID::CurrentVelRight => 4,
        ESDAMessageID::CurrentDSPLeft => 5,
        ESDAMessageID::CurrentDSPRight => 6,
        ESDAMessageID::SteerAmount => 7,
        ESDAMessageID::ESTOP => 8,
        ESDAMessageID::SetAutonomousMode => 9,
        ESDAMessageID::MCUState => 16,
        ESDAMessageID::MCUErrorState => 17,
    }
}

/// Whether `n` is the number of some topic.
pub open spec fn is_topic_number(n: u32) -> bool {
    1 <= n <= 9 || n == 16 || n == 17
}

/// The topic whose number is `n`, if there is one.
pub open spec fn topic_of_number(n: u32) -> Option<ESDAMessageID> {
    if n == 1 {
        Some(ESDAMessageID::SetTargetVelLeft)
    } else if n == 2 {
        Some(ESDAMessageID::SetTargetVelRight)
    } else if n == 3 {
        Some(ESDAMessageID::CurrentVelLeft)
    } else if n == 4 {
        Some(ESDAMessageID::CurrentVelRight)
    } else if n == 5 {
        Some(ESDAMessageID::CurrentDSPLeft)
    } else if n == 6 {
        Some(ESDAMessageID::CurrentDSPRight)
    } else if n == 7 {
        Some(ESDAMessageID::SteerAmount)
    } else if n == 8 {
        Some(ESDAMessageID::ESTOP)
    } else if n == 9 {
        Some(ESDAMessageID::SetAutonomousMode)
    } else if n == 16 {
        Some(ESDAMessageID::MCUState)
    } else if n == 17 {
        Some(ESDAMessageID::MCUErrorState)
    } else {
        None
    }
}

impl ESDAMessageID {
    /// The topic's number on the wire.
    pub fn wire_value(self) -> (n: u32)
        ensures
            n == topic_number(self),
            is_topic_number(n),
    {
        match self {
            ESDAMessageID::SetTargetVelLeft => 1,
            ESDAMessageID::SetTargetVelRight => 2,
            ESDAMessageID::CurrentVelLeft => 3,
            ESDAMessageID::CurrentVelRight => 4,
            ESDAMessageID::CurrentDSPLeft => 5,
            ESDAMessageID::CurrentDSPRight => 6,
            ESDAMessageID::SteerAmount => 7,
            ESDAMessageID::ESTOP => 8,
            ESDAMessageID::SetAutonomousMode => 9,
            ESDAMessageID::MCUState => 16,
            ESDAMessageID::MCUErrorState => 17,
        }
    }

    /// The topic with the number `n`; `None` where `n` is outside the
    /// closed set of topic numbers.
    pub fn from_wire_value(n: u32) -> (id: Option<ESDAMessageID>)
        ensures
            id == topic_of_number(n),
            id is Some <==> is_topic_number(n),
            id matches Some(t) ==> topic_number(t) == n,
    {
        match n {
            1 => Some(ESDAMessageID::SetTargetVelLeft),
            2 => Some(ESDAMessageID::SetTargetVelRight),
            3 => Some(ESDAMessageID::CurrentVelLeft),
            4 => Some(ESDAMessageID::CurrentVelRight),
            5 => Some(ESDAMessageID::CurrentDSPLeft),
            6 => Some(ESDAMessageID::CurrentDSPRight),
            7 => Some(ESDAMessageID::SteerAmount),
            8 => Some(ESDAMessageID::ESTOP),
            9 => Some(ESDAMessageID::SetAutonomousMode),
            16 => Some(ESDAMessageID::MCUState),
            17 => Some(ESDAMessageID::MCUErrorState),
            _ => None,
        }
    }
}

/// A single topic/value pair destined for the wire.
///
/// `data` is the value as the 32 bits of its IEEE-754 single-precision
/// encoding, which is what the frame carries; turning it into a number and
/// back is left to the caller.
#[derive(Clone, Copy, Debug, PartialEq, Eq, Structural)]
pub struct ESDAMessage {
    pub id: ESDAMessageID,
    pub data: u32,
}

/// The four bytes of `n`, least significant first.
pub open spec fn le_quartet(n: u32) -> Seq<u8> {
    seq![
        (n % 256) as u8,
        (n / 256 % 256) as u8,
        (n / 65536 % 256) as u8,
        (n / 16777216) as u8,
    ]
}

/// The four bytes of `n`, most significant first.
pub open spec fn be_quartet(n: u32) -> Seq<u8> {
    seq![
        (n / 16777216) as u8,
        (n / 65536 % 256) as u8,
        (n / 256 % 256) as u8,
        (n % 256) as u8,
    ]
}

/// The number that four bytes spell, least significant first.
pub open spec fn le_number(q: Seq<u8>) -> u32
    recommends
        q.len() == 4,
{
    (q[0] as int + 256 * (q[1] as int) + 65536 * (q[2] as int) + 16777216 * (q[3] as int)) as u32
}

/// The number that four bytes spell, most significant first.
pub open spec fn be_number(q: Seq<u8>) -> u32
    recommends
        q.len() == 4,
{
    (q[3] as int + 256 * (q[2] as int) + 65536 * (q[1] as int) + 16777216 * (q[0] as int)) as u32
}

/// The little-endian frame of a message: topic number, then value.
pub open spec fn le_frame(m: ESDAMessage) -> Seq<u8> {
    le_quartet(topic_number(m.id)) + le_quartet(m.data)
}

/// The big-endian frame of a message: topic number, then value.
pub open spec fn be_frame(m: ESDAMessage) -> Seq<u8> {
    be_quartet(topic_number(m.id)) + be_quartet(m.data)
}

/// What a byte sequence means when read as a little-endian frame.
pub open spec fn le_decoded(s: Seq<u8>) -> Result<ESDAMessage, DecodeError> {
    if s.len() != 8 {
        Err(DecodeError::WrongLength)
    } else {
        match topic_of_number(le_number(s.subrange(0, 4))) {
            Some(id) => Ok(ESDAMessage { id, data: le_number(s.subrange(4, 8)) }),
            None => Err(DecodeError::UnknownTopic),
        }
    }
}

/// What a byte sequence means when read as a big-endian frame.
pub open spec fn be_decoded(s: Seq<u8>) -> Result<ESDAMessage, DecodeError> {
    if s.len() != 8 {
        Err(DecodeError::WrongLength)
    } else {
        match topic_of_number(be_number(s.subrange(0, 4))) {
            Some(id) => Ok(ESDAMessage { id, data: be_number(s.subrange(4, 8)) }),
            None => Err(DecodeError::UnknownTopic),
        }
    }
}

/// The four bytes of `n`, least significant first.
fn split_le(n: u32) -> (q: [u8; 4])
    ensures
        q@ == le_quartet(n),
{
    let q: [u8; 4] = [
        (n % 256) as u8,
        (n / 256 % 256) as u8,
        (n / 65536 % 256) as u8,
        (n / 16777216) as u8,
    ];
    assert(q@ =~= le_quartet(n));
    q
}

/// The number that `b0`, `b1`, `b2`, `b3` spell, least significant first.
fn join_le(b0: u8, b1: u8, b2: u8, b3: u8) -> (n: u32)
    ensures
        n == le_number(seq![b0, b1, b2, b3]),
{
    b0 as u32 + 256 * (b1 as u32) + 65536 * (b2 as u32) + 16777216 * (b3 as u32)
}

impl ESDAMessage {
    /// Reads a message from a little-endian frame.
    ///
    /// Fails with `WrongLength` unless `bytes` has exactly eight bytes, and
    /// with `UnknownTopic` where the first four do not hold a topic number.
    pub fn from_le_bytes(bytes: &[u8]) -> (r: Result<ESDAMessage, DecodeError>)
        ensures
            r == le_decoded(bytes@),
            bytes@.len() != MESSAGE_SIZE ==> r == Err::<ESDAMessage, DecodeError>(
                DecodeError::WrongLength,
            ),
            bytes@.len() == MESSAGE_SIZE && !is_topic_number(le_number(bytes@.subrange(0, 4)))
                ==> r == Err::<ESDAMessage, DecodeError>(DecodeError::UnknownTopic),
            r matches Ok(m) ==> le_frame(m) == bytes@,
    {
        if bytes.len() != MESSAGE_SIZE {
            return Err(DecodeError::WrongLength);
        }
        let topic: u32 = join_le(bytes[0], bytes[1], bytes[2], bytes[3]);
        let data: u32 = join_le(bytes[4], bytes[5], bytes[6], bytes[7]);
        proof {
            assert(bytes@.subrange(0, 4) =~= seq![bytes[0], bytes[1], bytes[2], bytes[3]]);
            assert(bytes@.subrange(4, 8) =~= seq![bytes[4], bytes[5], bytes[6], bytes[7]]);
        }
        match ESDAMessageID::from_wire_value(topic) {
            Some(id) => {
                let m = ESDAMessage { id, data };
                proof {
                    lemma_le_frame_of_decoded(bytes@);
                }
                Ok(m)
            },
            None => Err(DecodeError::UnknownTopic),
        }
    }

    /// Reads a message from a big-endian frame.
    ///
    /// Fails with `WrongLength` unless `bytes` has exactly eight bytes, and
    /// with `UnknownTopic` where the first four do not hold a topic number.
    pub fn from_be_bytes(bytes: &[u8]) -> (r: Result<ESDAMessage, DecodeError>)
        ensures
            r == be_decoded(bytes@),
            bytes@.len() != MESSAGE_SIZE ==> r == Err::<ESDAMessage, DecodeError>(
                DecodeError::WrongLength,
            ),
            bytes@.len() == MESSAGE_SIZE && !is_topic_number(be_number(bytes@.subrange(0, 4)))
                ==> r == Err::<ESDAMessage, DecodeError>(DecodeError::UnknownTopic),
            r matches Ok(m) ==> be_frame(m) == bytes@,
    {
        if bytes.len() != MESSAGE_SIZE {
            return Err(DecodeError::WrongLength);
        }
        let topic: u32 = join_le(bytes[3], bytes[2], bytes[1], bytes[0]);
        let data: u32 = join_le(bytes[7], bytes[6], bytes[5], bytes[4]);
        proof {
            assert(bytes@.subrange(0, 4) =~= seq![bytes[0], bytes[1], bytes[2], bytes[3]]);
            assert(bytes@.subrange(4, 8) =~= seq![bytes[4], bytes[5], bytes[6], bytes[7]]);
        }
        match ESDAMessageID::from_wire_value(topic) {
            Some(id) => {
                let m = ESDAMessage { id, data };
                proof {
                    lemma_be_frame_of_decoded(bytes@);
                }
                Ok(m)
            },
            None => Err(DecodeError::UnknownTopic),
        }
    }

    /// The little-endian frame of this message: always eight bytes.
    pub fn to_le_bytes(&self) -> (frame: [u8; 8])
        ensures
            frame@ == le_frame(*self),
            le_decoded(frame@) == Ok::<ESDAMessage, DecodeError>(*self),
    {
        let id: [u8; 4] = split_le(self.id.wire_value());
        let value: [u8; 4] = split_le(self.data);
        let frame: [u8; 8] = [
            id[0],
            id[1],
            id[2],
            id[3],
            value[0],
            value[1],
            value[2],
            value[3],
        ];
        proof {
            assert(frame@ =~= le_frame(*self));
            lemma_le_decoded_of_frame(*self);
        }
        frame
    }

    /// The big-endian frame of this message: always eight bytes.
    pub fn to_be_bytes(&self) -> (frame: [u8; 8])
        ensures
            frame@ == be_frame(*self),
            be_decoded(frame@) == Ok::<ESDAMessage, DecodeError>(*self),
    {
        let id: [u8; 4] = split_le(self.id.wire_value());
        let value: [u8; 4] = split_le(self.data);
        let frame: [u8; 8] = [
            id[3],
            id[2],
            id[1],
            id[0],
            value[3],
            value[2],
            value[1],
            value[0],
        ];
        proof {
            assert(frame@ =~= be_frame(*self));
            lemma_be_decoded_of_frame(*self);
        }
        frame
    }
}

/// Splitting a number into four bytes and joining them gives the number
/// back, in either byte order.
pub proof fn lemma_number_of_quartet(n: u32)
    ensures
        le_quartet(n).len() == 4,
        be_quartet(n).len() == 4,
        le_number(le_quartet(n)) == n,
        be_number(be_quartet(n)) == n,
{
}

/// Joining four bytes into a number and splitting it gives the bytes back,
/// in either byte order.
pub proof fn lemma_quartet_of_number(q: Seq<u8>)
    requires
        q.len() == 4,
    ensures
        le_quartet(le_number(q)) == q,
        be_quartet(be_number(q)) == q,
{
    lemma_bytes_of_sum(q[0], q[1], q[2], q[3]);
    lemma_bytes_of_sum(q[3], q[2], q[1], q[0]);
    assert(le_quartet(le_number(q)) =~= q);
    assert(be_quartet(be_number(q)) =~= q);
}

/// The base-256 digits of a number written as a sum of four weighted bytes
/// are those bytes.
proof fn lemma_bytes_of_sum(b0: u8, b1: u8, b2: u8, b3: u8)
    ensures
        ({
            let n = b0 as int + 256 * (b1 as int) + 65536 * (b2 as int) + 16777216 * (b3 as int);
            &&& 0 <= n < 4294967296
            &&& n % 256 == b0
            &&& n / 256 % 256 == b1
            &&& n / 65536 % 256 == b2
            &&& n / 16777216 == b3
        }),
{
    let n = b0 as int + 256 * (b1 as int) + 65536 * (b2 as int) + 16777216 * (b3 as int);
    let h1 = b1 as int + 256 * (b2 as int) + 65536 * (b3 as int);
    let h2 = b2 as int + 256 * (b3 as int);
    lemma_fundamental_div_mod_converse(n, 256, h1, b0 as int);
    lemma_fundamental_div_mod_converse(h1, 256, h2, b1 as int);
    lemma_fundamental_div_mod_converse(n, 65536, h2, b0 as int + 256 * (b1 as int));
    lemma_fundamental_div_mod_converse(h2, 256, b3 as int, b2 as int);
    lemma_fundamental_div_mod_converse(
        n,
        16777216,
        b3 as int,
        b0 as int + 256 * (b1 as int) + 65536 * (b2 as int),
    );
}

/// Every number of the closed set belongs to exactly one topic, and every
/// topic's number is in the set.
pub proof fn lemma_topic_numbers(id: ESDAMessageID, n: u32)
    ensures
        is_topic_number(topic_number(id)),
        topic_of_number(topic_number(id)) == Some(id),
        topic_of_number(n) is Some <==> is_topic_number(n),
        topic_of_number(n) matches Some(t) ==> topic_number(t) == n,
{
}

/// Decoding the little-endian frame of a message gives that message.
pub proof fn lemma_le_decoded_of_frame(m: ESDAMessage)
    ensures
        le_frame(m).len() == 8,
        le_decoded(le_frame(m)) == Ok::<ESDAMessage, DecodeError>(m),
{
    let f = le_frame(m);
    lemma_number_of_quartet(topic_number(m.id));
    lemma_number_of_quartet(m.data);
    assert(f.subrange(0, 4) =~= le_quartet(topic_number(m.id)));
    assert(f.subrange(4, 8) =~= le_quartet(m.data));
    lemma_topic_numbers(m.id, 0);
}

/// Decoding the big-endian frame of a message gives that message.
pub proof fn lemma_be_decoded_of_frame(m: ESDAMessage)
    ensures
        be_frame(m).len() == 8,
        be_decoded(be_frame(m)) == Ok::<ESDAMessage, DecodeError>(m),
{
    let f = be_frame(m);
    lemma_number_of_quartet(topic_number(m.id));
    lemma_number_of_quartet(m.data);
    assert(f.subrange(0, 4) =~= be_quartet(topic_number(m.id)));
    assert(f.subrange(4, 8) =~= be_quartet(m.data));
    lemma_topic_numbers(m.id, 0);
}

/// A byte sequence that decodes as a little-endian frame is the frame of
/// the message it decodes to.
pub proof fn lemma_le_frame_of_decoded(s: Seq<u8>)
    ensures
        le_decoded(s) matches Ok(m) ==> le_frame(m) == s,
{
    if le_decoded(s) is Ok {
        let m = le_decoded(s).unwrap();
        lemma_quartet_of_number(s.subrange(0, 4));
        lemma_quartet_of_number(s.subrange(4, 8));
        lemma_topic_numbers(m.id, le_number(s.subrange(0, 4)));
        assert(le_frame(m) =~= s.subrange(0, 4) + s.subrange(4, 8));
        assert(s.subrange(0, 4) + s.subrange(4, 8) =~= s);
    }
}

/// A byte sequence that decodes as a big-endian frame is the frame of the
/// message it decodes to.
pub proof fn lemma_be_frame_of_decoded(s: Seq<u8>)
    ensures
        be_decoded(s) matches Ok(m) ==> be_frame(m) == s,
{
    if be_decoded(s) is Ok {
        let m = be_decoded(s).unwrap();
        lemma_quartet_of_number(s.subrange(0, 4));
        lemma_quartet_of_number(s.subrange(4, 8));
        lemma_topic_numbers(m.id, be_number(s.subrange(0, 4)));
        assert(be_frame(m) =~= s.subrange(0, 4) + s.subrange(4, 8));
        assert(s.subrange(0, 4) + s.subrange(4, 8) =~= s);
    }
}

/// Round trip, little-endian: for every byte sequence that decodes,
/// decoding the frame of what it decodes to gives the same message again.
pub proof fn lemma_le_round_trip(s: Seq<u8>)
    requires
        le_decoded(s) is Ok,
    ensures
        le_decoded(le_frame(le_decoded(s).unwrap())) == le_decoded(s),
{
    lemma_le_frame_of_decoded(s);
}

/// Round trip, big-endian: for every byte sequence that decodes, decoding
/// the frame of what it decodes to gives the same message again.
pub proof fn lemma_be_round_trip(s: Seq<u8>)
    requires
        be_decoded(s) is Ok,
    ensures
        be_decoded(be_frame(be_decoded(s).unwrap())) == be_decoded(s),
{
    lemma_be_frame_of_decoded(s);
}

/// A byte sequence decodes exactly when it has eight bytes of which the
/// first four spell a topic number; otherwise the error says which of the
/// two failed, the length first.
pub proof fn lemma_decode_errors(s: Seq<u8>)
    ensures
        s.len() != 8 ==> le_decoded(s) == Err::<ESDAMessage, DecodeError>(
            DecodeError::WrongLength,
        ) && be_decoded(s) == Err::<ESDAMessage, DecodeError>(DecodeError::WrongLength),
        s.len() == 8 && !is_topic_number(le_number(s.subrange(0, 4))) ==> le_decoded(s) == Err::<
            ESDAMessage,
            DecodeError,
        >(DecodeError::UnknownTopic),
        s.len() == 8 && !is_topic_number(be_number(s.subrange(0, 4))) ==> be_decoded(s) == Err::<
            ESDAMessage,
            DecodeError,
        >(DecodeError::UnknownTopic),
        le_decoded(s) is Ok <==> s.len() == 8 && is_topic_number(le_number(s.subrange(0, 4))),
        be_decoded(s) is Ok <==> s.len() == 8 && is_topic_number(be_number(s.subrange(0, 4))),
{
    lemma_topic_numbers(ESDAMessageID::ESTOP, le_number(s.subrange(0, 4)));
    lemma_topic_numbers(ESDAMessageID::ESTOP, be_number(s.subrange(0, 4)));
}

} // verus!
