//! The transmitter: which frames follow a snapshot, in which order, and the
//! two-state machine that hands them out one by one.

use crate::esda_controls::ControllerState;
use crate::esda_interface::{
    le_decoded, le_frame, le_quartet, lemma_le_decoded_of_frame, DecodeError, ESDAMessage,
    ESDAMessageID,
};
use vstd::prelude::*;

verus! {

/// The value of an E-stop message: the single-precision encoding of one.
pub const ESTOP_PAYLOAD: u32 = 0x3F80_0000;

/// The messages that follow a snapshot, in sending order.
///
/// `steer` is the mapped x-axis value and `throttle` the mapped y-axis
/// value. The three standing messages are always there; both throttle
/// channels carry the same value. A latched E-stop puts its own message in
/// front of them.
pub open spec fn batch(snapshot: ControllerState, steer: u32, throttle: u32) -> Seq<ESDAMessage> {
    let standing = seq![
        ESDAMessage { id: ESDAMessageID::SteerAmount, data: steer },
        ESDAMessage { id: ESDAMessageID::SetTargetVelLeft, data: throttle },
        ESDAMessage { id: ESDAMessageID::SetTargetVelRight, data: throttle },
    ];
    if snapshot.estop_latched {
        seq![ESDAMessage { id: ESDAMessageID::ESTOP, data: ESTOP_PAYLOAD }] + standing
    } else {
        standing
    }
}

/// The little-endian frames of a sequence of messages, in the same order.
pub open spec fn frames_of(messages: Seq<ESDAMessage>) -> Seq<Seq<u8>> {
    Seq::new(messages.len(), |i: int| le_frame(messages[i]))
}

/// The byte sequences that a vector of frames holds.
pub open spec fn frame_views(frames: Seq<[u8; 8]>) -> Seq<Seq<u8>> {
    Seq::new(frames.len(), |i: int| frames[i]@)
}

/// The messages to send for one snapshot, in sending order.
pub fn batch_messages(snapshot: &ControllerState, steer: u32, throttle: u32) -> (messages: Vec<
    ESDAMessage,
>)
    ensures
        messages@ == batch(*snapshot, steer, throttle),
        messages@.len() == if snapshot.estop_latched {
            4int
        } else {
            3int
        },
        snapshot.estop_latched <==> exists|i: int|
            0 <= i < messages@.len() && (#[trigger] messages@[i]).id == ESDAMessageID::ESTOP,
{
    let mut messages: Vec<ESDAMessage> = Vec::new();
    if snapshot.estop_latched {
        messages.push(ESDAMessage { id: ESDAMessageID::ESTOP, data: ESTOP_PAYLOAD });
    }
    messages.push(ESDAMessage { id: ESDAMessageID::SteerAmount, data: steer });
    messages.push(ESDAMessage { id: ESDAMessageID::SetTargetVelLeft, data: throttle });
    messages.push(ESDAMessage { id: ESDAMessageID::SetTargetVelRight, data: throttle });
    proof {
        assert(messages@ =~= batch(*snapshot, steer, throttle));
        if snapshot.estop_latched {
            assert(messages@[0].id == ESDAMessageID::ESTOP);
        }
    }
    messages
}

/// The frames to broadcast for one snapshot, in sending order, each to be
/// sent on its own.
pub fn wireless_transmitter(snapshot: &ControllerState, steer: u32, throttle: u32) -> (frames: Vec<
    [u8; 8],
>)
    ensures
        frame_views(frames@) == frames_of(batch(*snapshot, steer, throttle)),
        frames@.len() == if snapshot.estop_latched {
            4int
        } else {
            3int
        },
{
    let messages = batch_messages(snapshot, steer, throttle);
    let mut frames: Vec<[u8; 8]> = Vec::new();
    let mut i: usize = 0;
    while i < messages.len()
        invariant
            i <= messages@.len(),
            frames@.len() == i,
            forall|j: int| 0 <= j < i ==> (#[trigger] frames@[j])@ == le_frame(messages@[j]),
        decreases messages@.len() - i,
    {
        frames.push(messages[i].to_le_bytes());
        i += 1;
    }
    assert(frame_views(frames@) =~= frames_of(messages@));
    frames
}

/// The two states of the transmitter.
#[derive(Clone, Copy, Debug, PartialEq, Eq, Structural)]
pub enum TransmitterState {
    /// Waiting for a snapshot.
    Idle,
    /// Working through the frames of the current snapshot.
    Sending,
}

/// The state that goes with a sequence of frames still to be attempted.
pub open spec fn state_of(pending: Seq<Seq<u8>>) -> TransmitterState {
    if pending.len() == 0 {
        TransmitterState::Idle
    } else {
        TransmitterState::Sending
    }
}

/// The transmitter between two sends. Its view is the sequence of frames
/// of the current snapshot that have not been attempted yet, the next one
/// first; it is idle exactly when that sequence is empty.
pub struct Transmitter {
    frames: Vec<[u8; 8]>,
    attempted: usize,
}

impl View for Transmitter {
    type V = Seq<Seq<u8>>;

    closed spec fn view(&self) -> Seq<Seq<u8>> {
        frame_views(self.frames@).skip(self.attempted as int)
    }
}

impl Transmitter {
    #[verifier::type_invariant]
    spec fn attempted_within_frames(self) -> bool {
        self.attempted <= self.frames@.len()
    }

    /// An idle transmitter.
    pub fn new() -> (transmitter: Transmitter)
        ensures
            transmitter@ == Seq::<Seq<u8>>::empty(),
            state_of(transmitter@) == TransmitterState::Idle,
    {
        let transmitter = Transmitter { frames: Vec::new(), attempted: 0 };
        assert(transmitter@ =~= Seq::<Seq<u8>>::empty());
        transmitter
    }

    /// The state the transmitter is in.
    pub fn state(&self) -> (state: TransmitterState)
        ensures
            state == state_of(self@),
    {
        proof {
            use_type_invariant(self);
        }
        if self.attempted < self.frames.len() {
            TransmitterState::Sending
        } else {
            TransmitterState::Idle
        }
    }

    /// A snapshot arrives. An idle transmitter takes it, returns `true` and
    /// is then sending its frames. One that is still sending returns
    /// `false` and stays as it is: the snapshot remains with the caller.
    pub fn accept(&mut self, snapshot: &ControllerState, steer: u32, throttle: u32) -> (taken: bool)
        ensures
            taken <==> state_of(old(self)@) == TransmitterState::Idle,
            taken ==> final(self)@ == frames_of(batch(*snapshot, steer, throttle)),
            taken ==> state_of(final(self)@) == TransmitterState::Sending,
            !taken ==> final(self)@ == old(self)@,
    {
        proof {
            use_type_invariant(&*self);
        }
        if self.attempted < self.frames.len() {
            return false;
        }
        let frames = wireless_transmitter(snapshot, steer, throttle);
        proof {
            assert(frame_views(frames@).skip(0) =~= frame_views(frames@));
        }
        *self = Transmitter { frames, attempted: 0 };
        true
    }

    /// The frame to send now: the first that has not been attempted.
    /// `None` while idle.
    pub fn next_frame(&self) -> (frame: Option<[u8; 8]>)
        ensures
            frame is Some <==> state_of(self@) == TransmitterState::Sending,
            frame matches Some(f) ==> f@ == self@.first(),
    {
        proof {
            use_type_invariant(self);
        }
        if self.attempted < self.frames.len() {
            Some(self.frames[self.attempted])
        } else {
            None
        }
    }

    /// The frame handed out by [`Transmitter::next_frame`] has been
    /// attempted. Delivered or not, it leaves the sequence and the rest
    /// stays: a failed send cancels nothing and is not repeated. After the
    /// last frame the transmitter is idle again. While idle nothing changes.
    pub fn frame_attempted(&mut self, delivered: bool)
        ensures
            state_of(old(self)@) == TransmitterState::Sending ==> final(self)@ == old(
                self,
            )@.drop_first(),
            state_of(old(self)@) == TransmitterState::Idle ==> final(self)@ == old(self)@,
    {
        proof {
            use_type_invariant(&*self);
        }
        if self.attempted < self.frames.len() {
            let ghost before = self@;
            self.attempted = self.attempted + 1;
            assert(self@ =~= before.drop_first());
        }
    }
}

/// What goes on the wire for a snapshot: the steer frame carries the
/// mapped x-axis value, both throttle frames carry the mapped y-axis value,
/// and a frame of the E-stop topic is among them exactly when the E-stop is
/// latched, in which case it comes first and carries [`ESTOP_PAYLOAD`].
pub proof fn lemma_frames_on_the_wire(snapshot: ControllerState, steer: u32, throttle: u32)
    ensures
        ({
            let frames = frames_of(batch(snapshot, steer, throttle));
            let first: int = if snapshot.estop_latched {
                1
            } else {
                0
            };
            &&& frames.len() == first + 3
            &&& forall|i: int| 0 <= i < frames.len() ==> (#[trigger] frames[i]).len() == 8
            &&& le_decoded(frames[first]) == Ok::<ESDAMessage, DecodeError>(
                ESDAMessage { id: ESDAMessageID::SteerAmount, data: steer },
            )
            &&& frames[first].subrange(4, 8) == le_quartet(steer)
            &&& le_decoded(frames[first + 1]) == Ok::<ESDAMessage, DecodeError>(
                ESDAMessage { id: ESDAMessageID::SetTargetVelLeft, data: throttle },
            )
            &&& le_decoded(frames[first + 2]) == Ok::<ESDAMessage, DecodeError>(
                ESDAMessage { id: ESDAMessageID::SetTargetVelRight, data: throttle },
            )
            &&& snapshot.estop_latched ==> le_decoded(frames[0]) == Ok::<ESDAMessage, DecodeError>(
                ESDAMessage { id: ESDAMessageID::ESTOP, data: ESTOP_PAYLOAD },
            )
            &&& snapshot.estop_latched <==> exists|i: int|
                0 <= i < frames.len() && (le_decoded(#[trigger] frames[i]) matches Ok(m) && m.id
                    == ESDAMessageID::ESTOP)
        }),
{
    let messages = batch(snapshot, steer, throttle);
    let frames = frames_of(messages);
    assert forall|i: int| 0 <= i < frames.len() implies (#[trigger] frames[i]).len() == 8
        && le_decoded(frames[i]) == Ok::<ESDAMessage, DecodeError>(messages[i]) by {
        lemma_le_decoded_of_frame(messages[i]);
    }
    let first: int = if snapshot.estop_latched {
        1
    } else {
        0
    };
    assert(frames[first].subrange(4, 8) =~= le_quartet(steer));
    if snapshot.estop_latched {
        assert(le_decoded(frames[0]) matches Ok(m) && m.id == ESDAMessageID::ESTOP);
    }
}

} // verus!
