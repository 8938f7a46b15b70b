//! Messages on a stream.

use vstd::prelude::*;
use crate::protocol;
use crate::protocol::FrameError;

verus! {

/// The number that four bytes say, the least significant first.
pub open spec fn said_by(a: u8, b: u8, c: u8, d: u8) -> int {
    a + 256 * (b + 256 * (c + 256 * d))
}

/// A frame begins with the length of its payload in four bytes, the least significant first,
/// and goes on with the payload as it is.
pub proof fn frames_begin_with_their_length(payload: Seq<u8>)
    requires
        payload.len() <= 262_144,
    ensures
        ({
            let frame = protocol::frame_of(payload);
            &&& frame.len() == 4 + payload.len()
            &&& said_by(frame[0], frame[1], frame[2], frame[3]) == payload.len()
            &&& frame.skip(4) == payload
        }),
{
    protocol::frame_prefix_is_payload_length(payload);
    assert(protocol::frame_of(payload).skip(4) =~= payload);
}

/// A frame is taken off a stream exactly when its header is there, says a length of at most
/// 262144 bytes, and so many bytes follow; they are the payload, and what follows them is
/// left. An empty stream holds no frame, a longer length is refused whatever follows, and
/// every other stream ends too early.
pub proof fn whole_frames_are_taken(stream: Seq<u8>)
    ensures
        stream.len() == 0 ==> protocol::frame_read(stream) == Ok::<
            Option<(Seq<u8>, Seq<u8>)>,
            FrameError,
        >(None),
        0 < stream.len() < 4 ==> protocol::frame_read(stream) == Err::<
            Option<(Seq<u8>, Seq<u8>)>,
            FrameError,
        >(FrameError::Truncated),
        stream.len() >= 4 ==> {
            let length = said_by(stream[0], stream[1], stream[2], stream[3]);
            &&& length > 262_144 ==> protocol::frame_read(stream) == Err::<
                Option<(Seq<u8>, Seq<u8>)>,
                FrameError,
            >(FrameError::Oversized { actual: length as usize, maximum: 262_144 })
            &&& length <= 262_144 && stream.len() < 4 + length ==> protocol::frame_read(stream)
                == Err::<Option<(Seq<u8>, Seq<u8>)>, FrameError>(FrameError::Truncated)
            &&& length <= 262_144 && stream.len() >= 4 + length ==> protocol::frame_read(stream)
                == Ok::<Option<(Seq<u8>, Seq<u8>)>, FrameError>(
                Some((stream.subrange(4, 4 + length), stream.skip(4 + length))),
            )
        },
{
}

/// The protocol is the first of its kind.
pub proof fn protocol_is_the_first()
    ensures
        protocol::current_version().major == 1,
        protocol::current_version().minor == 0,
{
}

} // verus!
