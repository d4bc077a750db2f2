//! The pilot link's decoder: frame-aligned reads while the stream is in
//! step, and a byte-by-byte search for the header after a frame that does
//! not start with it.
//!
//! The decoder never reads by itself. It says how many bytes it wants next,
//! the caller reads that many from the link and hands them over; a read that
//! fails is simply tried again, the decoder's state is untouched by it.

use crate::frame::{
    decode_frame, decode_spec, header_matches, FrameError, PilotCommand, FRAME_LEN, HEADER_0,
    HEADER_1,
};
use vstd::prelude::*;
use vstd::slice::slice_subrange;

verus! {

/// Bytes of a frame that follow its header.
pub const FRAME_REST: usize = 30;

/// Where the decoder stands in the byte stream.
#[derive(Clone, Copy, Debug, PartialEq, Eq, Structural)]
pub enum SyncState {
    /// In step: the next 32 bytes are one frame.
    Aligned,
    /// Out of step, looking for the header one byte at a time. `half` is set
    /// when the byte before was the header's first byte.
    Hunting { half: bool },
    /// The header was just found: the 30 bytes behind it are the rest of a
    /// frame that is thrown away, after which the stream is in step again.
    Skipping,
}

/// What the decoder made of one chunk.
#[derive(Clone, Copy, Debug, PartialEq, Eq, Structural)]
pub enum Feedback {
    /// A frame was accepted and carries this command.
    Command(PilotCommand),
    /// A frame was dropped; a header mismatch also starts the search.
    Rejected(FrameError),
    /// The chunk was consumed by the search; nothing to report.
    Quiet,
}

/// How many bytes the decoder takes next in a given state.
pub open spec fn wanted(state: SyncState) -> nat {
    match state {
        SyncState::Aligned => FRAME_LEN as nat,
        SyncState::Hunting { .. } => 1,
        SyncState::Skipping => FRAME_REST as nat,
    }
}

/// The state after a chunk of `wanted(state)` bytes.
///
/// In step, only a missing header starts the search: a frame with a bad
/// checksum is dropped and the next frame is read at the next boundary.
pub open spec fn next_state(state: SyncState, chunk: Seq<u8>) -> SyncState {
    match state {
        SyncState::Aligned => if header_matches(chunk) {
            SyncState::Aligned
        } else {
            SyncState::Hunting { half: false }
        },
        SyncState::Hunting { half } => if half && chunk[0] == HEADER_1 {
            SyncState::Skipping
        } else {
            SyncState::Hunting { half: chunk[0] == HEADER_0 }
        },
        SyncState::Skipping => SyncState::Aligned,
    }
}

/// What is reported for a chunk of `wanted(state)` bytes.
pub open spec fn feedback(state: SyncState, chunk: Seq<u8>) -> Feedback {
    match state {
        SyncState::Aligned => match decode_spec(chunk) {
            Ok(command) => Feedback::Command(command),
            Err(e) => Feedback::Rejected(e),
        },
        _ => Feedback::Quiet,
    }
}

/// The commands that a chunk contributes: one for an accepted frame, none
/// otherwise.
pub open spec fn emitted(state: SyncState, chunk: Seq<u8>) -> Seq<PilotCommand> {
    match feedback(state, chunk) {
        Feedback::Command(command) => seq![command],
        _ => Seq::empty(),
    }
}

/// The commands decoded from a byte stream that is entered in `state`, in
/// order. Bytes at the end that do not fill the next chunk are left alone.
pub open spec fn stream_commands(state: SyncState, bytes: Seq<u8>) -> Seq<PilotCommand>
    decreases bytes.len(),
{
    let n = wanted(state) as int;
    if bytes.len() < n {
        Seq::empty()
    } else {
        emitted(state, bytes.take(n)) + stream_commands(
            next_state(state, bytes.take(n)),
            bytes.skip(n),
        )
    }
}

/// The state in which the decoder is left by a byte stream entered in
/// `state`.
pub open spec fn stream_state(state: SyncState, bytes: Seq<u8>) -> SyncState
    decreases bytes.len(),
{
    let n = wanted(state) as int;
    if bytes.len() < n {
        state
    } else {
        stream_state(next_state(state, bytes.take(n)), bytes.skip(n))
    }
}

/// How many bytes of a stream entered in `state` are taken up by whole
/// chunks.
pub open spec fn stream_consumed(state: SyncState, bytes: Seq<u8>) -> nat
    decreases bytes.len(),
{
    let n = wanted(state) as int;
    if bytes.len() < n {
        0
    } else {
        n as nat + stream_consumed(next_state(state, bytes.take(n)), bytes.skip(n))
    }
}

/// The decoder of the pilot link.
pub struct ReceiverDecoder {
    state: SyncState,
}

impl ReceiverDecoder {
    /// The decoder's place in the stream.
    pub closed spec fn view(&self) -> SyncState {
        self.state
    }

    /// A decoder that takes the stream to be in step.
    pub fn new() -> (decoder: Self)
        ensures
            decoder@ == SyncState::Aligned,
    {
        ReceiverDecoder { state: SyncState::Aligned }
    }

    /// The decoder's place in the stream.
    pub fn state(&self) -> (state: SyncState)
        ensures
            state == self@,
    {
        self.state
    }

    /// How many bytes to read next: a whole frame in step, one byte while
    /// searching, the rest of a frame once the header is found.
    pub fn wanted(&self) -> (n: usize)
        ensures
            n == wanted(self@),
    {
        match self.state {
            SyncState::Aligned => FRAME_LEN,
            SyncState::Hunting { .. } => 1,
            SyncState::Skipping => FRAME_REST,
        }
    }

    /// Takes the bytes that were read, as many as [`Self::wanted`] asked
    /// for, moves on in the stream and reports what they were.
    pub fn feed(&mut self, chunk: &[u8]) -> (report: Feedback)
        requires
            chunk@.len() == wanted(old(self)@),
        ensures
            final(self)@ == next_state(old(self)@, chunk@),
            report == feedback(old(self)@, chunk@),
    {
        match self.state {
            SyncState::Aligned => {
                let mut frame: [u8; 32] = [0u8; 32];
                let mut i: usize = 0;
                while i < FRAME_LEN
                    invariant
                        i <= FRAME_LEN,
                        chunk@.len() == FRAME_LEN,
                        forall|k: int| 0 <= k < i ==> frame@[k] == chunk@[k],
                    decreases FRAME_LEN - i,
                {
                    frame[i] = chunk[i];
                    i += 1;
                }
                assert(frame@ =~= chunk@);
                match decode_frame(&frame) {
                    Ok(command) => Feedback::Command(command),
                    Err(FrameError::InvalidPacket) => {
                        self.state = SyncState::Hunting { half: false };
                        Feedback::Rejected(FrameError::InvalidPacket)
                    },
                    Err(FrameError::FailsChecksum) => Feedback::Rejected(FrameError::FailsChecksum),
                }
            },
            SyncState::Hunting { half } => {
                let byte: u8 = chunk[0];
                if half && byte == HEADER_1 {
                    self.state = SyncState::Skipping;
                } else {
                    self.state = SyncState::Hunting { half: byte == HEADER_0 };
                }
                Feedback::Quiet
            },
            SyncState::Skipping => {
                self.state = SyncState::Aligned;
                Feedback::Quiet
            },
        }
    }

    /// Decodes a stretch of the stream that is already in memory, chunk by
    /// chunk as [`Self::feed`] would, and returns the commands of the
    /// accepted frames in order together with the number of bytes taken.
    /// Bytes at the end that do not fill the next chunk are not taken.
    pub fn decode_stream(&mut self, bytes: &[u8]) -> (out: (Vec<PilotCommand>, usize))
        ensures
            out.0@ == stream_commands(old(self)@, bytes@),
            out.1 == stream_consumed(old(self)@, bytes@),
            final(self)@ == stream_state(old(self)@, bytes@),
    {
        let ghost entered = self@;
        let mut commands: Vec<PilotCommand> = Vec::new();
        let mut pos: usize = 0;
        assert(bytes@.skip(0) =~= bytes@);
        loop
            invariant
                pos <= bytes@.len(),
                stream_commands(entered, bytes@) == commands@ + stream_commands(
                    self@,
                    bytes@.skip(pos as int),
                ),
                stream_consumed(entered, bytes@) == pos + stream_consumed(
                    self@,
                    bytes@.skip(pos as int),
                ),
                stream_state(entered, bytes@) == stream_state(self@, bytes@.skip(pos as int)),
            ensures
                bytes@.len() - pos < wanted(self@),
            decreases bytes@.len() - pos,
        {
            let n: usize = self.wanted();
            if bytes.len() - pos < n {
                break ;
            }
            let ghost before = self@;
            let ghost rest = bytes@.skip(pos as int);
            let chunk = slice_subrange(bytes, pos, pos + n);
            proof {
                assert(rest.take(n as int) =~= chunk@);
                assert(rest.skip(n as int) =~= bytes@.skip(pos + n));
            }
            let ghost sofar = commands@;
            let report = self.feed(chunk);
            if let Feedback::Command(command) = report {
                commands.push(command);
            }
            proof {
                assert(commands@ =~= sofar + emitted(before, chunk@));
                assert(commands@ + stream_commands(self@, bytes@.skip(pos + n)) =~= sofar
                    + stream_commands(before, rest));
            }
            pos += n;
        }
        assert(commands@ + Seq::<PilotCommand>::empty() =~= commands@);
        (commands, pos)
    }
}

/// No header is found while searching through `bytes`, where `half` says
/// whether the byte before them was the header's first byte.
pub open spec fn header_free(half: bool, bytes: Seq<u8>) -> bool {
    &&& bytes.len() > 0 && half ==> bytes[0] != HEADER_1
    &&& forall|i: int|
        0 <= i < bytes.len() - 1 ==> !(#[trigger] bytes[i] == HEADER_0 && bytes[i + 1] == HEADER_1)
}

/// Whether the search stands on the header's first byte after `bytes`.
pub open spec fn half_after(half: bool, bytes: Seq<u8>) -> bool {
    if bytes.len() == 0 {
        half
    } else {
        bytes.last() == HEADER_0
    }
}

/// A stream that starts with a whole chunk decodes as that chunk followed
/// by the rest of the stream, entered in the state the chunk leaves.
pub proof fn lemma_stream_step(state: SyncState, chunk: Seq<u8>, tail: Seq<u8>)
    requires
        chunk.len() == wanted(state),
    ensures
        stream_commands(state, chunk + tail) == emitted(state, chunk) + stream_commands(
            next_state(state, chunk),
            tail,
        ),
        stream_state(state, chunk + tail) == stream_state(next_state(state, chunk), tail),
        stream_consumed(state, chunk + tail) == chunk.len() + stream_consumed(
            next_state(state, chunk),
            tail,
        ),
{
    let n = wanted(state) as int;
    assert((chunk + tail).take(n) =~= chunk);
    assert((chunk + tail).skip(n) =~= tail);
}

/// While searching, bytes that hold no header are passed over without any
/// command, and the search goes on behind them.
pub proof fn lemma_search_passes_noise(half: bool, noise: Seq<u8>, tail: Seq<u8>)
    requires
        header_free(half, noise),
    ensures
        stream_commands(SyncState::Hunting { half }, noise + tail) == stream_commands(
            SyncState::Hunting { half: half_after(half, noise) },
            tail,
        ),
        stream_state(SyncState::Hunting { half }, noise + tail) == stream_state(
            SyncState::Hunting { half: half_after(half, noise) },
            tail,
        ),
    decreases noise.len(),
{
    if noise.len() == 0 {
        assert(noise + tail =~= tail);
    } else {
        let first = noise.take(1);
        let rest = noise.skip(1);
        let here = SyncState::Hunting { half };
        let then = SyncState::Hunting { half: noise[0] == HEADER_0 };
        assert(noise + tail =~= first + (rest + tail));
        lemma_stream_step(here, first, rest + tail);
        assert(next_state(here, first) == then);
        assert(emitted(here, first) =~= Seq::<PilotCommand>::empty());
        assert(header_free(noise[0] == HEADER_0, rest)) by {
            assert forall|i: int| 0 <= i < rest.len() - 1 implies !(#[trigger] rest[i] == HEADER_0
                && rest[i + 1] == HEADER_1) by {
                assert(rest[i] == noise[i + 1]);
                assert(rest[i + 1] == noise[i + 2]);
            }
            if rest.len() > 0 {
                assert(rest[0] == noise[1]);
            }
        }
        lemma_search_passes_noise(noise[0] == HEADER_0, rest, tail);
        assert(half_after(noise[0] == HEADER_0, rest) == half_after(half, noise)) by {
            if rest.len() > 0 {
                assert(rest.last() == noise.last());
            }
        }
        assert(Seq::<PilotCommand>::empty() + stream_commands(then, rest + tail)
            =~= stream_commands(then, rest + tail));
    }
}

/// While searching, a frame that starts with the header ends the search:
/// its header is recognised, its other thirty bytes are thrown away without
/// any command, and the stream behind it is read in step.
pub proof fn lemma_search_locks_on_header(half: bool, lead: Seq<u8>, tail: Seq<u8>)
    requires
        lead.len() == FRAME_LEN,
        header_matches(lead),
    ensures
        stream_commands(SyncState::Hunting { half }, lead + tail) == stream_commands(
            SyncState::Aligned,
            tail,
        ),
        stream_state(SyncState::Hunting { half }, lead + tail) == stream_state(
            SyncState::Aligned,
            tail,
        ),
{
    let b0 = lead.subrange(0, 1);
    let b1 = lead.subrange(1, 2);
    let body = lead.subrange(2, 32);
    let none = Seq::<PilotCommand>::empty();
    let s0 = SyncState::Hunting { half };
    let s1 = SyncState::Hunting { half: true };
    assert(lead + tail =~= b0 + (b1 + (body + tail)));
    lemma_stream_step(s0, b0, b1 + (body + tail));
    assert(next_state(s0, b0) == s1);
    lemma_stream_step(s1, b1, body + tail);
    assert(next_state(s1, b1) == SyncState::Skipping);
    lemma_stream_step(SyncState::Skipping, body, tail);
    assert(none + stream_commands(SyncState::Aligned, tail) =~= stream_commands(
        SyncState::Aligned,
        tail,
    ));
}

/// Resynchronisation. Let a stream that is read in step hold a frame `bad`
/// that does not start with the header, then any bytes `noise` in which no
/// header occurs, then a frame `lead` that starts with the header, then a
/// frame `good` that is in order. The decoder then gives exactly one
/// command, the one that `good` carries, and ends in step: nothing is
/// derived from `bad`, `noise` or `lead`.
pub proof fn lemma_resync_recovers(bad: Seq<u8>, noise: Seq<u8>, lead: Seq<u8>, good: Seq<u8>)
    requires
        bad.len() == FRAME_LEN,
        !header_matches(bad),
        header_free(false, noise),
        lead.len() == FRAME_LEN,
        header_matches(lead),
        good.len() == FRAME_LEN,
        decode_spec(good) is Ok,
    ensures
        stream_commands(SyncState::Aligned, bad + noise + lead + good) == seq![
            decode_spec(good)->Ok_0,
        ],
        stream_state(SyncState::Aligned, bad + noise + lead + good) == SyncState::Aligned,
{
    let none = Seq::<PilotCommand>::empty();
    let end = Seq::<u8>::empty();
    let hunting = SyncState::Hunting { half: false };
    assert(bad + noise + lead + good =~= bad + (noise + (lead + (good + end))));
    lemma_stream_step(SyncState::Aligned, bad, noise + (lead + (good + end)));
    assert(emitted(SyncState::Aligned, bad) =~= none);
    lemma_search_passes_noise(false, noise, lead + (good + end));
    lemma_search_locks_on_header(half_after(false, noise), lead, good + end);
    lemma_stream_step(SyncState::Aligned, good, end);
    assert(stream_commands(SyncState::Aligned, end) =~= none);
    assert(none + (seq![decode_spec(good)->Ok_0] + none) =~= seq![decode_spec(good)->Ok_0]);
    assert(none + stream_commands(hunting, noise + (lead + (good + end))) =~= stream_commands(
        hunting,
        noise + (lead + (good + end)),
    ));
}

/// A frame with the header in place and a wrong checksum is dropped without
/// a search: the frame behind it is read at the next frame boundary.
pub proof fn lemma_checksum_failure_keeps_step(bad: Seq<u8>, tail: Seq<u8>)
    requires
        bad.len() == FRAME_LEN,
        header_matches(bad),
    ensures
        decode_spec(bad) is Err ==> stream_commands(SyncState::Aligned, bad + tail)
            == stream_commands(SyncState::Aligned, tail),
        stream_state(SyncState::Aligned, bad + tail) == stream_state(SyncState::Aligned, tail),
{
    lemma_stream_step(SyncState::Aligned, bad, tail);
    assert(Seq::<PilotCommand>::empty() + stream_commands(SyncState::Aligned, tail)
        =~= stream_commands(SyncState::Aligned, tail));
}

} // verus!
