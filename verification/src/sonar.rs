//! The depth sounder's wire format and its hold-last-value policy.
//!
//! A frame is four bytes: a start marker, the distance in millimetres as
//! two bytes, high byte first, and a checksum, the sum of the two distance
//! bytes modulo 256. A frame that is not in order changes nothing: the
//! vehicle goes on with the last distance that was measured.

use vstd::prelude::*;

verus! {

/// Bytes in one frame.
pub const SONAR_FRAME_LEN: usize = 4;

/// The start marker.
pub const START: u8 = 0xFF;

/// Millimetres in the unit that the control loop works in, the metre.
pub const MILLIMETRES_PER_METRE: u16 = 1000;

/// Why a frame was not accepted.
#[derive(Clone, Copy, Debug, PartialEq, Eq, Structural)]
pub enum SonarError {
    /// The first byte is not the start marker.
    BadStart,
    /// The checksum byte is not the sum of the two distance bytes.
    BadChecksum,
}

/// The distance field of a frame, in millimetres.
pub open spec fn distance_field(frame: Seq<u8>) -> int {
    256 * frame[1] + frame[2]
}

/// The frame begins with the start marker.
pub open spec fn start_matches(frame: Seq<u8>) -> bool {
    frame.len() == SONAR_FRAME_LEN && frame[0] == START
}

/// The last byte is the sum of the two distance bytes modulo 256.
pub open spec fn sum_matches(frame: Seq<u8>) -> bool {
    frame.len() == SONAR_FRAME_LEN && (frame[1] + frame[2]) % 256 == frame[3]
}

/// What one frame reads as: the start marker is checked first, then the
/// checksum; a frame that passes both gives its distance field.
pub open spec fn reading(frame: Seq<u8>) -> Result<u16, SonarError> {
    if !start_matches(frame) {
        Err(SonarError::BadStart)
    } else if !sum_matches(frame) {
        Err(SonarError::BadChecksum)
    } else {
        Ok(distance_field(frame) as u16)
    }
}

/// The distance that is held after a frame, given the one held before: the
/// frame's own where it is in order, else the old one.
pub open spec fn held_after(held: u16, frame: Seq<u8>) -> u16 {
    match reading(frame) {
        Ok(millimetres) => millimetres,
        Err(_) => held,
    }
}

/// The distance held after a run of frames, taken in order.
pub open spec fn held_after_all(held: u16, frames: Seq<Seq<u8>>) -> u16
    decreases frames.len(),
{
    if frames.len() == 0 {
        held
    } else {
        held_after(held_after_all(held, frames.drop_last()), frames.last())
    }
}

/// Reads the distance in millimetres out of one frame.
///
/// Fails with [`SonarError::BadStart`] exactly when the first byte is not
/// the start marker, and with [`SonarError::BadChecksum`] exactly when it is
/// and the checksum is wrong.
pub fn parse_distance(frame: &[u8; 4]) -> (r: Result<u16, SonarError>)
    ensures
        r == reading(frame@),
{
    if frame[0] != START {
        return Err(SonarError::BadStart);
    }
    let high: u16 = frame[1] as u16;
    let low: u16 = frame[2] as u16;
    let sum: u16 = (high + low) % 256;
    if sum != frame[3] as u16 {
        return Err(SonarError::BadChecksum);
    }
    Ok(high * 256 + low)
}

/// The depth sounder as the control loop sees it: the last distance that a
/// frame in order has given, zero before the first one.
pub struct DepthSensor {
    millimetres: u16,
}

impl DepthSensor {
    /// The distance that is held, in millimetres.
    pub closed spec fn view(&self) -> u16 {
        self.millimetres
    }

    /// A sensor that has not measured yet and holds zero.
    pub fn new() -> (sensor: Self)
        ensures
            sensor@ == 0,
    {
        DepthSensor { millimetres: 0 }
    }

    /// The distance that is held, in millimetres.
    pub fn millimetres(&self) -> (held: u16)
        ensures
            held == self@,
    {
        self.millimetres
    }

    /// Takes one frame. A frame in order replaces the distance that is
    /// held; any other frame is reported and leaves it exactly as it was.
    pub fn accept(&mut self, frame: &[u8; 4]) -> (r: Result<u16, SonarError>)
        ensures
            r == reading(frame@),
            final(self)@ == held_after(old(self)@, frame@),
            r is Err ==> final(self)@ == old(self)@,
            r is Ok ==> final(self)@ == r->Ok_0,
    {
        let r = parse_distance(frame);
        if let Ok(millimetres) = r {
            self.millimetres = millimetres;
        }
        r
    }
}

/// Fail-static. However many frames out of order follow one another, the
/// distance that is held stays what it was before the first of them.
pub proof fn lemma_invalid_frames_hold_value(held: u16, frames: Seq<Seq<u8>>)
    requires
        forall|i: int| 0 <= i < frames.len() ==> (#[trigger] reading(frames[i])) is Err,
    ensures
        held_after_all(held, frames) == held,
    decreases frames.len(),
{
    if frames.len() > 0 {
        let earlier = frames.drop_last();
        assert forall|i: int| 0 <= i < earlier.len() implies (#[trigger] reading(earlier[i])) is Err by {
            assert(earlier[i] == frames[i]);
        }
        lemma_invalid_frames_hold_value(held, earlier);
        assert(reading(frames[frames.len() - 1]) is Err);
    }
}

/// After any run of frames the distance that is held is the one that the
/// last frame in order gave, whatever came behind it.
pub proof fn lemma_last_valid_frame_wins(held: u16, before: Seq<Seq<u8>>, valid: Seq<u8>, after: Seq<Seq<u8>>)
    requires
        reading(valid) is Ok,
        forall|i: int| 0 <= i < after.len() ==> (#[trigger] reading(after[i])) is Err,
    ensures
        held_after_all(held, before.push(valid) + after) == reading(valid)->Ok_0,
    decreases after.len(),
{
    let all = before.push(valid) + after;
    if after.len() == 0 {
        assert(all =~= before.push(valid));
        assert(all.drop_last() =~= before);
    } else {
        let earlier = after.drop_last();
        assert forall|i: int| 0 <= i < earlier.len() implies (#[trigger] reading(earlier[i])) is Err by {
            assert(earlier[i] == after[i]);
        }
        lemma_last_valid_frame_wins(held, before, valid, earlier);
        assert(all.drop_last() =~= before.push(valid) + earlier);
        assert(all.last() == after[after.len() - 1]);
        assert(reading(after[after.len() - 1]) is Err);
    }
}

} // verus!
