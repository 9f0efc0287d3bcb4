//! The frames that wait to be encoded.

use std::collections::VecDeque;
use vstd::prelude::*;

verus! {

/// How many frames make a recording.
pub const RECORDING_FRAMES: usize = 600;

/// One frame out of this many is kept.
pub const SAMPLING: i32 = 3;

/// Frames with this number are kept.
pub open spec fn is_kept(frame_number: int) -> bool {
    frame_number % (SAMPLING as int) == 0
}

/// The buffer once the oldest frame has made room, where it was full.
pub open spec fn with_room<T>(buffer: Seq<T>) -> Seq<T> {
    if buffer.len() >= RECORDING_FRAMES {
        buffer.drop_first()
    } else {
        buffer
    }
}

/// The buffer after one more frame. A full buffer loses its oldest frame even when the new one
/// is not kept.
pub open spec fn after_frame<T>(buffer: Seq<T>, frame: T, frame_number: int) -> Seq<T> {
    if is_kept(frame_number) {
        with_room(buffer).push(frame)
    } else {
        with_room(buffer)
    }
}

/// The buffer holds a whole recording.
pub open spec fn is_whole<T>(buffer: Seq<T>) -> bool {
    buffer.len() >= RECORDING_FRAMES
}

/// The recording flag once a frame is in, with the buffer whole or not.
pub open spec fn flag_after(record: bool, whole: bool) -> bool {
    record && !whole
}

/// Takes in one frame from the camera. Tells whether the encoder is to be woken, which is when
/// the buffer holds a whole recording; the recording flag is cleared then.
pub fn fakesink_handler<T>(
    frame_buffer: &mut VecDeque<T>,
    record: &mut bool,
    buffer: T,
    frame_number: i32,
) -> (notify: bool)
    ensures
        final(frame_buffer)@ == after_frame(old(frame_buffer)@, buffer, frame_number as int),
        notify == (final(frame_buffer)@.len() >= RECORDING_FRAMES),
        notify == is_whole(final(frame_buffer)@),
        *final(record) == (*old(record) && !notify),
        *final(record) == flag_after(*old(record), is_whole(final(frame_buffer)@)),
{
    if frame_buffer.len() >= RECORDING_FRAMES {
        let _oldest: Option<T> = frame_buffer.pop_front();
    }
    if frame_number.checked_rem_euclid(SAMPLING) == Some(0i32) {
        frame_buffer.push_back(buffer);
    }
    if frame_buffer.len() >= RECORDING_FRAMES {
        *record = false;
        return true;
    }
    false
}

/// The buffer after a run of frames, each with its number.
pub open spec fn after_frames<T>(buffer: Seq<T>, frames: Seq<(T, i32)>) -> Seq<T>
    decreases frames.len(),
{
    if frames.len() == 0 {
        buffer
    } else {
        after_frame(
            after_frames(buffer, frames.drop_last()),
            frames.last().0,
            frames.last().1 as int,
        )
    }
}

/// The frames of a run that are kept, in order.
pub open spec fn kept_of<T>(frames: Seq<(T, i32)>) -> Seq<T>
    decreases frames.len(),
{
    if frames.len() == 0 {
        Seq::empty()
    } else if is_kept(frames.last().1 as int) {
        kept_of(frames.drop_last()).push(frames.last().0)
    } else {
        kept_of(frames.drop_last())
    }
}

/// The buffer never grows beyond a recording.
pub proof fn buffer_is_bounded<T>(buffer: Seq<T>, frames: Seq<(T, i32)>)
    requires
        buffer.len() <= RECORDING_FRAMES,
    ensures
        after_frames(buffer, frames).len() <= RECORDING_FRAMES,
    decreases frames.len(),
{
    if frames.len() > 0 {
        buffer_is_bounded(buffer, frames.drop_last());
    }
}

/// After any run the buffer holds the newest of the frames that it held and was given, in the
/// order in which they came, with none missing in between. In particular a buffer that was
/// empty holds none but frames of the run.
pub proof fn buffer_holds_the_newest<T>(buffer: Seq<T>, frames: Seq<(T, i32)>)
    ensures
        ({
            let all = buffer + kept_of(frames);
            let now = after_frames(buffer, frames);
            now.len() <= all.len() && now == all.skip(all.len() - now.len())
        }),
    decreases frames.len(),
{
    let all = buffer + kept_of(frames);
    let now = after_frames(buffer, frames);
    if frames.len() == 0 {
        assert(now =~= all.skip(0));
    } else {
        let before = frames.drop_last();
        buffer_holds_the_newest(buffer, before);
        let all_before = buffer + kept_of(before);
        let was = after_frames(buffer, before);
        let gone = all_before.len() - was.len();
        assert(was == all_before.skip(gone));
        assert(now =~= all.skip(all.len() - now.len()));
    }
}

/// Where every frame is kept, the buffer holds the last recording's worth of all that came.
pub proof fn kept_frames_fill_the_buffer<T>(buffer: Seq<T>, frames: Seq<(T, i32)>)
    requires
        buffer.len() <= RECORDING_FRAMES,
        forall|i: int| 0 <= i < frames.len() ==> is_kept((#[trigger] frames[i]).1 as int),
    ensures
        after_frames(buffer, frames).len() == (if buffer.len() + frames.len()
            <= RECORDING_FRAMES {
            buffer.len() + frames.len()
        } else {
            RECORDING_FRAMES as nat
        }),
    decreases frames.len(),
{
    if frames.len() > 0 {
        kept_frames_fill_the_buffer(buffer, frames.drop_last());
    }
}

// ---------------------------------------------------------------------------
// Laws
// ---------------------------------------------------------------------------

/// What one frame does to the buffer: of 600 frames or more the oldest goes, the others move up,
/// and every third frame comes in behind them.
pub proof fn frame_moves_the_buffer<T>(buffer: Seq<T>, frame: T, frame_number: int)
    ensures
        ({
            let now = after_frame(buffer, frame, frame_number);
            let gone: int = if buffer.len() >= 600 { 1 } else { 0 };
            let come: int = if frame_number % 3 == 0 { 1 } else { 0 };
            &&& now.len() == buffer.len() - gone + come
            &&& forall|i: int|
                0 <= i < buffer.len() - gone ==> #[trigger] now[i] == buffer[i + gone]
            &&& come == 1 ==> now.last() == frame
        }),
{
}

/// Of three frames in a row one is kept.
pub proof fn one_frame_of_three_is_kept(frame_number: int)
    ensures
        is_kept(frame_number) || is_kept(frame_number + 1) || is_kept(frame_number + 2),
        is_kept(frame_number) ==> !is_kept(frame_number + 1) && !is_kept(frame_number + 2),
        is_kept(0),
{
}

/// Starting from an empty buffer, a recording is whole once 600 frames were kept, and not before.
pub proof fn recording_takes_its_frames<T>(frames: Seq<(T, i32)>)
    requires
        frames.len() <= 600,
        forall|i: int| 0 <= i < frames.len() ==> (#[trigger] frames[i]).1 % 3 == 0,
    ensures
        after_frames(Seq::empty(), frames) == Seq::new(frames.len(), |i: int| frames[i].0),
        after_frames(Seq::<T>::empty(), frames).len() >= 600 <==> frames.len() == 600,
    decreases frames.len(),
{
    let all = Seq::new(frames.len(), |i: int| frames[i].0);
    if frames.len() == 0 {
        assert(after_frames(Seq::empty(), frames) =~= all);
    } else {
        let before = frames.drop_last();
        assert forall|i: int| 0 <= i < before.len() implies (#[trigger] before[i]).1 % 3 == 0 by {
            assert(before[i] == frames[i]);
        }
        recording_takes_its_frames(before);
        assert(frames.last() == frames[frames.len() - 1]);
        assert(after_frames(Seq::empty(), frames) =~= all);
    }
}

/// A recording is whole at 600 frames, and stays so with more.
pub proof fn recording_is_whole_with_its_frames<T>(buffer: Seq<T>)
    ensures
        is_whole(buffer) <==> buffer.len() >= 600,
{
}

/// A whole recording clears the flag, and nothing else touches it.
pub proof fn whole_recording_clears_the_flag(record: bool)
    ensures
        !flag_after(record, true),
        flag_after(record, false) == record,
{
}

} // verus!
