//! The capture worker's decisions.
//!
//! Recording itself happens outside this library. The worker is told what
//! each recording session produced and answers with what to do next; between
//! the two it turns the recorded block into a chunk and feeds the window.

use vstd::prelude::*;
use crate::buffer::appended;
use crate::buffer::WindowBuffer;
use crate::signal::decimate;
use crate::signal::decimated;
use crate::signal::clamped;
use crate::signal::decimated_len;
use crate::signal::lemma_decimated_indices;
use crate::signal::rounded_scaled;
use crate::signal::sample_from_bits;
use crate::signal::DECIMATION_STEP;

verus! {

/// How long one recording session lasts, in milliseconds.
pub const CAPTURE_MILLIS: u64 = 300;

/// What a recording session ended with.
pub enum CaptureEvent {
    /// The session ran its time and this chunk came out of it.
    Recorded { chunk: Vec<i16> },
    /// The sample source could not open or run a session.
    DeviceFailed,
}

/// What the worker is to do next.
#[derive(Clone, Copy, PartialEq, Eq, Debug, Structural)]
pub enum CaptureAction {
    /// Record for this many milliseconds and report back.
    Record { millis: u64 },
    /// Stop for good: the window keeps what it holds and gets nothing new.
    Stop,
}

/// The chunk that a recorded block of samples becomes: every third sample of
/// it, starting with the first.
pub open spec fn chunk_of(recorded: Seq<i16>) -> Seq<i16> {
    decimated(recorded, 3)
}

/// Finishes a recording session: thins the samples it collected down to the
/// chunk that goes into the window.
pub fn finish_capture(recorded: &[i16]) -> (chunk: Vec<i16>)
    ensures
        chunk@ == chunk_of(recorded@),
{
    decimate(recorded, DECIMATION_STEP)
}

/// The 16-bit samples for a block of native samples given by the bits of
/// their 32-bit floats: each one scaled by 32768, rounded and clamped, in
/// the block's order.
pub open spec fn converted(raw: Seq<u32>) -> Seq<i16> {
    Seq::new(raw.len(), |i: int| clamped(rounded_scaled(raw[i])) as i16)
}

/// Turns what a recording session collected into the chunk that goes into
/// the window. `raw` holds the native samples in the order they arrived,
/// each by the bits of its 32-bit float. Every sample is converted to 16
/// bits, and of the converted samples those at the indices 0, 3, 6, ... are
/// kept.
pub fn chunk_from_bits(raw: &[u32]) -> (chunk: Vec<i16>)
    ensures
        chunk@ == chunk_of(converted(raw@)),
        chunk@.len() == decimated_len(raw@.len(), 3),
        forall|j: int|
            0 <= j < chunk@.len() ==> 3 * j < raw@.len() && #[trigger] chunk@[j] == clamped(
                rounded_scaled(raw@[3 * j]),
            ),
{
    let mut samples: Vec<i16> = Vec::new();
    let mut i: usize = 0;
    while i < raw.len()
        invariant
            i <= raw@.len(),
            samples@.len() == i,
            forall|k: int| 0 <= k < i ==> #[trigger] samples@[k] == clamped(rounded_scaled(raw@[k])),
        decreases raw@.len() - i,
    {
        samples.push(sample_from_bits(raw[i]));
        i = i + 1;
    }
    assert(samples@ =~= converted(raw@));
    let chunk: Vec<i16> = finish_capture(samples.as_slice());
    proof {
        lemma_decimated_indices(samples@, 3);
        assert forall|j: int| 0 <= j < chunk@.len() implies 3 * j < raw@.len() && #[trigger] chunk@[j]
            == clamped(rounded_scaled(raw@[3 * j])) by {
            assert(chunk@[j] == samples@[j * 3]);
        }
    }
    chunk
}

/// Whether a worker that was `running` still runs after `event`: it does
/// unless it had stopped before or the device failed now.
pub open spec fn running_after(running: bool, event: CaptureEvent) -> bool {
    running && event is Recorded
}

/// Whether a worker that was `running` still runs after all of `events`.
pub open spec fn running_after_all(running: bool, events: Seq<CaptureEvent>) -> bool
    decreases events.len(),
{
    if events.len() == 0 {
        running
    } else {
        running_after(running_after_all(running, events.drop_last()), events.last())
    }
}

/// A stopped worker never runs again: after a device failure the window
/// gets nothing new.
pub proof fn lemma_stopped_is_final(events: Seq<CaptureEvent>)
    ensures
        !running_after_all(false, events),
    decreases events.len(),
{
    if events.len() > 0 {
        lemma_stopped_is_final(events.drop_last());
    }
}

/// The capture worker: running until the sample source fails once, stopped
/// from then on.
pub struct CaptureWorker {
    running: bool,
}

impl CaptureWorker {
    /// Whether the worker still records.
    pub closed spec fn running(&self) -> bool {
        self.running
    }

    /// A worker that is running.
    pub fn new() -> (worker: CaptureWorker)
        ensures
            worker.running(),
    {
        CaptureWorker { running: true }
    }

    /// Whether the worker still records.
    pub fn is_running(&self) -> (running: bool)
        ensures
            running == self.running(),
    {
        self.running
    }

    /// The action that opens the worker's loop, and that follows every
    /// chunk: one more recording session while running, a stop otherwise.
    pub fn next_action(&self) -> (action: CaptureAction)
        ensures
            action == (if self.running() {
                (CaptureAction::Record { millis: 300 })
            } else {
                CaptureAction::Stop
            }),
    {
        if self.running {
            CaptureAction::Record { millis: CAPTURE_MILLIS }
        } else {
            CaptureAction::Stop
        }
    }

    /// Takes in what a recording session ended with. A chunk recorded while
    /// running is appended to `window`, eviction included, and the worker
    /// goes on to record again. A device failure stops the worker and leaves
    /// the window as it was; a stopped worker stays stopped and touches
    /// nothing.
    pub fn step(&mut self, window: &mut WindowBuffer, event: CaptureEvent) -> (action: CaptureAction)
        ensures
            final(self).running() == running_after(old(self).running(), event),
            old(self).running() && event is Recorded ==> {
                &&& final(window)@ == appended(old(window)@, event->chunk@)
                &&& action == (CaptureAction::Record { millis: 300 })
            },
            !old(self).running() || event is DeviceFailed ==> {
                &&& final(window)@ == old(window)@
                &&& action == CaptureAction::Stop
            },
    {
        if !self.running {
            return CaptureAction::Stop;
        }
        match event {
            CaptureEvent::Recorded { chunk } => {
                window.append(chunk.as_slice());
                CaptureAction::Record { millis: CAPTURE_MILLIS }
            },
            CaptureEvent::DeviceFailed => {
                self.running = false;
                CaptureAction::Stop
            },
        }
    }
}

} // verus!
