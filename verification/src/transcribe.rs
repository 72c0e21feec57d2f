//! The transcription loop's decisions.
//!
//! Sleeping, reading the window and running the speech engine happen
//! outside this library. The loop is told what happened and answers with
//! what to do next: it turns each snapshot into the mono window handed to
//! the engine, passes every transcript on, and ends the process on the first
//! engine failure.

use vstd::prelude::*;
use crate::signal::reduce_channels;
use crate::signal::reduced;

verus! {

/// The time between two ticks, in milliseconds.
pub const TICK_MILLIS: u64 = 3000;

/// The sample rate that the engine is told, in hertz.
pub const SAMPLE_RATE: u32 = 16000;

/// The exit status after an engine failure.
pub const FAILURE_STATUS: i32 = 1;

/// Where the loop stands.
#[derive(Clone, Copy, PartialEq, Eq, Debug, Structural)]
pub enum LoopPhase {
    /// Waiting for the timer.
    Sleeping,
    /// Waiting for the engine.
    Transcribing,
    /// Ended by an engine failure.
    Halted,
}

/// What happened outside.
pub enum LoopEvent {
    /// The timer ran out; this is the window's content at that moment.
    TimerFired { snapshot: Vec<i16> },
    /// The engine returned a transcript.
    Transcribed { text: String },
    /// The engine failed with this message.
    EngineFailed { message: String },
}

/// What is to be done outside.
pub enum LoopAction {
    /// Sleep, then report that the timer fired.
    Sleep { millis: u64 },
    /// Run the engine on these mono samples, each to be scaled down by
    /// 32768, at this sample rate.
    Transcribe { mono: Vec<i16>, sample_rate: u32 },
    /// Show the transcript, then sleep and report that the timer fired.
    Emit { text: String, then_sleep_millis: u64 },
    /// Show the error and end the process with this status.
    Exit { status: i32, message: String },
    /// The event did not fit the phase: nothing is done.
    Nothing,
}

/// The phase that follows `phase` on `event`. A fired timer ends a sleep, a
/// transcript ends a transcription and leads back to sleep, an engine
/// failure ends a transcription and halts; every other pairing leaves the
/// phase as it is.
pub open spec fn phase_after(phase: LoopPhase, event: LoopEvent) -> LoopPhase {
    match (phase, event) {
        (LoopPhase::Sleeping, LoopEvent::TimerFired { .. }) => LoopPhase::Transcribing,
        (LoopPhase::Transcribing, LoopEvent::Transcribed { .. }) => LoopPhase::Sleeping,
        (LoopPhase::Transcribing, LoopEvent::EngineFailed { .. }) => LoopPhase::Halted,
        _ => phase,
    }
}

/// The phase that follows `phase` on all of `events`, in order.
pub open spec fn phase_after_all(phase: LoopPhase, events: Seq<LoopEvent>) -> LoopPhase
    decreases events.len(),
{
    if events.len() == 0 {
        phase
    } else {
        phase_after(phase_after_all(phase, events.drop_last()), events.last())
    }
}

/// A halted loop stays halted, whatever happens: there is no retry and no
/// later window after an engine failure.
pub proof fn lemma_halted_is_final(events: Seq<LoopEvent>)
    ensures
        phase_after_all(LoopPhase::Halted, events) == LoopPhase::Halted,
    decreases events.len(),
{
    if events.len() > 0 {
        lemma_halted_is_final(events.drop_last());
    }
}

/// An engine failure while transcribing halts the loop at once, and no run
/// of further events brings it back.
pub proof fn lemma_failure_is_fatal(message: String, later: Seq<LoopEvent>)
    ensures
        phase_after_all(
            phase_after(LoopPhase::Transcribing, LoopEvent::EngineFailed { message }),
            later,
        ) == LoopPhase::Halted,
{
    lemma_halted_is_final(later);
}

/// The transcription loop over a stream of `channels` interleaved channels.
pub struct TranscriptionLoop {
    phase: LoopPhase,
    channel_count: usize,
}

impl TranscriptionLoop {
    /// Where the loop stands.
    pub closed spec fn phase(&self) -> LoopPhase {
        self.phase
    }

    /// The number of interleaved channels in each snapshot.
    pub closed spec fn channels(&self) -> nat {
        self.channel_count as nat
    }

    /// A loop always has at least one channel.
    pub closed spec fn well_formed(&self) -> bool {
        self.channel_count > 0
    }

    /// A loop over `channel_count` channels, about to sleep for the first
    /// time.
    pub fn new(channel_count: usize) -> (looping: TranscriptionLoop)
        requires
            channel_count > 0,
        ensures
            looping.well_formed(),
            looping.phase() == LoopPhase::Sleeping,
            looping.channels() == channel_count,
    {
        TranscriptionLoop { phase: LoopPhase::Sleeping, channel_count }
    }

    /// Where the loop stands.
    pub fn current_phase(&self) -> (phase: LoopPhase)
        ensures
            phase == self.phase(),
    {
        self.phase
    }

    /// The number of interleaved channels in each snapshot.
    pub fn channel_count(&self) -> (count: usize)
        ensures
            count == self.channels(),
    {
        self.channel_count
    }

    /// The action that opens the loop: the first sleep. A loop that is past
    /// its first sleep is told to do nothing.
    pub fn start(&self) -> (action: LoopAction)
        ensures
            self.phase() == LoopPhase::Sleeping ==> action == (LoopAction::Sleep { millis: 3000 }),
            self.phase() != LoopPhase::Sleeping ==> action is Nothing,
    {
        match self.phase {
            LoopPhase::Sleeping => LoopAction::Sleep { millis: TICK_MILLIS },
            _ => LoopAction::Nothing,
        }
    }

    /// Takes in one event and says what follows.
    ///
    /// While sleeping, a fired timer sends the snapshot's leading
    /// `len / channels` samples to the engine. While transcribing, a
    /// transcript is passed on whole and the loop sleeps again; a failure is
    /// passed on whole with exit status 1 and halts the loop. Every other
    /// pairing of phase and event changes nothing and asks for nothing; in
    /// particular a halted loop stays halted.
    pub fn step(&mut self, event: LoopEvent) -> (action: LoopAction)
        requires
            old(self).well_formed(),
        ensures
            final(self).well_formed(),
            final(self).channels() == old(self).channels(),
            final(self).phase() == phase_after(old(self).phase(), event),
            match (old(self).phase(), event) {
                (LoopPhase::Sleeping, LoopEvent::TimerFired { snapshot }) => {
                    &&& action matches LoopAction::Transcribe { mono, sample_rate }
                    &&& mono@ == reduced(snapshot@, old(self).channels())
                    &&& sample_rate == 16000
                },
                (LoopPhase::Transcribing, LoopEvent::Transcribed { text }) => {
                    action == (LoopAction::Emit { text: text, then_sleep_millis: 3000 })
                },
                (LoopPhase::Transcribing, LoopEvent::EngineFailed { message }) => {
                    action == (LoopAction::Exit { status: 1, message: message })
                },
                _ => action is Nothing,
            },
    {
        match self.phase {
            LoopPhase::Sleeping => match event {
                LoopEvent::TimerFired { snapshot } => {
                    let mono: Vec<i16> = reduce_channels(snapshot.as_slice(), self.channel_count);
                    self.phase = LoopPhase::Transcribing;
                    LoopAction::Transcribe { mono, sample_rate: SAMPLE_RATE }
                },
                _ => LoopAction::Nothing,
            },
            LoopPhase::Transcribing => match event {
                LoopEvent::Transcribed { text } => {
                    self.phase = LoopPhase::Sleeping;
                    LoopAction::Emit { text, then_sleep_millis: TICK_MILLIS }
                },
                LoopEvent::EngineFailed { message } => {
                    self.phase = LoopPhase::Halted;
                    LoopAction::Exit { status: FAILURE_STATUS, message }
                },
                _ => LoopAction::Nothing,
            },
            LoopPhase::Halted => LoopAction::Nothing,
        }
    }
}

} // verus!
