//! The singleton recording slot: at most one recording exists
//! process-wide, the slot pins which audio source may feed it, and
//! start and stop are transactional.
//!
//! The slot is generic in the sender it stores, so the channel endpoint
//! that carries PCM chunks can live inside it without the library
//! depending on any particular channel type.

use crate::util::str_eq;
use vstd::prelude::*;

verus! {

/// Seconds a per-alert task waits for an end-of-message signal before
/// it stops the recording anyway.
pub const RECORDING_TIMEOUT_SECS: u64 = 300;

/// The fields of an active recording: the channel end that accepts PCM
/// chunks, the output file path, and the label of the one audio source
/// allowed to push samples.
pub struct RecordingSlot<S> {
    pub audio_tx: S,
    pub output_path: String,
    pub source_stream: String,
}

/// Owns the process-wide optional recording slot.  Holding the slot in
/// one owned `Option` is what makes more than one live recording
/// impossible.
pub struct RecordingCoordinator<S> {
    slot: Option<RecordingSlot<S>>,
}

impl<S> View for RecordingCoordinator<S> {
    type V = Option<RecordingSlot<S>>;

    closed spec fn view(&self) -> Option<RecordingSlot<S>> {
        self.slot
    }
}

/// How many recordings a coordinator holds: zero or one, never more.
pub open spec fn populated_count<S>(c: Option<RecordingSlot<S>>) -> nat {
    if c is Some {
        1
    } else {
        0
    }
}

impl<S> RecordingCoordinator<S> {
    pub fn new() -> (r: RecordingCoordinator<S>)
        ensures
            r@ is None,
    {
        RecordingCoordinator { slot: None }
    }

    /// Whether a recording is live.
    pub fn is_recording(&self) -> (r: bool)
        ensures
            r == (self@ is Some),
    {
        self.slot.is_some()
    }

    /// Starts a recording if none is live.  A second caller finds the
    /// slot occupied, gets its slot back, and records nothing.
    pub fn try_start(&mut self, slot: RecordingSlot<S>) -> (r: Result<(), RecordingSlot<S>>)
        ensures
            old(self)@ is None ==> final(self)@ == Some(slot) && r is Ok,
            old(self)@ is Some ==> final(self)@ == old(self)@ && r == Err::<(), RecordingSlot<S>>(
                slot,
            ),
    {
        if self.slot.is_some() {
            return Err(slot);
        }
        self.slot = Some(slot);
        Ok(())
    }

    /// Takes the live recording out, leaving the slot free.  The caller
    /// that drops the returned sender ends the encoder's input.
    pub fn take(&mut self) -> (r: Option<RecordingSlot<S>>)
        ensures
            final(self)@ is None,
            r == old(self)@,
    {
        self.slot.take()
    }

    /// The sender to feed from a decoder labelled `source`: present only
    /// while a recording is live and pinned to exactly that source.
    /// Other decoders observe nothing and drop their chunks.
    pub fn sender_for(&self, source: &str) -> (r: Option<&S>)
        ensures
            (match self@ {
                Some(slot) => slot.source_stream@ == source@,
                None => false,
            }) ==> (r matches Some(tx) && self@ matches Some(slot) && *tx == slot.audio_tx),
            !(match self@ {
                Some(slot) => slot.source_stream@ == source@,
                None => false,
            }) ==> r is None,
    {
        match &self.slot {
            Some(slot) => {
                if str_eq(slot.source_stream.as_str(), source) {
                    Some(&slot.audio_tx)
                } else {
                    None
                }
            },
            None => None,
        }
    }
}

/// However the coordinator has been driven, it never holds more than
/// one live recording.
pub proof fn lemma_at_most_one_recording<S>(c: &RecordingCoordinator<S>)
    ensures
        populated_count(c@) <= 1,
{
}

} // verus!
