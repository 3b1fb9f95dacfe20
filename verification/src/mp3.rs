//! Sample-walking logic of the MP3 stream adapter, on plain values.
//!
//! The host owns the decoder and hands decoded frames in: the channel-0
//! samples of a frame plus the frame's duration. This module walks the
//! samples of the current frame, accumulates stream time (each sample gets
//! an equal share of its frame's duration), and decides when a new frame
//! must be fetched.

use vstd::prelude::*;

use crate::common::AudioData;

verus! {

/// One decoded MP3 frame: the samples of the analyzed channel and the
/// frame's length in nanoseconds.
#[derive(Clone, Debug)]
pub struct Mp3Frame {
    pub samples: Vec<i32>,
    pub duration_ns: u64,
}

/// The walking state of an MP3 stream: the frame being consumed, the cursor
/// into its samples, and the stream time reached so far.
#[derive(Debug)]
pub struct Mp3Song {
    pub current_frame: Option<Mp3Frame>,
    pub current_frame_sample: usize,
    pub current_time_ns: u64,
}

impl Mp3Song {
    /// The sample under the cursor, if the current frame still has one.
    pub open spec fn spec_current_sample(self) -> Option<i32> {
        match self.current_frame {
            Some(f) => if self.current_frame_sample < f.samples.len() {
                Some(f.samples[self.current_frame_sample as int])
            } else {
                None
            },
            None => None,
        }
    }

    /// One sample's share of the current frame's duration.
    pub open spec fn spec_time_step(f: Mp3Frame) -> int {
        f.duration_ns as int / f.samples.len() as int
    }

    /// Advancing past one more sample keeps the stream time representable
    /// (machine limit; nanoseconds in 64 bits span centuries).
    pub open spec fn time_budget_ok(self) -> bool {
        match self.current_frame {
            Some(f) => f.samples@.len() == 0 || self.current_time_ns + Self::spec_time_step(f)
                <= u64::MAX,
            None => true,
        }
    }

    /// A stream with no frame yet; the host fetches the first frame and
    /// hands it to `next_frame`.
    pub fn new() -> (r: Mp3Song)
        ensures
            r.current_frame is None,
            r.current_frame_sample == 0,
            r.current_time_ns == 0,
    {
        Mp3Song { current_frame: None, current_frame_sample: 0, current_time_ns: 0 }
    }

    /// The maximum sample magnitude of the decoder's fixed-point samples.
    pub fn sample_max_value(&self) -> (r: u32)
        ensures
            r == u32::MAX / 8,
    {
        u32::MAX / 8
    }

    /// Swap in a freshly decoded frame and reset the cursor. Returns whether
    /// the decoder had produced one; without a new frame the stream is left
    /// unchanged.
    pub fn next_frame(&mut self, fetched: Option<Mp3Frame>) -> (r: bool)
        ensures
            match fetched {
                Some(f) => {
                    &&& r
                    &&& final(self).current_frame == Some(f)
                    &&& final(self).current_frame_sample == 0
                    &&& final(self).current_time_ns == old(self).current_time_ns
                },
                None => !r && *final(self) == *old(self),
            },
    {
        match fetched {
            Some(f) => {
                self.current_frame = Some(f);
                self.current_frame_sample = 0;
                true
            },
            None => false,
        }
    }

    /// The sample under the cursor of the current frame, if any.
    pub fn get_sample_from_frame(&self) -> (r: Option<i32>)
        ensures
            r == self.spec_current_sample(),
    {
        match &self.current_frame {
            Some(frame) => {
                if self.current_frame_sample < frame.samples.len() {
                    Some(frame.samples[self.current_frame_sample])
                } else {
                    None
                }
            },
            None => None,
        }
    }

    /// Step the cursor past the sample just read and advance the stream time
    /// by one sample's share of the frame duration.
    pub fn next_sample(&mut self)
        requires
            old(self).current_frame is Some,
            old(self).current_frame.unwrap().samples@.len() > 0,
            old(self).current_frame_sample < usize::MAX,
            old(self).time_budget_ok(),
        ensures
            final(self).current_frame == old(self).current_frame,
            final(self).current_frame_sample == old(self).current_frame_sample + 1,
            final(self).current_time_ns == old(self).current_time_ns + Self::spec_time_step(
                old(self).current_frame.unwrap(),
            ),
    {
        let (dur, len) = match &self.current_frame {
            Some(f) => (f.duration_ns, f.samples.len()),
            None => (0, 1),
        };
        self.current_frame_sample = self.current_frame_sample + 1;
        self.current_time_ns = self.current_time_ns + dur / (len as u64);
    }

    /// Hand out the next sample of the current frame, stamped with the
    /// stream time it reaches. Nothing means the current frame is exhausted
    /// (or absent) and a new one must be fetched.
    pub fn try_next(&mut self) -> (r: Option<AudioData>)
        requires
            old(self).time_budget_ok(),
        ensures
            match old(self).spec_current_sample() {
                Some(x) => {
                    &&& final(self).current_frame == old(self).current_frame
                    &&& final(self).current_frame_sample == old(self).current_frame_sample + 1
                    &&& final(self).current_time_ns == old(self).current_time_ns
                        + Self::spec_time_step(old(self).current_frame.unwrap())
                    &&& r == Some(
                        AudioData { sample: x, time_ns: final(self).current_time_ns },
                    )
                },
                None => r is None && *final(self) == *old(self),
            },
    {
        match self.get_sample_from_frame() {
            Some(x) => {
                self.next_sample();
                Some(AudioData { sample: x, time_ns: self.current_time_ns })
            },
            None => None,
        }
    }

    /// The fetch path: swap in the frame the host decoded (if any) and hand
    /// out its first sample. Nothing either when no frame could be fetched
    /// (the stream is over) or when the fetched frame is empty.
    pub fn next_after_fetch(&mut self, fetched: Option<Mp3Frame>) -> (r: Option<AudioData>)
        requires
            (fetched matches Some(f) && f.samples@.len() > 0) ==> old(self).current_time_ns
                + Self::spec_time_step(fetched.unwrap()) <= u64::MAX,
        ensures
            match fetched {
                None => r is None && *final(self) == *old(self),
                Some(f) => {
                    &&& final(self).current_frame == Some(f)
                    &&& if f.samples@.len() == 0 {
                        &&& r is None
                        &&& final(self).current_frame_sample == 0
                        &&& final(self).current_time_ns == old(self).current_time_ns
                    } else {
                        &&& final(self).current_frame_sample == 1
                        &&& final(self).current_time_ns == old(self).current_time_ns
                            + Self::spec_time_step(f)
                        &&& r == Some(
                            AudioData {
                                sample: f.samples@[0],
                                time_ns: final(self).current_time_ns,
                            },
                        )
                    }
                },
            },
    {
        if self.next_frame(fetched) {
            match self.get_sample_from_frame() {
                Some(x) => {
                    self.next_sample();
                    Some(AudioData { sample: x, time_ns: self.current_time_ns })
                },
                None => None,
            }
        } else {
            None
        }
    }
}

} // verus!
