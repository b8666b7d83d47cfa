//! The visualiser's frame loop settings and its errors.

use vstd::prelude::*;
use crate::channel::{analyser_bars, Channel};
use crate::input::{recorder_message, RecorderError};
use crate::text::push_str;

verus! {

/// An error that can occur when initializing or using the spectrum analyser.
#[derive(Debug, Clone, Copy, PartialEq, Eq, Structural)]
pub enum CavaError {
    InitializationFailed,
}

impl CavaError {
    /// The text shown for the error.
    pub fn message(&self) -> (r: String)
        ensures
            r@ == "Cava initialization failed"@,
    {
        let mut s = String::new();
        push_str(&mut s, "Cava initialization failed");
        assert(s@ =~= "Cava initialization failed"@);
        s
    }
}

/// Errors of starting the visualiser.
#[derive(Debug)]
pub enum VisualiserError {
    Cava(CavaError),
    Record(RecorderError),
}

impl From<CavaError> for VisualiserError {
    fn from(err: CavaError) -> (r: Self) {
        VisualiserError::Cava(err)
    }
}

impl vstd::std_specs::convert::FromSpecImpl<CavaError> for VisualiserError {
    open spec fn obeys_from_spec() -> bool {
        true
    }

    open spec fn from_spec(v: CavaError) -> Self {
        VisualiserError::Cava(v)
    }
}

impl From<RecorderError> for VisualiserError {
    fn from(err: RecorderError) -> (r: Self) {
        VisualiserError::Record(err)
    }
}

impl vstd::std_specs::convert::FromSpecImpl<RecorderError> for VisualiserError {
    open spec fn obeys_from_spec() -> bool {
        true
    }

    open spec fn from_spec(v: RecorderError) -> Self {
        VisualiserError::Record(v)
    }
}

/// The text shown for a visualiser error.
pub open spec fn visualiser_message(e: VisualiserError) -> Seq<char> {
    match e {
        VisualiserError::Cava(_) => "Cava error: "@ + "Cava initialization failed"@,
        VisualiserError::Record(r) => "Input error: "@ + recorder_message(r),
    }
}

impl VisualiserError {
    /// The text shown for the error: the cause's text behind a prefix naming
    /// the part that failed.
    pub fn message(&self) -> (r: String)
        ensures
            r@ == visualiser_message(*self),
    {
        let mut s = String::new();
        match self {
            VisualiserError::Cava(c) => {
                push_str(&mut s, "Cava error: ");
                let m = c.message();
                push_str(&mut s, m.as_str());
                assert(s@ =~= "Cava error: "@ + "Cava initialization failed"@);
            },
            VisualiserError::Record(e) => {
                push_str(&mut s, "Input error: ");
                let m = e.message();
                push_str(&mut s, m.as_str());
                assert(s@ =~= "Input error: "@ + m@);
            },
        }
        s
    }
}

/// The sizes the frame loop is set up with.
#[derive(Debug, Clone, Copy, PartialEq, Eq, Structural)]
pub struct FrameSetup {
    /// Samples the ring buffer between recorder and analyser holds: four
    /// frames.
    pub ring_capacity: u32,
    /// Bands the analyser is asked for.
    pub analyser_bars: usize,
    /// Values the analyser writes per frame: one per bar and channel.
    pub output_len: usize,
    /// Nanoseconds between two frames.
    pub interval_ns: u32,
}

/// The frame loop settings for `bars` bars at `fps` frames per second, with
/// frames of `frame_size` samples over `channels` channels.
pub fn frame_setup(channel: Channel, bars: usize, fps: u32, frame_size: u32, channels: u32) -> (r: FrameSetup)
    requires
        fps > 0,
        4 * frame_size <= u32::MAX,
        channel != Channel::Stereo ==> 2 * bars <= usize::MAX,
        bars * channels <= usize::MAX,
    ensures
        r.ring_capacity == 4 * frame_size,
        r.analyser_bars == analyser_bars(channel, bars as nat),
        r.output_len == bars * channels,
        r.interval_ns == 1_000_000_000int / (fps as int),
{
    let per_channel = channel.analyser_bars(bars);
    FrameSetup {
        ring_capacity: frame_size * 4,
        analyser_bars: per_channel,
        output_len: bars * (channels as usize),
        interval_ns: 1_000_000_000u32 / fps,
    }
}

} // verus!
