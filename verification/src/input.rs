//! Audio input sources: which monitor source is recorded, and the sizes the
//! recording is set up with.

use vstd::prelude::*;
use crate::pulseaudio::{pulseaudio_message, PulseAudioError};
use crate::text::{ends_with, has_suffix, push_str};

verus! {

/// How the samples of a source are encoded.
#[derive(Debug, Clone, Copy, PartialEq, Eq, Structural)]
pub enum SampleFormat {
    /// Signed 16 bit PCM, little endian.
    S16Le,
    /// 32 bit IEEE floating point, little endian.
    Float32Le,
    /// Signed 32 bit PCM, little endian.
    S32Le,
    /// Any other encoding; the recorder cannot decode it.
    Unsupported,
}

/// A source on the sound server, as far as the visualiser uses it.
#[derive(Debug)]
pub struct SourceInfo {
    /// The server-internal source ID.
    pub index: u32,
    /// The name of the source.
    pub name: String,
    /// How its samples are encoded.
    pub format: SampleFormat,
    /// Samples per second and channel.
    pub sample_rate: u32,
    /// Number of channels.
    pub channels: u8,
}

/// A copy of a source description.
pub fn copy_source(s: &SourceInfo) -> (r: SourceInfo)
    ensures
        r == *s,
{
    SourceInfo { index: s.index, name: s.name.clone(), format: s.format, sample_rate: s.sample_rate, channels: s.channels }
}

/// The name suffix that marks a monitor source.
pub open spec fn monitor_suffix() -> Seq<char> {
    seq!['.', 'm', 'o', 'n', 'i', 't', 'o', 'r']
}

/// Whether a source is a monitor source.
pub open spec fn is_monitor(s: SourceInfo) -> bool {
    has_suffix(s.name@, monitor_suffix())
}

/// The monitor sources among `sources`, in their order.
pub fn monitor_sources(sources: Vec<SourceInfo>) -> (r: Vec<SourceInfo>)
    ensures
        r@ == sources@.filter(|s: SourceInfo| is_monitor(s)),
{
    let ghost pred = |s: SourceInfo| is_monitor(s);
    let mut r: Vec<SourceInfo> = Vec::new();
    let mut i: usize = 0;
    proof {
        reveal_strlit(".monitor");
        assert(".monitor"@ =~= monitor_suffix());
    }
    while i < sources.len()
        invariant
            i <= sources.len(),
            ".monitor"@ == monitor_suffix(),
            pred == (|s: SourceInfo| is_monitor(s)),
            r@ == sources@.take(i as int).filter(pred),
        decreases sources.len() - i,
    {
        proof {
            reveal_with_fuel(Seq::<_>::filter, 1);
        }
        let keep = ends_with(sources[i].name.as_str(), ".monitor");
        let ghost before = r@;
        if keep {
            r.push(copy_source(&sources[i]));
        }
        proof {
            let next = sources@.take(i + 1);
            assert(next.drop_last() =~= sources@.take(i as int));
            assert(next.last() == sources@[i as int]);
            assert(keep == pred(sources@[i as int]));
            if keep {
                assert(r@ =~= before.push(sources@[i as int]));
            } else {
                assert(r@ =~= before);
            }
            assert(r@ =~= next.filter(pred));
        }
        i = i + 1;
    }
    assert(sources@.take(sources@.len() as int) =~= sources@);
    r
}

/// Trait for selecting a monitor source.
pub trait MonitorSelector {
    /// Whether the selector takes this source.
    spec fn takes(&self, info: SourceInfo) -> bool;

    /// Determine if the given monitor source should be selected.
    fn select(&self, info: &SourceInfo) -> (r: bool)
        ensures
            r == self.takes(*info),
    ;
}

/// Predefined monitor selection strategies.
#[derive(Debug, Clone)]
pub enum MonitorSelection {
    /// Select the first available monitor.
    First,
    /// Select a monitor by its name.
    ByName(String),
}

impl MonitorSelector for MonitorSelection {
    open spec fn takes(&self, info: SourceInfo) -> bool {
        match self {
            MonitorSelection::First => true,
            MonitorSelection::ByName(name) => info.name@ == name@,
        }
    }

    fn select(&self, info: &SourceInfo) -> (r: bool) {
        match self {
            MonitorSelection::First => true,
            MonitorSelection::ByName(name) => info.name == *name,
        }
    }
}

/// Whether `i` is the first of `sources` that the selector takes.
pub open spec fn first_taken<S: MonitorSelector>(sources: Seq<SourceInfo>, sel: S, i: int) -> bool {
    &&& 0 <= i < sources.len()
    &&& sel.takes(sources[i])
    &&& forall|j: int| 0 <= j < i ==> !sel.takes(#[trigger] sources[j])
}

/// Whether the selection function may answer `b` for a source.
pub open spec fn answered<F: Fn(&SourceInfo) -> bool>(f: F, s: SourceInfo, b: bool) -> bool {
    call_ensures(f, (&s,), b)
}

/// Whether every answer the selection function may give for a source accepts
/// it.
pub open spec fn surely_accepts<F: Fn(&SourceInfo) -> bool>(f: F, s: SourceInfo) -> bool {
    forall|b: bool| #[trigger] answered(f, s, b) ==> b
}

/// Whether `i` is the first of `sources` the selection function accepted:
/// it may have answered yes there and no for every earlier source.
pub open spec fn first_accepted<F: Fn(&SourceInfo) -> bool>(sources: Seq<SourceInfo>, f: F, i: int) -> bool {
    &&& 0 <= i < sources.len()
    &&& answered(f, sources[i], true)
    &&& forall|j: int| 0 <= j < i ==> #[trigger] answered(f, sources[j], false)
}

/// Different audio input sources for the visualiser. `C` is the connection
/// to the sound server that records the source.
#[derive(Debug)]
pub enum Inputs<C> {
    /// Audio input from PulseAudio.
    PulseAudio { source: SourceInfo, client: C, latency: u32 },
}

/// The sizes, in bytes, of the server-side buffer of a record stream.
#[derive(Debug, Clone, Copy, PartialEq, Eq, Structural)]
pub struct BufferSizes {
    pub fragment_size: u32,
    pub max_length: u32,
    pub target_length: u32,
    pub pre_buffering: u32,
    pub minimum_request_length: u32,
}

/// The record buffer for a latency of `latency` bytes: fragments, target
/// length and minimum request of that size, room for four of them, and no
/// pre-buffering.
pub fn record_buffer(latency: u32) -> (r: BufferSizes)
    requires
        4 * latency <= u32::MAX,
    ensures
        r == (BufferSizes {
            fragment_size: latency,
            max_length: (4 * latency) as u32,
            target_length: latency,
            pre_buffering: 0,
            minimum_request_length: latency,
        }),
{
    BufferSizes {
        fragment_size: latency,
        max_length: latency * 4,
        target_length: latency,
        pre_buffering: 0,
        minimum_request_length: latency,
    }
}

impl<C> Inputs<C> {
    /// The recorded source.
    pub open spec fn spec_source(&self) -> SourceInfo {
        match self {
            Inputs::PulseAudio { source, .. } => *source,
        }
    }

    /// Create a PulseAudio input source: the first of the server's monitor
    /// sources that the selection function accepts, recorded through
    /// `client`.
    pub fn pulseaudio<F: Fn(&SourceInfo) -> bool>(
        client: C,
        monitors: &Vec<SourceInfo>,
        monitor_select: F,
        latency: u32,
    ) -> (r: Inputs<C>)
        requires
            forall|i: int| 0 <= i < monitors@.len() ==> call_requires(monitor_select, (#[trigger] &monitors@[i],)),
            exists|i: int| 0 <= i < monitors@.len() && surely_accepts(monitor_select, #[trigger] monitors@[i]),
        ensures
            exists|i: int| first_accepted(monitors@, monitor_select, i) && r.spec_source() == monitors@[i],
            r matches Inputs::PulseAudio { client: c, latency: l, .. } && c == client && l == latency,
    {
        let mut i: usize = 0;
        while i < monitors.len()
            invariant
                i <= monitors@.len(),
                forall|k: int| 0 <= k < monitors@.len() ==> call_requires(monitor_select, (#[trigger] &monitors@[k],)),
                exists|k: int| i <= k < monitors@.len() && surely_accepts(monitor_select, #[trigger] monitors@[k]),
                forall|j: int| 0 <= j < i ==> #[trigger] answered(monitor_select, monitors@[j], false),
            decreases monitors.len() - i,
        {
            let took = monitor_select(&monitors[i]);
            assert(answered(monitor_select, monitors@[i as int], took));
            if took {
                let source = copy_source(&monitors[i]);
                assert(first_accepted(monitors@, monitor_select, i as int));
                return Inputs::PulseAudio { source, client, latency };
            }
            proof {
                if surely_accepts(monitor_select, monitors@[i as int]) {
                    assert(false);
                }
            }
            i = i + 1;
        }
        proof {
            let k = choose|k: int| i <= k < monitors@.len() && surely_accepts(monitor_select, #[trigger] monitors@[k]);
            assert(false);
        }
        Inputs::PulseAudio { source: copy_source(&monitors[0]), client, latency }
    }

    /// Create a PulseAudio input source: the first of the server's monitor
    /// sources that the selector takes, recorded through `client`.
    pub fn pulseaudio_selected<S: MonitorSelector>(
        client: C,
        monitors: &Vec<SourceInfo>,
        monitor_select: &S,
        latency: u32,
    ) -> (r: Inputs<C>)
        requires
            exists|i: int| 0 <= i < monitors@.len() && monitor_select.takes(#[trigger] monitors@[i]),
        ensures
            exists|i: int| first_taken(monitors@, *monitor_select, i) && r.spec_source() == monitors@[i],
            r matches Inputs::PulseAudio { client: c, latency: l, .. } && c == client && l == latency,
    {
        let mut i: usize = 0;
        while i < monitors.len()
            invariant
                i <= monitors@.len(),
                exists|k: int| i <= k < monitors@.len() && monitor_select.takes(#[trigger] monitors@[k]),
                forall|j: int| 0 <= j < i ==> !monitor_select.takes(#[trigger] monitors@[j]),
            decreases monitors.len() - i,
        {
            if monitor_select.select(&monitors[i]) {
                let source = copy_source(&monitors[i]);
                assert(first_taken(monitors@, *monitor_select, i as int));
                return Inputs::PulseAudio { source, client, latency };
            }
            i = i + 1;
        }
        proof {
            let k = choose|k: int| i <= k < monitors@.len() && monitor_select.takes(#[trigger] monitors@[k]);
            assert(false);
        }
        Inputs::PulseAudio { source: copy_source(&monitors[0]), client, latency }
    }

    /// The recorded source.
    pub fn source(&self) -> (r: &SourceInfo)
        ensures
            *r == self.spec_source(),
    {
        match self {
            Inputs::PulseAudio { source, .. } => source,
        }
    }

    /// Calculate the frame size based on the input source and desired FPS:
    /// the samples of one frame over all channels.
    pub fn frame_size(&self, fps: u32) -> (r: u32)
        requires
            fps > 0,
            (self.spec_source().sample_rate / fps) * self.spec_source().channels <= u32::MAX,
        ensures
            r == (self.spec_source().sample_rate / fps) * self.spec_source().channels,
    {
        match self {
            Inputs::PulseAudio { source, .. } => source.sample_rate / fps * source.channels as u32,
        }
    }

    /// Get the number of channels for the input source.
    pub fn channels(&self) -> (r: u32)
        ensures
            r == self.spec_source().channels,
    {
        match self {
            Inputs::PulseAudio { source, .. } => source.channels as u32,
        }
    }

    /// Get the sample rate for the input source.
    pub fn sample_rate(&self) -> (r: u32)
        ensures
            r == self.spec_source().sample_rate,
    {
        match self {
            Inputs::PulseAudio { source, .. } => source.sample_rate,
        }
    }
}

/// Errors that can occur while setting up the audio input.
#[derive(Debug)]
pub enum RecorderError {
    PulseAudioError(PulseAudioError),
}

impl From<PulseAudioError> for RecorderError {
    fn from(err: PulseAudioError) -> (r: Self) {
        RecorderError::PulseAudioError(err)
    }
}

impl vstd::std_specs::convert::FromSpecImpl<PulseAudioError> for RecorderError {
    open spec fn obeys_from_spec() -> bool {
        true
    }

    open spec fn from_spec(v: PulseAudioError) -> Self {
        RecorderError::PulseAudioError(v)
    }
}

/// The text shown for a recorder error: the server error's text behind a
/// prefix.
pub open spec fn recorder_message(e: RecorderError) -> Seq<char> {
    match e {
        RecorderError::PulseAudioError(p) => "PulseAudio error: "@ + pulseaudio_message(p),
    }
}

impl RecorderError {
    /// The text shown for the error: the server error behind a prefix.
    pub fn message(&self) -> (r: String)
        ensures
            r@ == recorder_message(*self),
    {
        let mut s = String::new();
        push_str(&mut s, "PulseAudio error: ");
        match self {
            RecorderError::PulseAudioError(e) => {
                let m = e.message();
                push_str(&mut s, m.as_str());
                assert(s@ =~= "PulseAudio error: "@ + m@);
            },
        }
        s
    }
}

} // verus!
