//! The PulseAudio side of recording: the packets of a record stream, the
//! samples in a data packet, and the errors of talking to the server.

use vstd::prelude::*;
use byteorder::ByteOrder;
use crate::input::SampleFormat;
use crate::text::push_str;

verus! {

/// An error that can occur when interacting with the PulseAudio server.
#[derive(Debug)]
pub enum PulseAudioError {
    Connection,
    /// A command failed: the command that was sent and the protocol error
    /// that came back, each in its debug form.
    Command { sent: String, received: String },
}

/// The text shown for the error: a fixed sentence for a failed connection;
/// for a failed command, the command and the protocol error behind a fixed
/// prefix.
pub open spec fn pulseaudio_message(e: PulseAudioError) -> Seq<char> {
    match e {
        PulseAudioError::Connection => "Failed to connect to PulseAudio server"@,
        PulseAudioError::Command { sent, received } => "Error executing PulseAudio command "@ + sent@
            + ": "@ + received@,
    }
}

impl PulseAudioError {
    /// The text shown for the error.
    pub fn message(&self) -> (r: String)
        ensures
            r@ == pulseaudio_message(*self),
    {
        let mut s = String::new();
        match self {
            PulseAudioError::Connection => {
                push_str(&mut s, "Failed to connect to PulseAudio server");
                assert(s@ =~= "Failed to connect to PulseAudio server"@);
            },
            PulseAudioError::Command { sent, received } => {
                push_str(&mut s, "Error executing PulseAudio command ");
                push_str(&mut s, sent.as_str());
                push_str(&mut s, ": ");
                push_str(&mut s, received.as_str());
                assert(s@ =~= "Error executing PulseAudio command "@ + sent@ + ": "@ + received@);
            },
        }
        s
    }
}

/// The big-endian value of the four bytes of `p` from `i` on.
pub open spec fn be32(p: Seq<u8>, i: int) -> nat {
    16777216 * (p[i] as nat) + 65536 * (p[i + 1] as nat) + 256 * (p[i + 2] as nat) + (p[i + 3] as nat)
}

/// Whether a command message is a latency query (`GetPlaybackLatency`,
/// tag 14, or `GetRecordLatency`, tag 57) whose timestamp holds more
/// microseconds than the protocol's parser can scale to nanoseconds in a
/// `u32`. Such a message is laid out as tagged `u32`s (tag byte `L`) for the
/// command, the sequence number and the channel, then a timeval (tag byte
/// `T`) of seconds and microseconds; the parser multiplies the microseconds
/// by 1000 and overflows above 4294967.
pub open spec fn timestamp_overflows(p: Seq<u8>) -> bool {
    &&& p.len() >= 24
    &&& p[0] == 0x4c
    &&& (be32(p, 1) == 14 || be32(p, 1) == 57)
    &&& p[5] == 0x4c
    &&& p[10] == 0x4c
    &&& p[15] == 0x54
    &&& be32(p, 20) > 4294967
}

/// The big-endian value of four bytes.
fn read_be32(p: &[u8], i: usize) -> (r: u32)
    requires
        i + 4 <= p@.len(),
    ensures
        r == be32(p@, i as int),
{
    (p[i] as u32) * 16777216 + (p[i + 1] as u32) * 65536 + (p[i + 2] as u32) * 256 + (p[i + 3] as u32)
}

/// Decides `timestamp_overflows` on a payload.
pub fn overflowing_timestamp(p: &[u8]) -> (r: bool)
    ensures
        r == timestamp_overflows(p@),
{
    if p.len() < 24 || p[0] != 0x4c || p[5] != 0x4c || p[10] != 0x4c || p[15] != 0x54 {
        return false;
    }
    let tag = read_be32(p, 1);
    (tag == 14 || tag == 57) && read_be32(p, 20) > 4294967
}

/// How many bytes of `payload` the protocol's command parser
/// (`Command::read_tag_prefixed`) consumes when the bytes decode as a command
/// message for `protocol_version`; none when they do not decode.
pub uninterp spec fn command_prefix(payload: Seq<u8>, protocol_version: u16) -> Option<nat>;

/// Calls `pulseaudio::protocol::Command::read_tag_prefixed` on a cursor over
/// `payload` and returns the cursor position after a successful decode. The
/// result is named `command_prefix`, a function of the bytes and the version.
/// The parser panics on a latency query whose timestamp overflows (see
/// `timestamp_overflows`), so those payloads are excluded. Left unsaid: a
/// blob length in the payload makes the parser allocate that many bytes (up
/// to 4 GiB) before it finds the payload too short, and a failing
/// allocation is not covered.
#[verifier::external_body]
fn read_command_prefix(payload: &[u8], protocol_version: u16) -> (r: Option<u64>)
    requires
        !timestamp_overflows(payload@),
    ensures
        match r {
            Some(n) => command_prefix(payload@, protocol_version) == Some(n as nat),
            None => command_prefix(payload@, protocol_version) is None,
        },
{
    let mut cursor = std::io::Cursor::new(payload);
    match pulseaudio::protocol::Command::read_tag_prefixed(&mut cursor, protocol_version) {
        Ok(_) => Some(cursor.position()),
        Err(_) => None,
    }
}

/// Whether a command packet of the record stream is well formed: its payload
/// decodes as a command and nothing is left over. A latency query with an
/// overflowing timestamp, on which the protocol's parser would panic, is not
/// well formed. The recording ends on any packet that is not.
pub fn command_packet_ok(payload: &[u8], protocol_version: u16) -> (r: bool)
    ensures
        r == (!timestamp_overflows(payload@) && command_prefix(payload@, protocol_version) == Some(
            payload@.len() as nat,
        )),
{
    if overflowing_timestamp(payload) {
        return false;
    }
    match read_command_prefix(payload, protocol_version) {
        Some(n) => n == payload.len() as u64,
        None => false,
    }
}

/// The protocol version both sides speak: the lower of the two.
pub fn negotiate_version(client_max: u16, server: u16) -> (r: u16)
    ensures
        r == if client_max <= server {
            client_max
        } else {
            server
        },
{
    if client_max <= server {
        client_max
    } else {
        server
    }
}

/// Which payload the recorder reads next.
#[derive(Debug, Clone, Copy, PartialEq, Eq, Structural)]
pub enum PacketStep {
    /// Read and check a command packet of this many bytes.
    Command(u32),
    /// Read a data packet of this many bytes and decode its samples.
    Data(u32),
}

/// Why the recording ends.
#[derive(Debug, Clone, Copy, PartialEq, Eq, Structural)]
pub enum StopReason {
    /// The next packet header could not be read.
    HeaderUnreadable,
    /// A command packet longer than the limit.
    CommandTooLarge(u32),
    /// A data packet longer than the limit.
    DataTooLarge(u32),
    /// A packet's payload could not be read.
    PayloadUnreadable,
    /// A command packet that does not decode exactly.
    CommandMalformed,
}

/// The step for a packet header `(channel, length)`, or `None` when no
/// header could be read: packets on the control channel (all bits set) are
/// commands, all others carry stream data; a packet longer than `max_length`,
/// or a missing header, ends the recording.
pub open spec fn packet_step(header: Option<(u32, u32)>, max_length: u32) -> Result<PacketStep, StopReason> {
    match header {
        None => Err(StopReason::HeaderUnreadable),
        Some((channel, length)) => if channel == u32::MAX {
            if length > max_length {
                Err(StopReason::CommandTooLarge(length))
            } else {
                Ok(PacketStep::Command(length))
            }
        } else if length > max_length {
            Err(StopReason::DataTooLarge(length))
        } else {
            Ok(PacketStep::Data(length))
        },
    }
}

/// How many bytes a step reads.
pub open spec fn step_length(s: PacketStep) -> u32 {
    match s {
        PacketStep::Command(n) => n,
        PacketStep::Data(n) => n,
    }
}

/// A packet header decides the next read by its channel and length: the
/// recorder reads on exactly when the length is within the limit, and then
/// reads exactly the header's length, as a command on the control channel
/// (all bits set) and as data on any other. Beyond the limit it stops with
/// the length in the reason, and without a header it stops too.
pub proof fn lemma_step_reads_header_length(channel: u32, length: u32, max_length: u32)
    ensures
        (packet_step(Some((channel, length)), max_length) is Ok) <==> length <= max_length,
        packet_step(Some((channel, length)), max_length) matches Ok(s) ==> step_length(s) == length
            && (s is Command <==> channel == u32::MAX),
        packet_step(Some((channel, length)), max_length) matches Err(e) ==> e == if channel == u32::MAX {
            StopReason::CommandTooLarge(length)
        } else {
            StopReason::DataTooLarge(length)
        },
        packet_step(None, max_length) == Err::<PacketStep, StopReason>(StopReason::HeaderUnreadable),
{
}

/// Decides what to read after a packet header, or that the recording ends.
pub fn classify_packet(header: Option<(u32, u32)>, max_length: u32) -> (r: Result<PacketStep, StopReason>)
    ensures
        r == packet_step(header, max_length),
{
    match header {
        None => Err(StopReason::HeaderUnreadable),
        Some((channel, length)) => {
            if channel == u32::MAX {
                if length > max_length {
                    Err(StopReason::CommandTooLarge(length))
                } else {
                    Ok(PacketStep::Command(length))
                }
            } else if length > max_length {
                Err(StopReason::DataTooLarge(length))
            } else {
                Ok(PacketStep::Data(length))
            }
        },
    }
}

/// How a packet ends once its payload was read.
#[derive(Debug)]
pub enum RecordOutcome {
    /// A command packet that decodes exactly: go on with the next packet.
    Continue,
    /// A data packet: push its samples and go on.
    Push(DecodedPacket),
    /// The recording ends.
    Stop(StopReason),
}

/// Finishes a packet: `payload` is what was read for it, or `None` when the
/// read failed. A failed read or a malformed command packet ends the
/// recording; a data packet yields its samples.
pub fn finish_packet(
    step: PacketStep,
    payload: Option<&[u8]>,
    format: SampleFormat,
    protocol_version: u16,
) -> (r: RecordOutcome)
    requires
        step is Data ==> (payload matches Some(p) ==> p@.len() == 0 || format != SampleFormat::Unsupported),
    ensures
        match payload {
            None => r == RecordOutcome::Stop(StopReason::PayloadUnreadable),
            Some(p) => match step {
                PacketStep::Command(_) => r == if !timestamp_overflows(p@) && command_prefix(
                    p@,
                    protocol_version,
                ) == Some(p@.len() as nat) {
                    RecordOutcome::Continue
                } else {
                    RecordOutcome::Stop(StopReason::CommandMalformed)
                },
                PacketStep::Data(_) => r matches RecordOutcome::Push(d) && decodes_to(format, p@, d),
            },
        },
{
    match payload {
        None => RecordOutcome::Stop(StopReason::PayloadUnreadable),
        Some(p) => match step {
            PacketStep::Command(_) => {
                if command_packet_ok(p, protocol_version) {
                    RecordOutcome::Continue
                } else {
                    RecordOutcome::Stop(StopReason::CommandMalformed)
                }
            },
            PacketStep::Data(_) => RecordOutcome::Push(decode_samples(format, p)),
        },
    }
}

/// The unsigned value of two little-endian bytes.
pub open spec fn le16(b0: u8, b1: u8) -> nat {
    b0 as nat + 256 * (b1 as nat)
}

/// The unsigned value of four little-endian bytes.
pub open spec fn le32(b0: u8, b1: u8, b2: u8, b3: u8) -> nat {
    b0 as nat + 256 * (b1 as nat) + 65536 * (b2 as nat) + 16777216 * (b3 as nat)
}

/// The two's-complement reading of a 16 bit pattern.
pub open spec fn signed16(u: nat) -> int {
    if u >= 32768 {
        u - 65536
    } else {
        u as int
    }
}

/// The two's-complement reading of a 32 bit pattern.
pub open spec fn signed32(u: nat) -> int {
    if u >= 0x8000_0000 {
        u - 0x1_0000_0000
    } else {
        u as int
    }
}

/// Calls `byteorder::LittleEndian::read_i16`: the signed value of the first
/// two bytes, least significant first.
#[verifier::external_body]
fn read_i16_le(buf: &[u8]) -> (r: i16)
    requires
        buf@.len() >= 2,
    ensures
        r == signed16(le16(buf@[0], buf@[1])),
{
    byteorder::LittleEndian::read_i16(buf)
}

/// Calls `byteorder::LittleEndian::read_i32`: the signed value of the first
/// four bytes, least significant first.
#[verifier::external_body]
fn read_i32_le(buf: &[u8]) -> (r: i32)
    requires
        buf@.len() >= 4,
    ensures
        r == signed32(le32(buf@[0], buf@[1], buf@[2], buf@[3])),
{
    byteorder::LittleEndian::read_i32(buf)
}

/// Calls `byteorder::LittleEndian::read_u32`: the unsigned value of the
/// first four bytes, least significant first.
#[verifier::external_body]
fn read_u32_le(buf: &[u8]) -> (r: u32)
    requires
        buf@.len() >= 4,
    ensures
        r == le32(buf@[0], buf@[1], buf@[2], buf@[3]),
{
    byteorder::LittleEndian::read_u32(buf)
}

/// One sample as it stands in a data packet.
#[derive(Debug, Clone, Copy, PartialEq, Eq, Structural)]
pub enum RawSample {
    /// A signed 16 bit sample.
    I16(i16),
    /// A signed 32 bit sample.
    I32(i32),
    /// The bit pattern of a 32 bit IEEE float sample.
    F32Bits(u32),
}

/// The bytes one sample takes in a format (none for formats that cannot be
/// decoded).
pub open spec fn sample_width(f: SampleFormat) -> nat {
    match f {
        SampleFormat::S16Le => 2,
        SampleFormat::Float32Le => 4,
        SampleFormat::S32Le => 4,
        SampleFormat::Unsupported => 0,
    }
}

/// The `i`-th sample of a packet in format `f`.
pub open spec fn sample_at(f: SampleFormat, b: Seq<u8>, i: int) -> RawSample {
    let o = sample_width(f) * i;
    match f {
        SampleFormat::S16Le => RawSample::I16(signed16(le16(b[o], b[o + 1])) as i16),
        SampleFormat::S32Le => RawSample::I32(
            signed32(le32(b[o], b[o + 1], b[o + 2], b[o + 3])) as i32,
        ),
        _ => RawSample::F32Bits(le32(b[o], b[o + 1], b[o + 2], b[o + 3]) as u32),
    }
}

/// The 16 bit pattern of a signed value.
pub open spec fn pattern16(v: int) -> nat {
    if v < 0 {
        (v + 65536) as nat
    } else {
        v as nat
    }
}

/// The little-endian bytes of 16 bit samples.
pub open spec fn encode_s16(v: Seq<i16>) -> Seq<u8> {
    Seq::new(
        2 * v.len(),
        |k: int|
            if k % 2 == 0 {
                (pattern16(v[k / 2] as int) % 256) as u8
            } else {
                (pattern16(v[k / 2] as int) / 256) as u8
            },
    )
}

/// Decoding gives back what was sent: the little-endian bytes of 16 bit
/// samples decode to exactly those samples, with nothing left over.
pub proof fn lemma_s16_round_trip(v: Seq<i16>)
    ensures
        encode_s16(v).len() / sample_width(SampleFormat::S16Le) == v.len(),
        encode_s16(v).len() % sample_width(SampleFormat::S16Le) == 0,
        forall|i: int|
            0 <= i < v.len() ==> #[trigger] sample_at(SampleFormat::S16Le, encode_s16(v), i)
                == RawSample::I16(v[i]),
{
    let b = encode_s16(v);
    assert forall|i: int| 0 <= i < v.len() implies #[trigger] sample_at(
        SampleFormat::S16Le,
        b,
        i,
    ) == RawSample::I16(v[i]) by {
        let u = pattern16(v[i] as int);
        assert((2 * i) / 2 == i && (2 * i) % 2 == 0);
        assert((2 * i + 1) / 2 == i && (2 * i + 1) % 2 == 1);
        assert(b[2 * i] == (u % 256) as u8);
        assert(b[2 * i + 1] == (u / 256) as u8);
        assert(le16(b[2 * i], b[2 * i + 1]) == u);
        assert(signed16(u) == v[i]);
    }
}

/// The 32 bit pattern of a signed value.
pub open spec fn pattern32(v: int) -> nat {
    if v < 0 {
        (v + 0x1_0000_0000) as nat
    } else {
        v as nat
    }
}

/// Byte `j` (least significant first) of a 32 bit pattern.
pub open spec fn byte_of(u: nat, j: int) -> u8 {
    if j == 0 {
        (u % 256) as u8
    } else if j == 1 {
        ((u / 256) % 256) as u8
    } else if j == 2 {
        ((u / 65536) % 256) as u8
    } else {
        (u / 16777216) as u8
    }
}

/// The little-endian bytes of 32 bit samples.
pub open spec fn encode_s32(v: Seq<i32>) -> Seq<u8> {
    Seq::new(4 * v.len(), |k: int| byte_of(pattern32(v[k / 4] as int), k % 4))
}

/// The little-endian bytes of 32 bit samples decode to exactly those
/// samples, with nothing left over.
pub proof fn lemma_s32_round_trip(v: Seq<i32>)
    ensures
        encode_s32(v).len() / sample_width(SampleFormat::S32Le) == v.len(),
        encode_s32(v).len() % sample_width(SampleFormat::S32Le) == 0,
        forall|i: int|
            0 <= i < v.len() ==> #[trigger] sample_at(SampleFormat::S32Le, encode_s32(v), i)
                == RawSample::I32(v[i]),
{
    let b = encode_s32(v);
    assert forall|i: int| 0 <= i < v.len() implies #[trigger] sample_at(
        SampleFormat::S32Le,
        b,
        i,
    ) == RawSample::I32(v[i]) by {
        let u = pattern32(v[i] as int);
        assert((4 * i) / 4 == i && (4 * i) % 4 == 0);
        assert((4 * i + 1) / 4 == i && (4 * i + 1) % 4 == 1);
        assert((4 * i + 2) / 4 == i && (4 * i + 2) % 4 == 2);
        assert((4 * i + 3) / 4 == i && (4 * i + 3) % 4 == 3);
        assert(u < 0x1_0000_0000);
        assert(le32(byte_of(u, 0), byte_of(u, 1), byte_of(u, 2), byte_of(u, 3)) == u) by (nonlinear_arith)
            requires
                u < 0x1_0000_0000,
        {
        }
        assert(signed32(u) == v[i]);
    }
}

/// The samples of one data packet.
#[derive(Debug)]
pub struct DecodedPacket {
    /// The complete samples, in order.
    pub samples: Vec<RawSample>,
    /// Whether bytes too few for one more sample were left over at the end.
    pub partial: bool,
}

/// Whether `d` is the decoding of the bytes of a data packet: no samples for
/// no bytes; otherwise every complete sample in order, and whether a partial
/// one was left at the end.
pub open spec fn decodes_to(format: SampleFormat, bytes: Seq<u8>, d: DecodedPacket) -> bool {
    &&& bytes.len() == 0 ==> d.samples@.len() == 0 && !d.partial
    &&& format != SampleFormat::Unsupported ==> {
        &&& d.samples@.len() == bytes.len() / sample_width(format)
        &&& forall|i: int| 0 <= i < d.samples@.len() ==> #[trigger] d.samples@[i] == sample_at(format, bytes, i)
        &&& d.partial == (bytes.len() % sample_width(format) != 0)
    }
}

/// Decodes the samples of a data packet: every complete sample in order,
/// and whether a partial one was left at the end.
pub fn decode_samples(format: SampleFormat, bytes: &[u8]) -> (r: DecodedPacket)
    requires
        bytes@.len() == 0 || format != SampleFormat::Unsupported,
    ensures
        decodes_to(format, bytes@, r),
{
    let mut samples: Vec<RawSample> = Vec::new();
    if bytes.len() == 0 {
        return DecodedPacket { samples, partial: false };
    }
    let w: usize = match format {
        SampleFormat::S16Le => 2,
        _ => 4,
    };
    let n = bytes.len() / w;
    let mut i: usize = 0;
    while i < n
        invariant
            format != SampleFormat::Unsupported,
            w == sample_width(format),
            n == bytes.len() / w,
            i <= n,
            samples@.len() == i,
            forall|k: int| 0 <= k < i ==> #[trigger] samples@[k] == sample_at(format, bytes@, k),
        decreases n - i,
    {
        let len = bytes.len();
        assert(w * i + w <= len) by (nonlinear_arith)
            requires
                i < n,
                n == len / w,
                w > 0,
        ;
        let o = w * i;
        let chunk = &bytes[o..o + w];
        let s = match format {
            SampleFormat::S16Le => RawSample::I16(read_i16_le(chunk)),
            SampleFormat::S32Le => RawSample::I32(read_i32_le(chunk)),
            _ => RawSample::F32Bits(read_u32_le(chunk)),
        };
        assert(s == sample_at(format, bytes@, i as int));
        samples.push(s);
        i = i + 1;
    }
    DecodedPacket { samples, partial: bytes.len() % w != 0 }
}

} // verus!
