//! The push-style backend: a decoder that is fed packets and asked for
//! frames.
//!
//! Reading packets and running the codec is the caller's part. What to do
//! next, and when the stream has ended, is decided here, one step at a time.

use vstd::prelude::*;
use crate::decode::{
    copy_frame, frame_ref, frame_ref_view, layout_matches, layout_satisfies, ChromaSamplePosition, ChromaSampling,
    FrameView, PixelType, PlaneConfig, Rational, VideoDetails,
};
use crate::frame::{Plane, RawPlane};

verus! {

/// The pixel formats the decoder can stand for, and one more for all others.
#[derive(Clone, Copy, Debug, PartialEq, Eq, Structural)]
pub enum PixelFormat {
    /// Planar 4:2:0, 8 bits.
    YUV420P,
    /// Planar 4:2:2, 8 bits.
    YUV422P,
    /// Planar 4:4:4, 8 bits.
    YUV444P,
    /// Planar 4:2:0, 10 bits, little-endian.
    YUV420P10LE,
    /// Planar 4:2:2, 10 bits, little-endian.
    YUV422P10LE,
    /// Planar 4:4:4, 10 bits, little-endian.
    YUV444P10LE,
    /// Planar 4:2:0, 12 bits, little-endian.
    YUV420P12LE,
    /// Planar 4:2:2, 12 bits, little-endian.
    YUV422P12LE,
    /// Planar 4:4:4, 12 bits, little-endian.
    YUV444P12LE,
    /// Any other format.
    Other,
}

impl PixelFormat {
    /// Bits per sample, for the formats that are supported.
    pub open spec fn spec_bit_depth(self) -> Option<usize> {
        match self {
            PixelFormat::YUV420P | PixelFormat::YUV422P | PixelFormat::YUV444P => Some(8usize),
            PixelFormat::YUV420P10LE | PixelFormat::YUV422P10LE | PixelFormat::YUV444P10LE => Some(10usize),
            PixelFormat::YUV420P12LE | PixelFormat::YUV422P12LE | PixelFormat::YUV444P12LE => Some(12usize),
            PixelFormat::Other => None,
        }
    }

    /// Chroma subsampling, for the formats that are supported.
    pub open spec fn spec_chroma_sampling(self) -> Option<ChromaSampling> {
        match self {
            PixelFormat::YUV420P | PixelFormat::YUV420P10LE | PixelFormat::YUV420P12LE => Some(
                ChromaSampling::Cs420,
            ),
            PixelFormat::YUV422P | PixelFormat::YUV422P10LE | PixelFormat::YUV422P12LE => Some(
                ChromaSampling::Cs422,
            ),
            PixelFormat::YUV444P | PixelFormat::YUV444P10LE | PixelFormat::YUV444P12LE => Some(
                ChromaSampling::Cs444,
            ),
            PixelFormat::Other => None,
        }
    }

    /// Chroma sample position: vertical for 4:2:2, co-located otherwise.
    pub open spec fn spec_chroma_sample_position(self) -> ChromaSamplePosition {
        match self {
            PixelFormat::YUV422P | PixelFormat::YUV422P10LE | PixelFormat::YUV422P12LE => {
                ChromaSamplePosition::Vertical
            },
            _ => ChromaSamplePosition::Colocated,
        }
    }

    /// Bits per sample, for the formats that are supported.
    #[verifier::when_used_as_spec(spec_bit_depth)]
    pub fn bit_depth(self) -> (bit_depth: Option<usize>)
        ensures
            bit_depth == self.spec_bit_depth(),
    {
        match self {
            PixelFormat::YUV420P | PixelFormat::YUV422P | PixelFormat::YUV444P => Some(8),
            PixelFormat::YUV420P10LE | PixelFormat::YUV422P10LE | PixelFormat::YUV444P10LE => Some(10),
            PixelFormat::YUV420P12LE | PixelFormat::YUV422P12LE | PixelFormat::YUV444P12LE => Some(12),
            PixelFormat::Other => None,
        }
    }

    /// Chroma subsampling, for the formats that are supported.
    #[verifier::when_used_as_spec(spec_chroma_sampling)]
    pub fn chroma_sampling(self) -> (sampling: Option<ChromaSampling>)
        ensures
            sampling == self.spec_chroma_sampling(),
    {
        match self {
            PixelFormat::YUV420P | PixelFormat::YUV420P10LE | PixelFormat::YUV420P12LE => Some(
                ChromaSampling::Cs420,
            ),
            PixelFormat::YUV422P | PixelFormat::YUV422P10LE | PixelFormat::YUV422P12LE => Some(
                ChromaSampling::Cs422,
            ),
            PixelFormat::YUV444P | PixelFormat::YUV444P10LE | PixelFormat::YUV444P12LE => Some(
                ChromaSampling::Cs444,
            ),
            PixelFormat::Other => None,
        }
    }

    /// Chroma sample position: vertical for 4:2:2, co-located otherwise.
    #[verifier::when_used_as_spec(spec_chroma_sample_position)]
    pub fn chroma_sample_position(self) -> (position: ChromaSamplePosition)
        ensures
            position == self.spec_chroma_sample_position(),
    {
        match self {
            PixelFormat::YUV422P | PixelFormat::YUV422P10LE | PixelFormat::YUV422P12LE => {
                ChromaSamplePosition::Vertical
            },
            _ => ChromaSamplePosition::Colocated,
        }
    }
}

/// Where the decoder stands between packets and frames.
#[derive(Clone, Copy, Debug, PartialEq, Eq, Structural)]
pub enum PushState {
    /// The codec has given all the frames of the packets sent so far; it
    /// needs another packet.
    Idle,
    /// A packet was sent; the codec is asked for frames until it has none.
    ReceivingFrames,
    /// The packets are at their end and the codec was told so; it is asked
    /// for the frames it still holds.
    DrainingAtEof,
}

/// What has happened outside since the last step.
#[derive(Clone, Copy, Debug, PartialEq, Eq, Structural)]
pub enum PushEvent {
    /// A frame is asked for; nothing has happened yet.
    Started,
    /// The codec was asked for a frame; `true` if it gave one.
    Pulled(bool),
    /// The next packet was read; it belongs to the stream with this index.
    Packet(usize),
    /// There are no more packets.
    NoMorePackets,
    /// The packet read last was sent to the codec.
    PacketSent,
    /// The codec was told that the packets are at their end.
    EofSent,
    /// The codec or the source of the packets failed at what was asked of
    /// it, otherwise than by having no frame to give.
    Fault,
}

/// What is to be done outside next.
#[derive(Clone, Copy, Debug, PartialEq, Eq, Structural)]
pub enum PushCommand {
    /// Ask the codec for a frame.
    PullFrame,
    /// Read the next packet.
    ReadPacket,
    /// Send the packet read last to the codec.
    SendPacket,
    /// Tell the codec that the packets are at their end.
    SendEof,
    /// The request is answered: `true` with a frame, `false` at the end of
    /// the stream.
    Finish(bool),
    /// The stream cannot be decoded any further: give the pass up and say
    /// why. No frame is passed over in silence.
    Abort,
}

/// The state after an event. Sending a packet starts the receiving of frames;
/// a frame that does not come while frames are received brings the decoder
/// back to idle; telling the codec that the packets are at their end starts
/// the draining, which nothing ends.
pub open spec fn push_state_after(state: PushState, event: PushEvent) -> PushState {
    match event {
        PushEvent::Pulled(false) => if state == PushState::ReceivingFrames {
            PushState::Idle
        } else {
            state
        },
        PushEvent::PacketSent => if state == PushState::DrainingAtEof {
            state
        } else {
            PushState::ReceivingFrames
        },
        PushEvent::EofSent => PushState::DrainingAtEof,
        _ => state,
    }
}

/// What an event asks for in a state, where `stream_index` is the stream that
/// is decoded. A frame that came answers the request. A frame that did not
/// come ends the stream only where the codec is being drained; while frames
/// of a packet are received it means that the codec needs the next packet.
/// Packets of other streams are passed over. That the packets are at their
/// end is passed on to the codec from idle only; a decoder that still
/// receives or drains asks the codec for a frame instead. A fault ends
/// everything.
pub open spec fn push_command(state: PushState, stream_index: usize, event: PushEvent) -> PushCommand {
    match event {
        PushEvent::Started => if state == PushState::Idle {
            PushCommand::ReadPacket
        } else {
            PushCommand::PullFrame
        },
        PushEvent::Pulled(true) => PushCommand::Finish(true),
        PushEvent::Pulled(false) => if state == PushState::DrainingAtEof {
            PushCommand::Finish(false)
        } else {
            PushCommand::ReadPacket
        },
        PushEvent::Packet(index) => if index == stream_index {
            PushCommand::SendPacket
        } else {
            PushCommand::ReadPacket
        },
        PushEvent::NoMorePackets => if state == PushState::Idle {
            PushCommand::SendEof
        } else {
            PushCommand::PullFrame
        },
        PushEvent::PacketSent => PushCommand::PullFrame,
        PushEvent::EofSent => PushCommand::PullFrame,
        PushEvent::Fault => PushCommand::Abort,
    }
}

/// The end of the stream is reported only while the codec is being drained,
/// and only when it has no frame left to give.
pub proof fn lemma_end_only_after_drain(state: PushState, stream_index: usize, event: PushEvent)
    requires
        push_command(state, stream_index, event) == PushCommand::Finish(false),
    ensures
        state == PushState::DrainingAtEof,
        event == PushEvent::Pulled(false),
        push_state_after(state, event) == PushState::DrainingAtEof,
{
}

/// A packet of another stream changes nothing: the next packet is read in
/// the same state.
pub proof fn lemma_other_streams_skipped(state: PushState, stream_index: usize, index: usize)
    requires
        index != stream_index,
    ensures
        push_state_after(state, PushEvent::Packet(index)) == state,
        push_command(state, stream_index, PushEvent::Packet(index)) == PushCommand::ReadPacket,
{
}

/// A fault is fatal wherever the decoder stands, and nothing else is: the
/// pass is given up exactly when the codec or the source of the packets
/// failed, and the decoder is left as it stood.
pub proof fn lemma_fault_is_fatal(state: PushState, stream_index: usize, event: PushEvent)
    ensures
        push_command(state, stream_index, event) == PushCommand::Abort <==> event == PushEvent::Fault,
        push_state_after(state, PushEvent::Fault) == state,
{
}

/// Once the codec is being drained, it stays so whatever happens.
pub proof fn lemma_drain_is_final(event: PushEvent)
    ensures
        push_state_after(PushState::DrainingAtEof, event) == PushState::DrainingAtEof,
{
}

/// The event answers the command: it reports the outcome of what the
/// command asked for, which may be a fault, or, after a request is answered,
/// starts the next one. Nothing answers the command to give up.
pub open spec fn answers(command: PushCommand, event: PushEvent) -> bool {
    match command {
        PushCommand::PullFrame => event is Pulled || event == PushEvent::Fault,
        PushCommand::ReadPacket => event is Packet || event == PushEvent::NoMorePackets || event == PushEvent::Fault,
        PushCommand::SendPacket => event == PushEvent::PacketSent || event == PushEvent::Fault,
        PushCommand::SendEof => event == PushEvent::EofSent || event == PushEvent::Fault,
        PushCommand::Finish(_) => event == PushEvent::Started,
        PushCommand::Abort => false,
    }
}

/// The state of a decoder that was idle at first, before event `t` of
/// `events`.
pub open spec fn state_before(events: Seq<PushEvent>, t: int) -> PushState
    decreases t,
{
    if t <= 0 {
        PushState::Idle
    } else {
        push_state_after(state_before(events, t - 1), events[t - 1])
    }
}

/// The command that event `t` of `events` is answered with.
pub open spec fn command_after(stream_index: usize, events: Seq<PushEvent>, t: int) -> PushCommand {
    push_command(state_before(events, t), stream_index, events[t])
}

/// The events are those of a caller that does as it is told: the first starts
/// a request, and every other answers the command before it.
pub open spec fn in_protocol(stream_index: usize, events: Seq<PushEvent>) -> bool {
    &&& events.len() > 0 ==> events[0] == PushEvent::Started
    &&& forall|t: int|
        1 <= t < events.len() ==> answers(#[trigger] command_after(stream_index, events, t - 1), events[t])
}

/// A decoder is drained only after the packets have come to their end.
proof fn lemma_drained_after_packets(stream_index: usize, events: Seq<PushEvent>, t: int)
    requires
        in_protocol(stream_index, events),
        0 <= t <= events.len(),
        state_before(events, t) == PushState::DrainingAtEof,
    ensures
        exists|m: int| 0 <= m < t && events[m] == PushEvent::NoMorePackets,
    decreases t,
{
    if state_before(events, t - 1) == PushState::DrainingAtEof {
        lemma_drained_after_packets(stream_index, events, t - 1);
        let m = choose|m: int| 0 <= m < t - 1 && events[m] == PushEvent::NoMorePackets;
        assert(0 <= m < t && events[m] == PushEvent::NoMorePackets);
    } else {
        assert(events[t - 1] == PushEvent::EofSent);
        assert(answers(command_after(stream_index, events, t - 2), events[t - 1]));
        assert(events[t - 2] == PushEvent::NoMorePackets);
    }
}

/// The end of the stream is reported only after both the packets and the
/// codec are exhausted: when a caller that does as it is told is answered
/// with the end of the stream, the codec has just failed to give a frame,
/// and before that the packets had come to their end.
pub proof fn lemma_end_after_packets_and_codec(stream_index: usize, events: Seq<PushEvent>, k: int)
    requires
        in_protocol(stream_index, events),
        0 <= k < events.len(),
        command_after(stream_index, events, k) == PushCommand::Finish(false),
    ensures
        events[k] == PushEvent::Pulled(false),
        exists|m: int| 0 <= m < k && events[m] == PushEvent::NoMorePackets,
{
    lemma_end_only_after_drain(state_before(events, k), stream_index, events[k]);
    lemma_drained_after_packets(stream_index, events, k);
}

/// The codec is told that the packets are at their end from idle only, and
/// only when they are.
pub proof fn lemma_eof_only_from_idle(state: PushState, stream_index: usize, event: PushEvent)
    requires
        push_command(state, stream_index, event) == PushCommand::SendEof,
    ensures
        state == PushState::Idle,
        event == PushEvent::NoMorePackets,
        push_state_after(state, event) == PushState::Idle,
{
}

/// A decoder that is being drained before event `s` is being drained before
/// every later event.
proof fn lemma_drain_lasts(events: Seq<PushEvent>, s: int, t: int)
    requires
        0 <= s <= t,
        state_before(events, s) == PushState::DrainingAtEof,
    ensures
        state_before(events, t) == PushState::DrainingAtEof,
    decreases t - s,
{
    if s < t {
        lemma_drain_lasts(events, s, t - 1);
        lemma_drain_is_final(events[t - 1]);
    }
}

/// The codec is told once at most that the packets are at their end: a
/// caller that does as it is told is not told twice to say so.
pub proof fn lemma_eof_sent_once(stream_index: usize, events: Seq<PushEvent>, a: int, b: int)
    requires
        in_protocol(stream_index, events),
        0 <= a < b < events.len(),
        command_after(stream_index, events, a) == PushCommand::SendEof,
    ensures
        command_after(stream_index, events, b) != PushCommand::SendEof,
{
    assert(answers(command_after(stream_index, events, a), events[a + 1]));
    if events[a + 1] == PushEvent::EofSent {
        if b >= a + 2 {
            assert(state_before(events, a + 2) == PushState::DrainingAtEof);
            lemma_drain_lasts(events, a + 2, b);
        }
    } else {
        assert(command_after(stream_index, events, a + 1) == PushCommand::Abort);
        if b >= a + 2 {
            assert(answers(command_after(stream_index, events, a + 1), events[a + 2]));
        }
    }
}

/// An interface that is used for decoding a video stream using FFmpeg
#[derive(Clone, Copy, Debug)]
pub struct FfmpegDecoder {
    video_details: VideoDetails,
    stream_index: usize,
    state: PushState,
    format: PixelFormat,
}

/// The duration of one frame of a stream with the given average frame rate:
/// the rate turned upside down.
pub open spec fn spec_time_base(frame_rate: Rational) -> Rational {
    Rational { num: frame_rate.den, den: frame_rate.num }
}

/// The duration of one frame of a stream with the given average frame rate.
#[verifier::when_used_as_spec(spec_time_base)]
pub fn time_base(frame_rate: Rational) -> (duration: Rational)
    ensures
        duration == spec_time_base(frame_rate),
{
    Rational { num: frame_rate.den, den: frame_rate.num }
}

/// The descriptor of a stream of the given format, size and average frame
/// rate.
pub open spec fn stream_details(format: PixelFormat, width: usize, height: usize, frame_rate: Rational) -> VideoDetails
    recommends
        format != PixelFormat::Other,
{
    VideoDetails {
        width,
        height,
        bit_depth: format.spec_bit_depth()->0,
        chroma_sampling: format.spec_chroma_sampling()->0,
        chroma_sample_position: format.spec_chroma_sample_position(),
        time_base: spec_time_base(frame_rate),
        luma_padding: 0,
    }
}

impl FfmpegDecoder {
    /// The descriptor of the stream.
    pub closed spec fn details(&self) -> VideoDetails {
        self.video_details
    }

    /// The index of the stream that is decoded.
    pub closed spec fn stream(&self) -> usize {
        self.stream_index
    }

    /// The pixel format of the stream.
    pub closed spec fn pixel_format(&self) -> PixelFormat {
        self.format
    }

    /// Where the decoder stands.
    pub closed spec fn spec_state(&self) -> PushState {
        self.state
    }

    /// A decoder for the video stream with index `stream_index`, whose codec
    /// reports the given pixel format and size, and whose container reports
    /// the given average frame rate. A pixel format other than planar YUV of
    /// 8, 10 or 12 bits is refused.
    pub fn new(format: PixelFormat, width: usize, height: usize, frame_rate: Rational, stream_index: usize) -> (decoder:
        Result<Self, String>)
        ensures
            format == PixelFormat::Other ==> (decoder matches Err(message) && message@
                == "Unsupported pixel format"@),
            format != PixelFormat::Other ==> (decoder matches Ok(made) && made.details() == stream_details(
                format,
                width,
                height,
                frame_rate,
            ) && made.stream() == stream_index && made.pixel_format() == format && made.spec_state()
                == PushState::Idle),
    {
        let bit_depth = match format.bit_depth() {
            Some(bit_depth) => bit_depth,
            None => {
                return Err("Unsupported pixel format".to_string());
            },
        };
        let chroma_sampling = match format.chroma_sampling() {
            Some(chroma_sampling) => chroma_sampling,
            None => {
                return Err("Unsupported pixel format".to_string());
            },
        };
        Ok(
            Self {
                video_details: VideoDetails {
                    width,
                    height,
                    bit_depth,
                    chroma_sampling,
                    chroma_sample_position: format.chroma_sample_position(),
                    time_base: time_base(frame_rate),
                    luma_padding: 0,
                },
                stream_index,
                state: PushState::Idle,
                format,
            },
        )
    }

    /// Where the decoder stands.
    #[verifier::when_used_as_spec(spec_state)]
    pub fn state(&self) -> (state: PushState)
        ensures
            state == self.spec_state(),
    {
        self.state
    }

    /// The pixel format of the stream.
    pub fn format(&self) -> (format: PixelFormat)
        ensures
            format == self.pixel_format(),
    {
        self.format
    }

    /// The measures of a fresh buffer for frames of `alloc_height` rows of
    /// `stride` samples: width first, then height.
    pub fn receive_frame_init(&self, stride: usize, alloc_height: usize) -> (size: (u32, u32))
        requires
            stride <= u32::MAX,
            alloc_height <= u32::MAX,
        ensures
            size.0 == stride,
            size.1 == alloc_height,
    {
        (stride as u32, alloc_height as u32)
    }

    /// One step of receiving a frame: takes what has happened outside and
    /// says what is to be done next, until the request is answered.
    pub fn receive_frame(&mut self, event: PushEvent) -> (command: PushCommand)
        ensures
            command == push_command(old(self).spec_state(), old(self).stream(), event),
            final(self).spec_state() == push_state_after(old(self).spec_state(), event),
            final(self).details() == old(self).details(),
            final(self).stream() == old(self).stream(),
            final(self).pixel_format() == old(self).pixel_format(),
    {
        match event {
            PushEvent::Started => match self.state {
                PushState::Idle => PushCommand::ReadPacket,
                // We keep receiving frames while the decoder is returning true for receive_frame
                _ => PushCommand::PullFrame,
            },
            // Keep receiving frames
            PushEvent::Pulled(true) => PushCommand::Finish(true),
            PushEvent::Pulled(false) => match self.state {
                // Only return false after packet_iter stops returning and after we've returned
                // all frames after eof
                PushState::DrainingAtEof => PushCommand::Finish(false),
                PushState::ReceivingFrames => {
                    // We need to send more packets once the decoder stops returning
                    self.state = PushState::Idle;
                    PushCommand::ReadPacket
                },
                PushState::Idle => PushCommand::ReadPacket,
            },
            PushEvent::Packet(index) => {
                // Skip irrelevant indexes
                if index != self.stream_index {
                    PushCommand::ReadPacket
                } else {
                    PushCommand::SendPacket
                }
            },
            PushEvent::NoMorePackets => match self.state {
                PushState::Idle => PushCommand::SendEof,
                _ => PushCommand::PullFrame,
            },
            PushEvent::PacketSent => {
                match self.state {
                    PushState::DrainingAtEof => {},
                    _ => {
                        self.state = PushState::ReceivingFrames;
                    },
                }
                PushCommand::PullFrame
            },
            PushEvent::EofSent => {
                self.state = PushState::DrainingAtEof;
                PushCommand::PullFrame
            },
            PushEvent::Fault => PushCommand::Abort,
        }
    }

    /// A view of a frame with the geometry asked for: the frame's own memory
    /// where `strict` is off or its layout meets the request, else a copy,
    /// made in `alloc` where one is given. The buffer of a frame is made to
    /// the caller's measures, but the codec may lay its rows out wider.
    pub fn get_frame_ref<'a>(
        native: RawPlane<'a>,
        pixel: PixelType,
        height: usize,
        width: usize,
        stride: usize,
        alloc_height: usize,
        strict: bool,
        alloc: Option<&'a mut Plane>,
    ) -> (view: FrameView<'a>)
        requires
            PlaneConfig::spec_luma(width, height, stride, alloc_height).byte_len(pixel) <= usize::MAX,
        ensures
            view@ == frame_ref_view(
                native@,
                layout_satisfies(native@, pixel, stride, alloc_height),
                pixel,
                PlaneConfig::spec_luma(width, height, stride, alloc_height),
                strict,
                alloc is Some,
            ),
            alloc matches Some(buffer) ==> if strict && !layout_satisfies(native@, pixel, stride, alloc_height) {
                final(buffer).is_copy_of(native@, pixel, PlaneConfig::spec_luma(width, height, stride, alloc_height))
            } else {
                *final(buffer) == *buffer
            },
    {
        let satisfied = layout_matches(native, pixel, stride, alloc_height);
        frame_ref(native, satisfied, pixel, height, width, stride, alloc_height, strict, alloc)
    }

    /// A copy of a frame with the geometry asked for: in `alloc` where one is
    /// given, and then nothing is returned; else in a fresh plane.
    pub fn make_copy(
        native: RawPlane<'_>,
        pixel: PixelType,
        height: usize,
        width: usize,
        stride: usize,
        alloc_height: usize,
        alloc: Option<&mut Plane>,
    ) -> (copy: Option<Plane>)
        requires
            PlaneConfig::spec_luma(width, height, stride, alloc_height).byte_len(pixel) <= usize::MAX,
        ensures
            match alloc {
                Some(buffer) => copy is None && final(buffer).is_copy_of(
                    native@,
                    pixel,
                    PlaneConfig::spec_luma(width, height, stride, alloc_height),
                ),
                None => copy matches Some(plane) && plane.is_copy_of(
                    native@,
                    pixel,
                    PlaneConfig::spec_luma(width, height, stride, alloc_height),
                ),
            },
    {
        copy_frame(native, pixel, height, width, stride, alloc_height, alloc)
    }

    /// Whether the next frame already has the layout asked for.
    pub fn stride_matches(&self, pixel: PixelType, stride: usize, alloc_height: usize) -> (matches: bool)
        ensures
            matches,
    {
        // Stride always matches
        true
    }

    /// Get the Video Details
    pub fn get_video_details(&self) -> (details: VideoDetails)
        ensures
            details == self.details(),
    {
        self.video_details
    }

    /// Get the Bit Depth
    pub fn get_bit_depth(&self) -> (bit_depth: usize)
        ensures
            bit_depth == self.details().bit_depth,
    {
        self.video_details.bit_depth
    }
}

} // verus!
