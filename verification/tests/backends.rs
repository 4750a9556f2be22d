use av_scenechange::analysis::AnalysisEngine;
use av_scenechange::decode::{
    ChromaSamplePosition, ChromaSampling, Decoder, FrameView, PixelType, PlaneConfig, Rational, VideoDetails,
};
use av_scenechange::ffmpeg::{time_base, FfmpegDecoder, PixelFormat, PushCommand, PushEvent, PushState};
use av_scenechange::frame::{Plane, RawPlane};
use av_scenechange::lookahead::detect_with_engine;
use av_scenechange::progress::NoProgress;
use av_scenechange::vapoursynth::{ClipInfo, Property, VapoursynthDecoder, VapoursynthError};
use av_scenechange::y4m::{
    get_video_details, map_y4m_color_space, read_video_frame, Colorspace, Ratio, Y4mDecoder, Y4mFrame,
};
use av_scenechange::{detect_scene_changes, DetectionOptions, SceneDetectionSpeed};
use std::collections::VecDeque;

const FORMATS: [PixelFormat; 9] = [
    PixelFormat::YUV420P,
    PixelFormat::YUV422P,
    PixelFormat::YUV444P,
    PixelFormat::YUV420P10LE,
    PixelFormat::YUV422P10LE,
    PixelFormat::YUV444P10LE,
    PixelFormat::YUV420P12LE,
    PixelFormat::YUV422P12LE,
    PixelFormat::YUV444P12LE,
];

#[test]
fn pixel_formats_and_what_they_stand_for() {
    let depths = [8, 8, 8, 10, 10, 10, 12, 12, 12];
    let samplings = [
        ChromaSampling::Cs420,
        ChromaSampling::Cs422,
        ChromaSampling::Cs444,
        ChromaSampling::Cs420,
        ChromaSampling::Cs422,
        ChromaSampling::Cs444,
        ChromaSampling::Cs420,
        ChromaSampling::Cs422,
        ChromaSampling::Cs444,
    ];
    for (i, format) in FORMATS.iter().enumerate() {
        assert_eq!(format.bit_depth(), Some(depths[i]));
        assert_eq!(format.chroma_sampling(), Some(samplings[i]));
        let position = if samplings[i] == ChromaSampling::Cs422 {
            ChromaSamplePosition::Vertical
        } else {
            ChromaSamplePosition::Colocated
        };
        assert_eq!(format.chroma_sample_position(), position);
    }
    assert_eq!(PixelFormat::Other.bit_depth(), None);
    assert_eq!(PixelFormat::Other.chroma_sampling(), None);
    assert_eq!(PixelFormat::Other.chroma_sample_position(), ChromaSamplePosition::Colocated);
}

#[test]
fn push_decoder_for_a_supported_format() {
    let decoder = FfmpegDecoder::new(PixelFormat::YUV422P10LE, 1920, 1080, Rational::new(24000, 1001), 2).unwrap();
    assert_eq!(
        decoder.get_video_details(),
        VideoDetails {
            width: 1920,
            height: 1080,
            bit_depth: 10,
            chroma_sampling: ChromaSampling::Cs422,
            chroma_sample_position: ChromaSamplePosition::Vertical,
            time_base: Rational { num: 1001, den: 24000 },
            luma_padding: 0,
        }
    );
    assert_eq!(decoder.get_bit_depth(), 10);
    assert_eq!(decoder.get_bit_depth(), decoder.get_video_details().bit_depth);
    assert_eq!(decoder.format(), PixelFormat::YUV422P10LE);
    assert_eq!(decoder.state(), PushState::Idle);
    assert!(decoder.stride_matches(PixelType::U16, 1920, 1080));
    assert!(decoder.stride_matches(PixelType::U8, 1, 1));
    assert_eq!(decoder.receive_frame_init(1920, 1088), (1920, 1088));
}

#[test]
fn time_base_is_the_frame_rate_upside_down() {
    assert_eq!(time_base(Rational::new(24000, 1001)), Rational { num: 1001, den: 24000 });
    assert_eq!(time_base(Rational::new(25, 1)), Rational { num: 1, den: 25 });
    assert_eq!(time_base(Rational::new(0, 1)), Rational { num: 1, den: 0 });
    let decoder = FfmpegDecoder::new(PixelFormat::YUV420P, 16, 16, Rational::new(30, 1), 0).unwrap();
    assert_eq!(decoder.get_video_details().time_base, Rational { num: 1, den: 30 });
}

#[test]
fn push_decoder_refuses_other_formats() {
    let refused = FfmpegDecoder::new(PixelFormat::Other, 1920, 1080, Rational::new(1, 25), 0);
    assert_eq!(refused.err(), Some("Unsupported pixel format".to_string()));
    for format in FORMATS {
        assert!(FfmpegDecoder::new(format, 16, 16, Rational::new(1, 25), 0).is_ok());
    }
}

/// A codec that gives one frame for each packet of stream 0, one packet late,
/// as a codec with a frame of delay does.
struct Codec {
    packets: VecDeque<usize>,
    sent: usize,
    given: usize,
    eof: bool,
    log: Vec<&'static str>,
}

impl Codec {
    fn new(packets: &[usize]) -> Self {
        Codec { packets: packets.iter().copied().collect(), sent: 0, given: 0, eof: false, log: Vec::new() }
    }

    fn pull(&mut self) -> bool {
        let ready = if self.eof { self.sent } else { self.sent.saturating_sub(1) };
        if self.given < ready {
            self.given += 1;
            true
        } else {
            false
        }
    }

    /// Receives one frame as the decoder says, and returns whether one came.
    fn receive(&mut self, decoder: &mut FfmpegDecoder) -> bool {
        let mut command = decoder.receive_frame(PushEvent::Started);
        loop {
            command = match command {
                PushCommand::PullFrame => {
                    self.log.push("pull");
                    let pulled = self.pull();
                    decoder.receive_frame(PushEvent::Pulled(pulled))
                },
                PushCommand::ReadPacket => {
                    self.log.push("read");
                    match self.packets.pop_front() {
                        Some(index) => decoder.receive_frame(PushEvent::Packet(index)),
                        None => decoder.receive_frame(PushEvent::NoMorePackets),
                    }
                },
                PushCommand::SendPacket => {
                    self.log.push("send");
                    self.sent += 1;
                    decoder.receive_frame(PushEvent::PacketSent)
                },
                PushCommand::SendEof => {
                    self.log.push("eof");
                    assert!(!self.eof);
                    self.eof = true;
                    decoder.receive_frame(PushEvent::EofSent)
                },
                PushCommand::Finish(received) => return received,
                PushCommand::Abort => panic!("the codec of the test never fails"),
            };
        }
    }
}

#[test]
fn push_decoder_gives_every_frame_and_then_ends() {
    let mut decoder = FfmpegDecoder::new(PixelFormat::YUV420P, 16, 16, Rational::new(1, 25), 0).unwrap();
    let mut codec = Codec::new(&[0, 1, 0, 1, 1, 0]);
    assert!(codec.receive(&mut decoder));
    assert_eq!(codec.log, vec!["read", "send", "pull", "read", "read", "send", "pull"]);
    assert_eq!(decoder.state(), PushState::ReceivingFrames);
    assert!(codec.receive(&mut decoder));
    assert!(!codec.eof);
    assert!(codec.receive(&mut decoder));
    assert!(codec.eof);
    assert_eq!(decoder.state(), PushState::DrainingAtEof);
    assert!(!codec.receive(&mut decoder));
    assert!(!codec.receive(&mut decoder));
    assert_eq!(decoder.state(), PushState::DrainingAtEof);
    assert_eq!(codec.given, 3);
    assert_eq!(codec.log.iter().filter(|&&step| step == "eof").count(), 1);
    assert_eq!(codec.log.iter().filter(|&&step| step == "send").count(), 3);
}

#[test]
fn push_decoder_of_an_empty_stream_ends_at_once() {
    let mut decoder = FfmpegDecoder::new(PixelFormat::YUV420P, 16, 16, Rational::new(1, 25), 0).unwrap();
    let mut codec = Codec::new(&[1, 1]);
    assert!(!codec.receive(&mut decoder));
    assert_eq!(codec.log, vec!["read", "read", "read", "eof", "pull"]);
}

#[test]
fn push_decoder_steps() {
    let mut decoder = FfmpegDecoder::new(PixelFormat::YUV420P, 16, 16, Rational::new(1, 25), 7).unwrap();
    assert_eq!(decoder.receive_frame(PushEvent::Started), PushCommand::ReadPacket);
    assert_eq!(decoder.receive_frame(PushEvent::Packet(3)), PushCommand::ReadPacket);
    assert_eq!(decoder.state(), PushState::Idle);
    assert_eq!(decoder.receive_frame(PushEvent::Packet(7)), PushCommand::SendPacket);
    assert_eq!(decoder.state(), PushState::Idle);
    assert_eq!(decoder.receive_frame(PushEvent::PacketSent), PushCommand::PullFrame);
    assert_eq!(decoder.state(), PushState::ReceivingFrames);
    assert_eq!(decoder.receive_frame(PushEvent::Pulled(true)), PushCommand::Finish(true));
    assert_eq!(decoder.state(), PushState::ReceivingFrames);
    assert_eq!(decoder.receive_frame(PushEvent::Started), PushCommand::PullFrame);
    assert_eq!(decoder.receive_frame(PushEvent::Pulled(false)), PushCommand::ReadPacket);
    assert_eq!(decoder.state(), PushState::Idle);
    assert_eq!(decoder.receive_frame(PushEvent::NoMorePackets), PushCommand::SendEof);
    assert_eq!(decoder.state(), PushState::Idle);
    assert_eq!(decoder.receive_frame(PushEvent::EofSent), PushCommand::PullFrame);
    assert_eq!(decoder.state(), PushState::DrainingAtEof);
    assert_eq!(decoder.receive_frame(PushEvent::Pulled(true)), PushCommand::Finish(true));
    assert_eq!(decoder.receive_frame(PushEvent::Started), PushCommand::PullFrame);
    assert_eq!(decoder.receive_frame(PushEvent::Pulled(false)), PushCommand::Finish(false));
    assert_eq!(decoder.state(), PushState::DrainingAtEof);
    assert_eq!(decoder.receive_frame(PushEvent::PacketSent), PushCommand::PullFrame);
    assert_eq!(decoder.state(), PushState::DrainingAtEof);
}

#[test]
fn push_decoder_sends_the_end_from_idle_only() {
    let mut decoder = FfmpegDecoder::new(PixelFormat::YUV420P, 16, 16, Rational::new(25, 1), 0).unwrap();
    assert_eq!(decoder.receive_frame(PushEvent::Started), PushCommand::ReadPacket);
    assert_eq!(decoder.receive_frame(PushEvent::Packet(0)), PushCommand::SendPacket);
    assert_eq!(decoder.receive_frame(PushEvent::PacketSent), PushCommand::PullFrame);
    // Frames are being received: the codec is asked for them first.
    assert_eq!(decoder.state(), PushState::ReceivingFrames);
    assert_eq!(decoder.receive_frame(PushEvent::NoMorePackets), PushCommand::PullFrame);
    assert_eq!(decoder.state(), PushState::ReceivingFrames);
    assert_eq!(decoder.receive_frame(PushEvent::Pulled(false)), PushCommand::ReadPacket);
    assert_eq!(decoder.state(), PushState::Idle);
    assert_eq!(decoder.receive_frame(PushEvent::NoMorePackets), PushCommand::SendEof);
    assert_eq!(decoder.state(), PushState::Idle);
    assert_eq!(decoder.receive_frame(PushEvent::EofSent), PushCommand::PullFrame);
    // The codec is being drained: it is not told a second time.
    assert_eq!(decoder.state(), PushState::DrainingAtEof);
    assert_eq!(decoder.receive_frame(PushEvent::NoMorePackets), PushCommand::PullFrame);
    assert_eq!(decoder.state(), PushState::DrainingAtEof);
}

#[test]
fn push_decoder_gives_up_on_a_fault() {
    let mut decoder = FfmpegDecoder::new(PixelFormat::YUV420P, 16, 16, Rational::new(25, 1), 0).unwrap();
    assert_eq!(decoder.receive_frame(PushEvent::Started), PushCommand::ReadPacket);
    assert_eq!(decoder.receive_frame(PushEvent::Fault), PushCommand::Abort);
    assert_eq!(decoder.state(), PushState::Idle);
    assert_eq!(decoder.receive_frame(PushEvent::Packet(0)), PushCommand::SendPacket);
    assert_eq!(decoder.receive_frame(PushEvent::Fault), PushCommand::Abort);
    assert_eq!(decoder.state(), PushState::Idle);
    assert_eq!(decoder.receive_frame(PushEvent::PacketSent), PushCommand::PullFrame);
    assert_eq!(decoder.receive_frame(PushEvent::Fault), PushCommand::Abort);
    assert_eq!(decoder.state(), PushState::ReceivingFrames);
    assert_eq!(decoder.receive_frame(PushEvent::Pulled(false)), PushCommand::ReadPacket);
    assert_eq!(decoder.receive_frame(PushEvent::NoMorePackets), PushCommand::SendEof);
    assert_eq!(decoder.receive_frame(PushEvent::Fault), PushCommand::Abort);
    assert_eq!(decoder.state(), PushState::Idle);
    assert_eq!(decoder.receive_frame(PushEvent::EofSent), PushCommand::PullFrame);
    assert_eq!(decoder.receive_frame(PushEvent::Fault), PushCommand::Abort);
    assert_eq!(decoder.state(), PushState::DrainingAtEof);
    // A frame that does not come is no fault.
    assert_eq!(decoder.receive_frame(PushEvent::Pulled(false)), PushCommand::Finish(false));
}

#[test]
fn push_decoder_views_follow_the_layout() {
    let source = [1, 2, 3, 0, 4, 5, 6, 0];
    let wide = RawPlane { stride: 4, height: 2, data: &source };
    // Rows wider than asked for, and the request is strict: a copy.
    let view = FfmpegDecoder::get_frame_ref(wide, PixelType::U8, 2, 3, 3, 2, true, None);
    assert!(!view.is_aliased());
    assert_eq!(view.plane_data(0), &[1, 2, 3, 4, 5, 6]);
    assert_eq!(view.plane_config(0), PlaneConfig::luma(3, 2, 3, 2));
    // The same into a buffer of the caller.
    let mut buffer = Plane::empty(PixelType::U8);
    {
        let view = FfmpegDecoder::get_frame_ref(wide, PixelType::U8, 2, 3, 3, 2, true, Some(&mut buffer));
        assert!(view.is_aliased());
        assert_eq!(view.plane_data(0), &[1, 2, 3, 4, 5, 6]);
    }
    assert_eq!(buffer.data, vec![1, 2, 3, 4, 5, 6]);
    assert_eq!(buffer.cfg, PlaneConfig::luma(3, 2, 3, 2));
    // Too few rows, and the request is strict: a copy, filled up with grey.
    let view = FfmpegDecoder::get_frame_ref(wide, PixelType::U8, 2, 4, 4, 3, true, None);
    assert!(!view.is_aliased());
    assert_eq!(view.plane_data(0), &[1, 2, 3, 0, 4, 5, 6, 0, 128, 128, 128, 128]);
    // The request is not strict: the memory of the codec as it is.
    let view = FfmpegDecoder::get_frame_ref(wide, PixelType::U8, 2, 3, 3, 2, false, None);
    assert!(view.is_aliased());
    assert_eq!(view.plane_data(0), &[1, 2, 3, 0, 4, 5]);
    assert_eq!(view.plane_config(0), PlaneConfig::luma(3, 2, 3, 2));
    // The layout is as asked for: the memory of the codec, strict or not.
    let mut untouched = Plane::empty(PixelType::U8);
    {
        let view = FfmpegDecoder::get_frame_ref(wide, PixelType::U8, 2, 3, 4, 2, true, Some(&mut untouched));
        assert!(view.is_aliased());
        assert_eq!(view.plane_data(0), &source);
        assert_eq!(view.plane_config(0), PlaneConfig::luma(3, 2, 4, 2));
    }
    assert_eq!(untouched, Plane::empty(PixelType::U8));
    let copy = FfmpegDecoder::make_copy(wide, PixelType::U8, 2, 3, 3, 2, None).unwrap();
    assert_eq!(copy.data, vec![1, 2, 3, 4, 5, 6]);
    let mut buffer = Plane::empty(PixelType::U8);
    assert_eq!(FfmpegDecoder::make_copy(wide, PixelType::U8, 2, 3, 3, 2, Some(&mut buffer)), None);
    assert_eq!(buffer, copy);
}

fn clip(bits: Property<u8>, resolution: Property<(usize, usize)>) -> Result<ClipInfo, String> {
    Ok(ClipInfo { bits_per_sample: bits, resolution })
}

#[test]
fn pull_decoder_for_a_constant_clip() {
    let decoder = VapoursynthDecoder::new(clip(Property::Constant(10), Property::Constant((1280, 720)))).unwrap();
    assert_eq!(
        decoder.get_video_details(),
        VideoDetails { width: 1280, height: 720, bit_depth: 10, ..VideoDetails::default() }
    );
    assert_eq!(decoder.get_bit_depth(), 10);
    assert_eq!(decoder.get_bit_depth(), decoder.get_video_details().bit_depth);
    assert_eq!(decoder.frame_idx(), 0);
}

#[test]
fn pull_decoder_errors() {
    let failed = VapoursynthDecoder::new(Err("no output".to_string()));
    assert_eq!(failed.err(), Some(VapoursynthError::VsScript("no output".to_string())));
    let variable = VapoursynthDecoder::new(clip(Property::Variable, Property::Constant((1280, 720))));
    assert_eq!(variable.err(), Some(VapoursynthError::VariableFormat));
    let variable = VapoursynthDecoder::new(clip(Property::Variable, Property::Variable));
    assert_eq!(variable.err(), Some(VapoursynthError::VariableFormat));
    let variable = VapoursynthDecoder::new(clip(Property::Constant(8), Property::Variable));
    assert_eq!(variable.err(), Some(VapoursynthError::VariableResolution));
}

#[test]
fn pull_decoder_cursor_moves_on_every_attempt() {
    let mut decoder = VapoursynthDecoder::new(clip(Property::Constant(8), Property::Constant((16, 16)))).unwrap();
    assert_eq!(decoder.receive_frame_init(Some("a")), Some("a"));
    assert_eq!(decoder.frame_idx(), 1);
    assert_eq!(decoder.receive_frame_init(None::<&str>), None);
    assert_eq!(decoder.frame_idx(), 2);
    let mut handle = "x";
    assert!(decoder.receive_frame(Some("b"), &mut handle));
    assert_eq!(handle, "b");
    assert_eq!(decoder.frame_idx(), 3);
    assert!(!decoder.receive_frame(None, &mut handle));
    assert_eq!(handle, "b");
    assert_eq!(decoder.frame_idx(), 4);
    assert_eq!(decoder.get_bit_depth(), decoder.get_video_details().bit_depth);
}

#[test]
fn pull_decoder_inspects_without_moving() {
    let mut decoder = VapoursynthDecoder::new(clip(Property::Constant(8), Property::Constant((4, 2)))).unwrap();
    let data = [0u8; 16];
    let wide = RawPlane { stride: 8, height: 2, data: &data };
    let exact = RawPlane { stride: 4, height: 2, data: &data[..8] };
    assert!(!decoder.stride_matches(Some(wide), PixelType::U8, 4, 2));
    assert_eq!(decoder.frame_idx(), 0);
    decoder.receive_frame_init(Some(()));
    assert!(decoder.stride_matches(Some(exact), PixelType::U8, 4, 2));
    assert_eq!(decoder.frame_idx(), 1);
    decoder.receive_frame_init(Some(()));
    assert!(!decoder.stride_matches(None, PixelType::U8, 4, 2));
    decoder.receive_frame_init(Some(()));
    assert!(!decoder.stride_matches(Some(exact), PixelType::U8, 4, 3));
    decoder.receive_frame_init(Some(()));
    assert!(decoder.stride_matches(Some(wide), PixelType::U16, 4, 2));
}

#[test]
fn pull_decoder_views() {
    let source = [1, 2, 3, 0, 4, 5, 6, 0];
    let native = RawPlane { stride: 4, height: 2, data: &source };
    let loose = VapoursynthDecoder::get_frame_ref(native, PixelType::U8, 2, 3, 3, 2, false, None);
    assert!(loose.is_aliased());
    assert_eq!(loose.plane_data(0), &[1, 2, 3, 0, 4, 5]);
    let strict = VapoursynthDecoder::get_frame_ref(native, PixelType::U8, 2, 3, 3, 2, true, None);
    assert!(matches!(strict, FrameView::Owned(_)));
    assert_eq!(strict.plane_data(0), &[1, 2, 3, 4, 5, 6]);
    let matching = VapoursynthDecoder::get_frame_ref(native, PixelType::U8, 2, 4, 4, 2, true, None);
    assert!(matching.is_aliased());
    assert_eq!(matching.plane_data(0), &source);
    let higher = VapoursynthDecoder::get_frame_ref(native, PixelType::U8, 2, 4, 4, 3, true, None);
    assert!(!higher.is_aliased());
    assert_eq!(higher.plane_data(0), &[1, 2, 3, 0, 4, 5, 6, 0, 128, 128, 128, 128]);
    let mut buffer = Plane::empty(PixelType::U8);
    assert_eq!(VapoursynthDecoder::make_copy(native, PixelType::U8, 2, 3, 3, 2, Some(&mut buffer)), None);
    assert_eq!(buffer.data, vec![1, 2, 3, 4, 5, 6]);
    assert_eq!(VapoursynthDecoder::make_copy(native, PixelType::U8, 2, 3, 3, 2, None), Some(buffer));
}

const COLORSPACES: [Colorspace; 13] = [
    Colorspace::Cmono,
    Colorspace::C420,
    Colorspace::C420p10,
    Colorspace::C420p12,
    Colorspace::C420jpeg,
    Colorspace::C420paldv,
    Colorspace::C420mpeg2,
    Colorspace::C422,
    Colorspace::C422p10,
    Colorspace::C422p12,
    Colorspace::C444,
    Colorspace::C444p10,
    Colorspace::C444p12,
];

#[test]
fn colorspaces_and_what_they_stand_for() {
    let (colocated, unknown, vertical) =
        (ChromaSamplePosition::Colocated, ChromaSamplePosition::Unknown, ChromaSamplePosition::Vertical);
    let (cs400, cs420, cs422, cs444) =
        (ChromaSampling::Cs400, ChromaSampling::Cs420, ChromaSampling::Cs422, ChromaSampling::Cs444);
    let expected = [
        (8, 1, cs400, unknown),
        (8, 1, cs420, colocated),
        (10, 2, cs420, colocated),
        (12, 2, cs420, colocated),
        (8, 1, cs420, unknown),
        (8, 1, cs420, unknown),
        (8, 1, cs420, vertical),
        (8, 1, cs422, colocated),
        (10, 2, cs422, colocated),
        (12, 2, cs422, colocated),
        (8, 1, cs444, colocated),
        (10, 2, cs444, colocated),
        (12, 2, cs444, colocated),
    ];
    for (colorspace, (depth, bytes, sampling, position)) in COLORSPACES.iter().zip(expected) {
        assert_eq!(colorspace.get_bit_depth(), depth);
        assert_eq!(colorspace.get_bytes_per_sample(), bytes);
        assert_eq!(map_y4m_color_space(*colorspace), (sampling, position));
    }
}

#[test]
fn video_details_of_a_stream_header() {
    let details = get_video_details(352, 288, Colorspace::C420p10, Ratio { num: 30000, den: 1001 });
    assert_eq!(
        details,
        VideoDetails {
            width: 352,
            height: 288,
            bit_depth: 10,
            chroma_sampling: ChromaSampling::Cs420,
            chroma_sample_position: ChromaSamplePosition::Colocated,
            time_base: Rational { num: 1001, den: 30000 },
            luma_padding: 0,
        }
    );
}

#[test]
fn frame_that_was_read() {
    let details = get_video_details(4, 2, Colorspace::C420p10, Ratio { num: 25, den: 1 });
    let frame = read_video_frame(Ok::<Vec<u8>, String>(vec![7; 16]), &details).unwrap();
    assert_eq!(frame, Y4mFrame { stride: 8, height: 2, data: vec![7; 16] });
    let details = get_video_details(4, 2, Colorspace::C420, Ratio { num: 25, den: 1 });
    let frame = read_video_frame(Ok::<Vec<u8>, String>(vec![7; 8]), &details).unwrap();
    assert_eq!(frame, Y4mFrame { stride: 4, height: 2, data: vec![7; 8] });
    let failed = read_video_frame(Err("end of file".to_string()), &details);
    assert_eq!(failed, Err("end of file".to_string()));
}

/// Progress that nobody listens to.
fn silent() -> NoProgress {
    NoProgress::new()
}

fn flat_frame(width: usize, height: usize, luma: u8) -> Y4mFrame {
    Y4mFrame { stride: width, height, data: vec![luma; width * height] }
}

fn stream(width: usize, height: usize, lumas: &[u8]) -> Y4mDecoder {
    let details = get_video_details(width, height, Colorspace::C420, Ratio { num: 30, den: 1 });
    Y4mDecoder::new(details, lumas.iter().map(|&luma| flat_frame(width, height, luma)).collect())
}

#[test]
fn memory_decoder_yields_its_frames_in_order() {
    let mut decoder = stream(4, 2, &[1, 2, 3]);
    assert_eq!(decoder.get_bit_depth(), 8);
    assert_eq!(decoder.get_bit_depth(), decoder.get_video_details().bit_depth);
    assert!(decoder.stride_matches(PixelType::U8, 4, 2));
    assert!(!decoder.stride_matches(PixelType::U8, 64, 64));
    assert_eq!(decoder.receive_frame_init(4, 2), Some(flat_frame(4, 2, 1)));
    let mut handle = flat_frame(1, 1, 0);
    assert!(decoder.receive_frame(&mut handle));
    assert_eq!(handle, flat_frame(4, 2, 2));
    assert!(decoder.receive_frame(&mut handle));
    assert_eq!(handle, flat_frame(4, 2, 3));
    assert!(!decoder.receive_frame(&mut handle));
    assert_eq!(handle, flat_frame(4, 2, 3));
    assert_eq!(decoder.receive_frame_init(4, 2), None);
    assert!(!decoder.stride_matches(PixelType::U8, 4, 2));
    assert_eq!(decoder.get_bit_depth(), decoder.get_video_details().bit_depth);
}

#[test]
fn memory_decoder_views_and_copies() {
    let frame = Y4mFrame { stride: 4, height: 2, data: vec![1, 2, 3, 0, 4, 5, 6, 0] };
    let view = Y4mDecoder::get_frame_ref(&frame, PixelType::U8, 2, 3, 3, 2, true, None);
    assert!(!view.is_aliased());
    assert_eq!(view.plane_data(0), &[1, 2, 3, 4, 5, 6]);
    let view = Y4mDecoder::get_frame_ref(&frame, PixelType::U8, 2, 4, 4, 2, true, None);
    assert!(view.is_aliased());
    let copy = Y4mDecoder::make_copy(&frame, PixelType::U8, 2, 3, 3, 2, None).unwrap();
    assert_eq!(copy.data, vec![1, 2, 3, 4, 5, 6]);
}

/// An engine that records the first sample of every frame it is shown and
/// never reports a cut.
struct Watcher {
    seen: Vec<Vec<u8>>,
}

impl AnalysisEngine for Watcher {
    type Setup = ();

    fn analyze_next_frame(&mut self, frame_set: &[FrameView<'_>], _frameno: u64, _previous_keyframe: u64) -> bool {
        self.seen.push(frame_set.iter().map(|view| view.plane_data(0)[0]).collect());
        false
    }
}

#[test]
fn memory_decoder_drives_a_pass() {
    let mut decoder = stream(16, 16, &[1, 2, 3, 4, 5]);
    let mut engine = Watcher { seen: Vec::new() };
    let opts = DetectionOptions { lookahead_distance: 1, ..DetectionOptions::default() };
    let mut progress = NoProgress::new();
    let results = detect_with_engine(&mut decoder, &mut engine, opts, PixelType::U8, &mut progress);
    assert_eq!(results.frame_count, 5);
    assert_eq!(results.scene_changes, vec![0]);
    assert_eq!(engine.seen, vec![vec![1, 2, 3], vec![2, 3, 4], vec![3, 4, 5], vec![4, 5]]);
}

#[test]
fn memory_decoder_and_the_real_detector() {
    let mut decoder = stream(64, 48, &[20, 20, 20, 20, 20, 20, 230, 230, 230, 230, 230, 230]);
    let opts = DetectionOptions {
        analysis_speed: SceneDetectionSpeed::Fast,
        detect_flashes: true,
        min_scenecut_distance: None,
        max_scenecut_distance: None,
        lookahead_distance: 3,
    };
    let results = detect_scene_changes(&mut decoder, opts, PixelType::U8, None, &mut silent());
    assert_eq!(results.frame_count, 12);
    assert_eq!(results.scene_changes, vec![0, 6]);
}
