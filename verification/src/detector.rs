//! The scene change detector of the rav1e encoder as the analysis engine.

use std::sync::Arc;
use rav1e::config::{CpuFeatureLevel, EncoderConfig};
use rav1e::data::Rational as EngineRational;
use rav1e::prelude::ChromaSamplePosition::{Colocated as EColocated, Unknown as EUnknown, Vertical as EVertical};
use rav1e::prelude::ChromaSampling::{Cs400 as E400, Cs420 as E420, Cs422 as E422, Cs444 as E444};
use rav1e::prelude::Sequence;
use rav1e::scenechange::SceneChangeDetector;
use rav1e::Frame;
use vstd::prelude::*;
use crate::analysis::{window_data, AnalysisCall, AnalysisEngine};
use crate::decode::{
    ChromaSamplePosition, ChromaSampling, FrameData, FrameView, PixelType, Rational, VideoDetails,
};
use crate::{DetectionOptions, SceneDetectionSpeed};

verus! {

/// Padding that the encoder puts round the luma plane of every frame: one
/// superblock and the margin of the motion search.
pub const LUMA_PADDING: usize = 88;

/// The longest side of a frame that the encoder has a number for.
pub const MAX_SIDE: usize = 65535;

/// Superblocks across the widest tile of the encoder.
pub const TILE_WIDTH: usize = 64;

/// Superblocks in the largest tile of the encoder.
pub const TILE_AREA: usize = 2304;

/// The most tiles that the encoder stacks in one frame.
pub const TILES_STACKED: usize = 64;

/// Luma samples a second that one tile may have. The encoder's own limit is
/// 588,251,136, and it holds a stream to it in floating point; this limit
/// lies a little under it, so that rounding cannot matter.
pub const TILE_SAMPLE_RATE: u64 = 588_000_000;

/// Bytes that the detector keeps of every frame it has compared.
pub const SCORE_BYTES: usize = 40;

/// Scores that the detector keeps besides those of the lookahead.
pub const SCORES_KEPT: usize = 5;

/// What the detector is set up with.
#[derive(Clone, Copy, Debug, PartialEq, Eq, Structural)]
pub struct DetectorSettings {
    /// The analysis that is run.
    pub analysis_speed: SceneDetectionSpeed,
    /// The speed preset of the encoder that selects this analysis.
    pub speed_preset: u8,
    /// Fewer frames than this after a keyframe, no cut is reported.
    pub min_key_frame_interval: u64,
    /// This many frames after a keyframe, a cut is reported at the latest.
    pub max_key_frame_interval: u64,
    /// Width of the frames in pixels.
    pub width: usize,
    /// Height of the frames in pixels.
    pub height: usize,
    /// Bits per sample.
    pub bit_depth: usize,
    /// The duration of one frame, in seconds.
    pub time_base: Rational,
    /// Chroma subsampling of the stream.
    pub chroma_sampling: ChromaSampling,
    /// Where the detector takes the chroma samples to sit.
    pub chroma_sample_position: ChromaSamplePosition,
    /// Distortion is measured in the transform domain, so that no cost of a
    /// frame is kept from one question to the next.
    pub tx_domain_distortion: bool,
    /// Frames of lookahead that the detector may use.
    pub lookahead_distance: usize,
}

/// `length` rounded up to a multiple of eight, the size the encoder gives its
/// planes.
pub open spec fn padded_to_eight(length: usize) -> int {
    (length + 7) / 8 * 8
}

/// Superblocks of 64 samples that cover `length` samples as the encoder pads
/// them.
pub open spec fn superblocks(length: usize) -> int {
    (padded_to_eight(length) + 63) / 64
}

/// `reach` doubled as often as it takes to be no less than `target`.
pub open spec fn doubled(reach: nat, target: nat) -> nat
    decreases
            (if reach < target {
                target - reach
            } else {
                0
            }),
{
    if reach == 0 || reach >= target {
        reach
    } else {
        doubled(2 * reach, target)
    }
}

/// `reach` doubled as often as it takes to be no less than `target`.
fn doubled_to(reach: usize, target: usize) -> (power: usize)
    requires
        reach >= 1,
        target <= usize::MAX / 2,
    ensures
        power == doubled(reach as nat, target as nat),
        power >= reach,
        power == reach || power < 2 * target,
{
    let mut power: usize = reach;
    while power < target
        invariant
            power >= reach,
            reach >= 1,
            target <= usize::MAX / 2,
            power == reach || power < 2 * target,
            doubled(power as nat, target as nat) == doubled(reach as nat, target as nat),
        decreases
                (if power < target {
                    target - power
                } else {
                    0
                }),
    {
        power = 2 * power;
    }
    power
}

/// Tiles that the encoder lays side by side in a frame `width` samples wide,
/// where it is left to choose: as few as keep every tile within the widest,
/// an even number of superblocks to a tile where the chroma planes are
/// halved across only, and the count rounded up to a power of two.
pub open spec fn tile_columns(width: usize, chroma: ChromaSampling) -> nat {
    let across = superblocks(width);
    let split = doubled(TILE_WIDTH as nat, across as nat) / (TILE_WIDTH as nat);
    let share = (across + split - 1) / (split as int);
    let tile = if chroma == ChromaSampling::Cs422 {
        (share + 1) / 2 * 2
    } else {
        share
    };
    doubled(1, ((across + tile - 1) / tile) as nat)
}

/// The most tiles that the encoder can stack in a frame `height` samples
/// high: one for each row of superblocks up to the most it stacks, rounded
/// up to a power of two.
pub open spec fn tile_rows(height: usize) -> nat {
    let down = superblocks(height);
    doubled(
        1,
        (if down <= TILES_STACKED {
            down
        } else {
            TILES_STACKED as int
        }) as nat,
    )
}

/// The largest value that the high byte of a two-byte sample of `bit_depth`
/// bits can have, plus one.
pub open spec fn high_byte_limit(bit_depth: usize) -> int {
    if bit_depth >= 12 {
        16
    } else if bit_depth >= 10 {
        4
    } else {
        1
    }
}

/// No two-byte sample in `data` has a bit set above `bit_depth`.
pub open spec fn samples_within(data: Seq<u8>, bit_depth: usize) -> bool {
    forall|k: int| 0 <= k < data.len() && k % 2 == 1 ==> data[k] < high_byte_limit(bit_depth)
}

/// The bits that the high byte of a two-byte sample of `bit_depth` bits can
/// have.
pub open spec fn high_byte_bits(bit_depth: usize) -> u8 {
    if bit_depth >= 12 {
        15
    } else if bit_depth >= 10 {
        3
    } else {
        0
    }
}

/// The bytes of two-byte samples with every bit above `bit_depth` cleared.
pub open spec fn cut_to_depth(data: Seq<u8>, bit_depth: usize) -> Seq<u8> {
    Seq::new(
        data.len(),
        |k: int|
            if k % 2 == 1 {
                data[k] & high_byte_bits(bit_depth)
            } else {
                data[k]
            },
    )
}

/// Samples cut to the bit depth lie within it, and samples that lie within
/// it are left as they are.
pub proof fn lemma_cut_to_depth(data: Seq<u8>, bit_depth: usize)
    ensures
        samples_within(cut_to_depth(data, bit_depth), bit_depth),
        samples_within(data, bit_depth) ==> cut_to_depth(data, bit_depth) == data,
{
    assert forall|k: int| 0 <= k < data.len() && k % 2 == 1 implies cut_to_depth(data, bit_depth)[k]
        < high_byte_limit(bit_depth) by {
        let byte = data[k];
        assert(byte & 15 < 16 && byte & 3 < 4 && byte & 0 < 1) by (bit_vector);
    }
    if samples_within(data, bit_depth) {
        assert forall|k: int| 0 <= k < data.len() implies cut_to_depth(data, bit_depth)[k] == data[k] by {
            let byte = data[k];
            assert(byte < 16 ==> byte & 15 == byte) by (bit_vector);
            assert(byte < 4 ==> byte & 3 == byte) by (bit_vector);
            assert(byte < 1 ==> byte & 0 == byte) by (bit_vector);
        }
        assert(cut_to_depth(data, bit_depth) =~= data);
    }
}

/// The bytes of two-byte samples with every bit above `bit_depth` cleared.
pub fn cut_samples(data: &[u8], bit_depth: usize) -> (cut: Vec<u8>)
    ensures
        cut@ == cut_to_depth(data@, bit_depth),
{
    let bits: u8 = if bit_depth >= 12 {
        15
    } else if bit_depth >= 10 {
        3
    } else {
        0
    };
    let mut cut: Vec<u8> = Vec::new();
    let mut k: usize = 0;
    while k < data.len()
        invariant
            k <= data.len(),
            bits == high_byte_bits(bit_depth),
            cut@.len() == k,
            forall|j: int| 0 <= j < k ==> cut@[j] == cut_to_depth(data@, bit_depth)[j],
        decreases data.len() - k,
    {
        let byte: u8 = if k % 2 == 1 {
            data[k] & bits
        } else {
            data[k]
        };
        cut.push(byte);
        k = k + 1;
    }
    assert(cut@ =~= cut_to_depth(data@, bit_depth));
    cut
}

impl DetectorSettings {
    /// The settings for a stream and a set of options: the preset 10 for the
    /// fast analysis and 8 for the standard one; no least distance between
    /// cuts where none is given, and the largest 32-bit number as the
    /// greatest; the chroma samples taken as co-located, whatever the stream
    /// says; distortion measured in the transform domain; the lookahead of
    /// the options where flashes are to be detected, and one frame where they
    /// are not.
    pub open spec fn spec_for_stream(details: VideoDetails, opts: DetectionOptions) -> Self {
        DetectorSettings {
            analysis_speed: opts.analysis_speed,
            speed_preset: if opts.analysis_speed == SceneDetectionSpeed::Fast {
                10
            } else {
                8
            },
            min_key_frame_interval: match opts.min_scenecut_distance {
                Some(distance) => distance as u64,
                None => 0,
            },
            max_key_frame_interval: match opts.max_scenecut_distance {
                Some(distance) => distance as u64,
                None => u32::MAX as u64,
            },
            width: details.width,
            height: details.height,
            bit_depth: details.bit_depth,
            time_base: details.time_base,
            chroma_sampling: details.chroma_sampling,
            chroma_sample_position: ChromaSamplePosition::Colocated,
            tx_domain_distortion: true,
            lookahead_distance: if opts.detect_flashes {
                opts.lookahead_distance
            } else {
                1
            },
        }
    }

    /// The settings for a stream and a set of options.
    #[verifier::when_used_as_spec(spec_for_stream)]
    pub fn for_stream(details: VideoDetails, opts: DetectionOptions) -> (settings: Self)
        ensures
            settings == Self::spec_for_stream(details, opts),
    {
        DetectorSettings {
            analysis_speed: opts.analysis_speed,
            speed_preset: if opts.analysis_speed == SceneDetectionSpeed::Fast {
                10
            } else {
                8
            },
            min_key_frame_interval: match opts.min_scenecut_distance {
                Some(distance) => distance as u64,
                None => 0,
            },
            max_key_frame_interval: match opts.max_scenecut_distance {
                Some(distance) => distance as u64,
                None => u32::MAX as u64,
            },
            width: details.width,
            height: details.height,
            bit_depth: details.bit_depth,
            time_base: details.time_base,
            chroma_sampling: details.chroma_sampling,
            chroma_sample_position: ChromaSamplePosition::Colocated,
            tx_domain_distortion: true,
            lookahead_distance: if opts.detect_flashes {
                opts.lookahead_distance
            } else {
                1
            },
        }
    }

    /// The most tiles that the encoder can cut the frames into.
    pub open spec fn most_tiles(&self) -> nat {
        tile_columns(self.width, self.chroma_sampling) * tile_rows(self.height)
    }

    /// The encoder can cut the frames into tiles: the columns it chooses are
    /// as many as the widest tile asks for, and with all the rows it can
    /// stack the tiles are as many as the largest tile asks for, and as many
    /// as the luma samples of a second ask for.
    pub open spec fn spec_tiles_suffice(&self) -> bool {
        &&& doubled(TILE_WIDTH as nat, superblocks(self.width) as nat) <= TILE_WIDTH * tile_columns(
            self.width,
            self.chroma_sampling,
        )
        &&& doubled(TILE_AREA as nat, (superblocks(self.width) * superblocks(self.height)) as nat) <= TILE_AREA
            * self.most_tiles()
        &&& padded_to_eight(self.width) * padded_to_eight(self.height) * self.time_base.den <= TILE_SAMPLE_RATE
            * self.most_tiles() * self.time_base.num
    }

    /// Whether the encoder can cut the frames into tiles.
    fn tiles_suffice(&self) -> (suffice: bool)
        requires
            16 <= self.width <= MAX_SIDE,
            16 <= self.height <= MAX_SIDE,
        ensures
            suffice == self.spec_tiles_suffice(),
    {
        let wide: usize = (self.width + 7) / 8 * 8;
        let high: usize = (self.height + 7) / 8 * 8;
        let across: usize = (wide + 63) / 64;
        let down: usize = (high + 63) / 64;
        let widest: usize = doubled_to(TILE_WIDTH, across);
        let split: usize = widest / TILE_WIDTH;
        let share: usize = (across + split - 1) / split;
        let tile: usize = if self.chroma_sampling == ChromaSampling::Cs422 {
            (share + 1) / 2 * 2
        } else {
            share
        };
        assert(share >= 1 && share <= across + split) by (nonlinear_arith)
            requires
                share == (across + split - 1) / (split as int),
                across >= 1,
                split >= 1,
        ;
        let columns: usize = doubled_to(1, (across + tile - 1) / tile);
        assert((across + tile - 1) / (tile as int) <= across + tile) by (nonlinear_arith)
            requires
                across >= 1,
                tile >= 1,
        ;
        let rows: usize = doubled_to(
            1,
            if down <= TILES_STACKED {
                down
            } else {
                TILES_STACKED
            },
        );
        assert(across * down <= 1024 * 1024) by (nonlinear_arith)
            requires
                0 <= across <= 1024,
                0 <= down <= 1024,
        ;
        let largest: usize = doubled_to(TILE_AREA, across * down);
        assert(columns * rows <= 16384 * 128) by (nonlinear_arith)
            requires
                0 <= columns <= 16384,
                0 <= rows <= 128,
        ;
        let tiles: usize = columns * rows;
        assert((TILE_AREA as u128) * (tiles as u128) <= 2304 * 16384 * 128) by (nonlinear_arith)
            requires
                TILE_AREA == 2304,
                0 <= tiles <= 16384 * 128,
        ;
        if widest > TILE_WIDTH * columns || (largest as u128) > (TILE_AREA as u128) * (tiles as u128) {
            return false;
        }
        assert(wide * high <= 65536 * 65536) by (nonlinear_arith)
            requires
                0 <= wide <= 65536,
                0 <= high <= 65536,
        ;
        let samples: u128 = (wide as u128) * (high as u128);
        assert(samples * (self.time_base.den as u128) <= 65536 * 65536 * 0xffff_ffff_ffff_ffff) by (nonlinear_arith)
            requires
                0 <= samples <= 65536 * 65536,
                0 <= self.time_base.den <= 0xffff_ffff_ffff_ffff,
        ;
        assert((TILE_SAMPLE_RATE as u128) * (tiles as u128) <= 588_000_000 * 16384 * 128) by (nonlinear_arith)
            requires
                TILE_SAMPLE_RATE == 588_000_000,
                0 <= tiles <= 16384 * 128,
        ;
        let rate: u128 = (TILE_SAMPLE_RATE as u128) * (tiles as u128);
        assert(rate * (self.time_base.num as u128) <= 588_000_000 * 16384 * 128 * 0xffff_ffff_ffff_ffff)
            by (nonlinear_arith)
            requires
                0 <= rate <= 588_000_000 * 16384 * 128,
                0 <= self.time_base.num <= 0xffff_ffff_ffff_ffff,
        ;
        samples * (self.time_base.den as u128) <= rate * (self.time_base.num as u128)
    }

    /// The detector can be made with these settings: the speed preset is
    /// that of the analysis, the frames are at least 16 pixels each way and
    /// no side is longer than the encoder has a number for, the bit depth is
    /// 8, 10 or 12, a frame lasts longer than no time at all, the luma
    /// samples of a frame can be counted, the encoder can cut the frames
    /// into tiles, and the scores of the lookahead and of the frames before
    /// it take no more bytes than one allocation can have.
    pub open spec fn spec_supported(&self) -> bool {
        &&& self.speed_preset == (if self.analysis_speed == SceneDetectionSpeed::Fast {
            10u8
        } else {
            8u8
        })
        &&& 16 <= self.width <= MAX_SIDE
        &&& 16 <= self.height <= MAX_SIDE
        &&& self.bit_depth == 8 || self.bit_depth == 10 || self.bit_depth == 12
        &&& self.time_base.num >= 1
        &&& padded_to_eight(self.width) * padded_to_eight(self.height) <= usize::MAX
        &&& self.spec_tiles_suffice()
        &&& (self.lookahead_distance + SCORES_KEPT) * SCORE_BYTES <= isize::MAX
    }

    /// Whether the detector can be made with these settings.
    #[verifier::when_used_as_spec(spec_supported)]
    pub fn supported(&self) -> (supported: bool)
        ensures
            supported == self.spec_supported(),
    {
        let preset: u8 = match self.analysis_speed {
            SceneDetectionSpeed::Fast => 10,
            SceneDetectionSpeed::Standard => 8,
        };
        if self.speed_preset != preset {
            return false;
        }
        if self.width < 16 || self.width > MAX_SIDE || self.height < 16 || self.height > MAX_SIDE {
            return false;
        }
        if !(self.bit_depth == 8 || self.bit_depth == 10 || self.bit_depth == 12) {
            return false;
        }
        if self.time_base.num < 1 || self.lookahead_distance > isize::MAX as usize / SCORE_BYTES - SCORES_KEPT {
            return false;
        }
        let wide: usize = (self.width + 7) / 8 * 8;
        let high: usize = (self.height + 7) / 8 * 8;
        match wide.checked_mul(high) {
            Some(_) => self.tiles_suffice(),
            None => false,
        }
    }

    /// Frames that the detector holds back at the end of a stream: with a
    /// lookahead of five frames or more it reports no cut while the window
    /// holds five frames or fewer.
    pub open spec fn held_back(self) -> nat {
        if self.lookahead_distance >= 5 {
            5
        } else {
            0
        }
    }

    /// What the detector keeps to whatever the frames show. It reports no
    /// cut closer to the last keyframe than the least distance, nor while it
    /// holds frames back. Beyond that, it reports a cut once the last
    /// keyframe lies the greatest distance back.
    pub open spec fn keeps_distances(self, frames: nat, frameno: u64, previous_keyframe: u64, cut: bool) -> bool {
        let distance = frameno - previous_keyframe;
        let judged = frames > self.held_back() && distance >= self.min_key_frame_interval;
        &&& cut ==> judged
        &&& judged && distance >= self.max_key_frame_interval ==> cut
    }

    /// The answer of a call keeps to the distances.
    pub open spec fn honoured(self, call: AnalysisCall) -> bool {
        self.keeps_distances(call.window.len(), call.frameno, call.previous_keyframe, call.cut)
    }

    /// The detector can take the frame as it is: in the standard analysis, no
    /// two-byte sample has a bit set above the bit depth.
    pub open spec fn takes(self, frame: FrameData) -> bool {
        self.analysis_speed == SceneDetectionSpeed::Standard && frame.pixel == PixelType::U16 ==> samples_within(
            frame.data,
            self.bit_depth,
        )
    }

    /// The bytes of a frame that the detector is shown: those of the frame,
    /// but for the standard analysis of two-byte samples, which is shown no
    /// bit above the bit depth.
    pub open spec fn sees(self, frame: FrameData) -> Seq<u8> {
        if self.analysis_speed == SceneDetectionSpeed::Standard && frame.pixel == PixelType::U16 {
            cut_to_depth(frame.data, self.bit_depth)
        } else {
            frame.data
        }
    }
}

/// The luma plane of one frame as the detector is given it, as a
/// mathematical value.
pub struct EnginePlane {
    /// The bytes of the plane, row after row.
    pub data: Seq<u8>,
    /// Bytes from the start of one row to the start of the next.
    pub stride: nat,
    /// Bytes of one sample.
    pub bytes_per_sample: nat,
}

/// One question put to the detector of the encoder, and its answer.
pub struct EngineQuestion {
    /// The luma planes that it was given, the oldest frame first.
    pub planes: Seq<EnginePlane>,
    /// The number of the frame in question.
    pub frameno: u64,
    /// The most recent keyframe at the time of the question.
    pub previous_keyframe: u64,
    /// What the detector answered.
    pub answer: bool,
}

/// The luma plane that the detector is given for a frame: the bytes it is
/// shown, in rows as long as the frame has them. A frame whose rows hold no
/// byte, or more bytes than a machine integer counts, has no whole row, and
/// the detector is given none of it.
pub open spec fn plane_shown(settings: DetectorSettings, frame: FrameData) -> EnginePlane {
    let row = frame.cfg.stride * frame.pixel.spec_bytes();
    if 1 <= row <= usize::MAX {
        EnginePlane {
            data: settings.sees(frame),
            stride: row as nat,
            bytes_per_sample: frame.pixel.spec_bytes() as nat,
        }
    } else {
        EnginePlane { data: Seq::empty(), stride: 1, bytes_per_sample: frame.pixel.spec_bytes() as nat }
    }
}

/// The luma planes that the detector is given for a window of frames.
pub open spec fn planes_shown(settings: DetectorSettings, window: Seq<FrameData>) -> Seq<EnginePlane> {
    Seq::new(window.len(), |i: int| plane_shown(settings, window[i]))
}

/// The calls are what a detector made with `settings` was put, one after the
/// other from the first, and what it answered.
pub open spec fn put_to_detector(settings: DetectorSettings, calls: Seq<AnalysisCall>) -> bool {
    exists|engine: EngineHandle| #[trigger]
        made_with(engine) == settings && engine_asked(engine) == calls.map_values(
            |call: AnalysisCall| question_of(settings, call),
        )
}

/// The question that the detector is put by a call, and the answer that the
/// call records: the planes shown of the window, the same numbers, the same
/// answer.
pub open spec fn question_of(settings: DetectorSettings, call: AnalysisCall) -> EngineQuestion {
    EngineQuestion {
        planes: planes_shown(settings, call.window),
        frameno: call.frameno,
        previous_keyframe: call.previous_keyframe,
        answer: call.cut,
    }
}

/// The luma plane of one frame as the detector is given it.
#[derive(Clone, Copy, Debug)]
struct EngineInput<'a> {
    /// The bytes of the plane, row after row.
    data: &'a [u8],
    /// Bytes from the start of one row to the start of the next, at least one.
    stride: usize,
    /// Bytes of one sample, one or two.
    bytes_per_sample: usize,
}

/// The detector of the encoder, `rav1e::scenechange::SceneChangeDetector`. It
/// is kept behind this handle because its type is bound by a trait of the
/// encoder. It holds every sample in two bytes, whatever the storage unit of
/// the frames it is given.
#[verifier::external_body]
pub struct EngineHandle {
    detector: SceneChangeDetector<u16>,
}

/// The settings that a detector was made with. They stay with it as long as
/// it lives.
pub uninterp spec fn made_with(engine: EngineHandle) -> DetectorSettings;

/// The questions that a detector has been put since it was made, with the
/// answers it gave, in the order asked.
pub uninterp spec fn engine_asked(engine: EngineHandle) -> Seq<EngineQuestion>;

/// A plane as a mathematical value.
spec fn plane_given(input: EngineInput<'_>) -> EnginePlane {
    EnginePlane {
        data: input.data@,
        stride: input.stride as nat,
        bytes_per_sample: input.bytes_per_sample as nat,
    }
}

/// Planes as mathematical values.
spec fn planes_given(planes: Seq<EngineInput<'_>>) -> Seq<EnginePlane> {
    Seq::new(planes.len(), |i: int| plane_given(planes[i]))
}

/// Makes the detector: `rav1e::scenechange::SceneChangeDetector::new`, on an
/// encoder configuration of the given speed preset with the settings entered,
/// the chroma subsampling and the chroma sample position under the encoder's
/// names for them. Of the detector it is claimed that it is made, made with
/// these settings, and has not been asked anything yet: on supported
/// settings neither the configuration, nor the sequence header with its
/// tiles, nor the detector's constructor fails.
#[verifier::external_body]
fn make_engine(settings: &DetectorSettings) -> (engine: EngineHandle)
    requires
        settings.spec_supported(),
    ensures
        made_with(engine) == *settings,
        engine_asked(engine) == Seq::<EngineQuestion>::empty(),
{
    let mut config = EncoderConfig::with_speed_preset(settings.speed_preset);
    config.min_key_frame_interval = settings.min_key_frame_interval;
    config.max_key_frame_interval = settings.max_key_frame_interval;
    config.width = settings.width;
    config.height = settings.height;
    config.bit_depth = settings.bit_depth;
    config.time_base = EngineRational::new(settings.time_base.num, settings.time_base.den);
    config.chroma_sampling = [E420, E422, E444, E400][settings.chroma_sampling as usize];
    config.chroma_sample_position = [EUnknown, EVertical, EColocated][settings.chroma_sample_position as usize];
    config.speed_settings.transform.tx_domain_distortion = settings.tx_domain_distortion;
    let sequence = Arc::new(Sequence::new(&config));
    let level = CpuFeatureLevel::default();
    EngineHandle { detector: SceneChangeDetector::new(config, level, settings.lookahead_distance, sequence) }
}

/// Asks the detector: `SceneChangeDetector::analyze_next_frame`, on frames of
/// the encoder's own making (`Frame::new_with_padding`, with the measures of
/// `settings` and the chroma subsampling and padding given) whose luma planes
/// are filled from `planes` (`Plane::copy_from_raw_u8`). `settings` must be
/// those the detector was made with, and the detector keeps them. The call
/// needs at least the frame in question and the one before it, a keyframe
/// that is not ahead of the frame, frame numbers that stay machine integers
/// over the window, rows of at least one byte, samples of one or two bytes,
/// and, in the standard analysis, two-byte samples without a bit above the
/// bit depth. On such a call the detector does not panic.
///
/// The call is one more question put to the detector: these planes, these
/// numbers, and the answer that is returned. Of the answer this is claimed,
/// and no more: the detector returns `false` at once where the window is no
/// longer than the five frames it holds back with a lookahead of five or
/// more; and where it goes on, its own judgement gives way to the least and
/// the greatest distance between keyframes, in this order: `false` closer to
/// the last keyframe than the least distance, else `true` at the greatest
/// distance or beyond.
#[verifier::external_body]
fn ask_engine(
    engine: &mut EngineHandle,
    settings: &DetectorSettings,
    planes: &Vec<EngineInput<'_>>,
    chroma: ChromaSampling,
    luma_padding: usize,
    input_frameno: u64,
    previous_keyframe: u64,
) -> (cut: bool)
    requires
        made_with(*old(engine)) == *settings,
        settings.spec_supported(),
        chroma == ChromaSampling::Cs400,
        luma_padding == LUMA_PADDING,
        planes.len() >= 2,
        previous_keyframe <= input_frameno,
        input_frameno + planes.len() <= u64::MAX,
        forall|i: int| 0 <= i < planes.len() ==> input_taken(*settings, #[trigger] planes[i]),
    ensures
        made_with(*final(engine)) == made_with(*old(engine)),
        engine_asked(*final(engine)) == engine_asked(*old(engine)).push(
            (EngineQuestion {
                planes: planes_given(planes@),
                frameno: input_frameno,
                previous_keyframe,
                answer: cut,
            }),
        ),
        settings.keeps_distances(planes.len() as nat, input_frameno, previous_keyframe, cut),
    no_unwind
{
    let frames: Vec<Arc<Frame<u16>>> = planes.iter().map(
        |plane| {
            let sampling = [E420, E422, E444, E400][chroma as usize];
            let mut frame = Frame::new_with_padding(settings.width, settings.height, sampling, luma_padding);
            frame.planes[0].copy_from_raw_u8(plane.data, plane.stride, plane.bytes_per_sample);
            Arc::new(frame)
        },
    ).collect();
    let frame_set: Vec<&Arc<Frame<u16>>> = frames.iter().collect();
    engine.detector.analyze_next_frame(&frame_set, input_frameno, previous_keyframe)
}

/// The detector can be given the plane: its rows are at least one byte, its
/// samples one or two bytes, and in the standard analysis no two-byte sample
/// has a bit set above the bit depth.
spec fn input_taken(settings: DetectorSettings, plane: EngineInput<'_>) -> bool {
    &&& plane.stride >= 1
    &&& plane.bytes_per_sample == 1 || plane.bytes_per_sample == 2
    &&& settings.analysis_speed == SceneDetectionSpeed::Standard && plane.bytes_per_sample == 2 ==> samples_within(
        plane.data@,
        settings.bit_depth,
    )
}

/// The luma plane of a view as the detector is given it: the bytes of `cut`
/// where the samples had to be cut to the bit depth, else those of the view.
fn engine_input<'a>(view: &'a FrameView<'_>, cut: &'a Option<Vec<u8>>, Ghost(settings): Ghost<DetectorSettings>) -> (input:
    EngineInput<'a>)
    requires
        match cut {
            Some(bytes) => bytes@ == settings.sees(view@),
            None => settings.takes(view@),
        },
    ensures
        input_taken(settings, input),
        plane_given(input) == plane_shown(settings, view@),
{
    proof {
        lemma_cut_to_depth(view@.data, settings.bit_depth);
    }
    let bytes_per_sample = view.pixel().bytes();
    let data = match cut {
        Some(bytes) => bytes.as_slice(),
        None => view.plane_data(0),
    };
    let input = match view.plane_config(0).stride.checked_mul(bytes_per_sample) {
        Some(stride) => if stride >= 1 {
            EngineInput { data, stride, bytes_per_sample }
        } else {
            EngineInput { data: vstd::slice::slice_subrange(data, 0, 0), stride: 1, bytes_per_sample }
        },
        None => EngineInput { data: vstd::slice::slice_subrange(data, 0, 0), stride: 1, bytes_per_sample },
    };
    assert(input.data@ =~= plane_shown(settings, view@).data);
    input
}

/// The scene change detector of the rav1e encoder.
///
/// Every frame of a window is copied into a frame of the encoder's own
/// making before the detector sees it, so a view need not outlive the call
/// it is handed to. The standard analysis adds samples up in sixteen bits,
/// so of two-byte samples it is shown the bits of the bit depth and no
/// others; a stream whose samples lie within the bit depth is shown as it
/// is.
pub struct Detector {
    engine: EngineHandle,
    settings: DetectorSettings,
    windows: Ghost<Seq<Seq<FrameData>>>,
}

impl Detector {
    /// The engine is the one that was made with the settings, they are
    /// supported, and of every question that the engine was put the window
    /// is on record whose planes it was shown.
    #[verifier::type_invariant]
    spec fn engine_of_settings(&self) -> bool {
        &&& made_with(self.engine) == self.settings
        &&& self.settings.spec_supported()
        &&& self.windows@.len() >= engine_asked(self.engine).len()
        &&& forall|j: int|
            0 <= j < engine_asked(self.engine).len() ==> (#[trigger] engine_asked(self.engine)[j]).planes
                == planes_shown(self.settings, self.windows@[j])
    }

    /// What the detector of the encoder has been put so far, and what it
    /// answered.
    pub closed spec fn put_to_engine(&self) -> Seq<EngineQuestion> {
        engine_asked(self.engine)
    }

    /// Every call on record is a question that the detector of the encoder
    /// was put, with the planes shown of its window, and the answer on
    /// record is the answer of the detector.
    pub open spec fn asked_is_put(&self) -> bool {
        self.put_to_engine() == self.asked().map_values(|call: AnalysisCall| question_of(self.settings(), call))
    }

    /// What the detector was set up with.
    pub closed spec fn settings(&self) -> DetectorSettings {
        self.settings
    }

    /// What the detector has been asked so far: the questions that the
    /// detector of the encoder was put, each with the window it was asked
    /// about, and the answers that the detector of the encoder gave.
    pub closed spec fn asked(&self) -> Seq<AnalysisCall> {
        Seq::new(
            engine_asked(self.engine).len(),
            |j: int|
                AnalysisCall {
                    window: self.windows@[j],
                    frameno: engine_asked(self.engine)[j].frameno,
                    previous_keyframe: engine_asked(self.engine)[j].previous_keyframe,
                    cut: engine_asked(self.engine)[j].answer,
                },
        )
    }

    /// A detector with the given settings that has not been asked anything
    /// yet.
    pub fn new(settings: DetectorSettings) -> (detector: Self)
        requires
            settings.spec_supported(),
        ensures
            detector.settings() == settings,
            detector.asked() == Seq::<AnalysisCall>::empty(),
            detector.put_to_engine() == Seq::<EngineQuestion>::empty(),
            detector.asked_is_put(),
    {
        let detector = Detector { engine: make_engine(&settings), settings, windows: Ghost(Seq::empty()) };
        assert(detector.asked() =~= Seq::<AnalysisCall>::empty());
        assert(detector.asked().map_values(|call: AnalysisCall| question_of(settings, call)) =~= Seq::<
            EngineQuestion,
        >::empty());
        detector
    }

    /// What the detector was set up with. At this time as at any other, its
    /// record of calls is the record of what the detector of the encoder was
    /// put.
    pub fn get_settings(&self) -> (settings: DetectorSettings)
        ensures
            settings == self.settings(),
            self.asked_is_put(),
            put_to_detector(self.settings(), self.asked()),
    {
        proof {
            use_type_invariant(self);
            assert(engine_asked(self.engine) =~= self.asked().map_values(
                |call: AnalysisCall| question_of(self.settings, call),
            ));
            assert(made_with(self.engine) == self.settings);
        }
        self.settings
    }

    /// Whether the detector can take the frame as it is.
    pub fn takes_view(&self, view: &FrameView<'_>) -> (taken: bool)
        ensures
            taken == self.settings().takes(view@),
    {
        proof {
            use_type_invariant(self);
        }
        let standard = self.settings.analysis_speed == SceneDetectionSpeed::Standard;
        if !standard || view.pixel() == PixelType::U8 {
            return true;
        }
        let limit: u8 = if self.settings.bit_depth >= 12 {
            16
        } else if self.settings.bit_depth >= 10 {
            4
        } else {
            1
        };
        let data = view.plane_data(0);
        let mut k: usize = 0;
        while k < data.len()
            invariant
                k <= data.len(),
                data@ == view@.data,
                view@.pixel == PixelType::U16,
                self.settings.analysis_speed == SceneDetectionSpeed::Standard,
                limit == high_byte_limit(self.settings.bit_depth),
                forall|j: int| 0 <= j < k && j % 2 == 1 ==> data@[j] < limit,
            decreases data.len() - k,
        {
            if k % 2 == 1 && data[k] >= limit {
                return false;
            }
            k = k + 1;
        }
        true
    }
}

impl AnalysisEngine for Detector {
    type Setup = DetectorSettings;

    open spec fn setup(&self) -> DetectorSettings {
        self.settings()
    }

    open spec fn calls(&self) -> Seq<AnalysisCall> {
        self.asked()
    }

    open spec fn promises(&self, call: AnalysisCall) -> bool {
        self.settings().honoured(call)
    }

    /// Puts the question to the detector of the encoder, with the planes
    /// shown of the frames, and returns its answer.
    fn analyze_next_frame(&mut self, frame_set: &[FrameView<'_>], input_frameno: u64, previous_keyframe: u64) -> (cut:
        bool)
        ensures
            final(self).put_to_engine() == old(self).put_to_engine().push(
                (EngineQuestion {
                    planes: planes_shown(old(self).settings(), window_data(frame_set@)),
                    frameno: input_frameno,
                    previous_keyframe,
                    answer: cut,
                }),
            ),
            final(self).asked_is_put(),
    {
        proof {
            use_type_invariant(&*self);
        }
        let mut cuts: Vec<Option<Vec<u8>>> = Vec::new();
        let mut i: usize = 0;
        while i < frame_set.len()
            invariant
                i <= frame_set.len(),
                cuts.len() == i,
                forall|j: int|
                    0 <= j < i ==> match #[trigger] cuts[j] {
                        Some(bytes) => bytes@ == self.settings.sees(frame_set@[j]@),
                        None => self.settings.takes(frame_set@[j]@),
                    },
            decreases frame_set.len() - i,
        {
            let view = &frame_set[i];
            if self.takes_view(view) {
                cuts.push(None);
            } else {
                cuts.push(Some(cut_samples(view.plane_data(0), self.settings.bit_depth)));
            }
            i = i + 1;
        }
        let mut planes: Vec<EngineInput<'_>> = Vec::new();
        let mut i: usize = 0;
        while i < frame_set.len()
            invariant
                i <= frame_set.len(),
                planes.len() == i,
                cuts.len() == frame_set.len(),
                forall|j: int|
                    0 <= j < cuts.len() ==> match #[trigger] cuts[j] {
                        Some(bytes) => bytes@ == self.settings.sees(frame_set@[j]@),
                        None => self.settings.takes(frame_set@[j]@),
                    },
                forall|j: int| 0 <= j < i ==> input_taken(self.settings, #[trigger] planes[j]),
                forall|j: int|
                    0 <= j < i ==> plane_given(#[trigger] planes[j]) == plane_shown(self.settings, frame_set@[j]@),
            decreases frame_set.len() - i,
        {
            planes.push(engine_input(&frame_set[i], &cuts[i], Ghost(self.settings)));
            i = i + 1;
        }
        assert(planes_given(planes@) =~= planes_shown(self.settings, window_data(frame_set@)));
        let ghost put = engine_asked(self.engine);
        let ghost before = self.asked();
        self.windows = Ghost(self.windows@.take(put.len() as int).push(window_data(frame_set@)));
        let cut = ask_engine(
            &mut self.engine,
            &self.settings,
            &planes,
            ChromaSampling::Cs400,
            LUMA_PADDING,
            input_frameno,
            previous_keyframe,
        );
        proof {
            let call = AnalysisCall { window: window_data(frame_set@), frameno: input_frameno, previous_keyframe, cut };
            assert(self.asked() =~= before.push(call));
            assert(engine_asked(self.engine) =~= self.asked().map_values(
                |call: AnalysisCall| question_of(self.settings, call),
            ));
        }
        cut
    }
}

} // verus!
