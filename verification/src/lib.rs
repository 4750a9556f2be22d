//! Scene-cut detection over a video stream that one of several decoder
//! backends supplies: the decoder contract, the hand-off of frames between a
//! backend's buffers and the analysis engine, and the lookahead window that
//! drives the engine.

pub mod analysis;
pub mod decode;
pub mod detector;
pub mod ffmpeg;
pub mod frame;
pub mod lookahead;
pub mod progress;
pub mod vapoursynth;
pub mod y4m;

use vstd::prelude::*;
use crate::analysis::{
    keyframes_of, lemma_keyframes_of_push, spaced, strictly_increasing, within, AnalysisCall, AnalysisEngine,
};
use crate::decode::{Decoder, PixelType, VideoDetails};
use crate::detector::{put_to_detector, Detector, DetectorSettings, EngineQuestion};
use crate::progress::Progress;
use crate::lookahead::{
    asked_at, detect_with_engine, is_pass, lemma_slot_shows_own_frame, pass_handoff, progress_of, shown,
    target_alloc_height, target_fits, target_stride, Handoff,
};
use vstd::arithmetic::power2::{lemma2_to64, pow2};
use vstd::bits::{lemma_usize_pow2_no_overflow, lemma_usize_shl_is_mul, lemma_usize_shr_is_div};

verus! {

/// How much work the analysis may spend on each frame.
#[derive(Clone, Copy, Debug, PartialOrd, PartialEq, Eq, Structural)]
pub enum SceneDetectionSpeed {
    /// Fastest scene detection using pixel-wise comparison
    Fast,
    /// Scene detection using motion vectors
    Standard,
}

/// Options determining how to run scene change detection.
#[derive(Debug, Clone, Copy)]
pub struct DetectionOptions {
    /// The speed of detection algorithm to use.
    /// Slower algorithms are more accurate/better for use in encoders.
    pub analysis_speed: SceneDetectionSpeed,
    /// Enabling this will utilize heuristics to avoid scenecuts
    /// that are too close to each other.
    /// This is generally useful if you want scenecut detection
    /// for use in an encoder.
    /// If you want a raw list of scene changes, you should disable this.
    pub detect_flashes: bool,
    /// The minimum distance between two scene changes.
    pub min_scenecut_distance: Option<usize>,
    /// The maximum distance between two scene changes.
    pub max_scenecut_distance: Option<usize>,
    /// The distance to look ahead in the video
    /// for scene flash detection.
    ///
    /// Not used if `detect_flashes` is `false`.
    pub lookahead_distance: usize,
}

impl Default for DetectionOptions {
    fn default() -> (opts: Self)
        ensures
            opts.analysis_speed == SceneDetectionSpeed::Standard,
            opts.detect_flashes,
            opts.lookahead_distance == 5,
            opts.min_scenecut_distance is None,
            opts.max_scenecut_distance is None,
    {
        DetectionOptions {
            analysis_speed: SceneDetectionSpeed::Standard,
            detect_flashes: true,
            lookahead_distance: 5,
            min_scenecut_distance: None,
            max_scenecut_distance: None,
        }
    }
}

/// Results from a scene change detection pass.
#[derive(Debug, Clone)]
pub struct DetectionResults {
    /// The 0-indexed frame numbers where scene changes were detected.
    pub scene_changes: Vec<usize>,
    /// The total number of frames read.
    pub frame_count: usize,
}

/// The number of blocks of `2^n` samples that it takes to cover `x` samples.
pub open spec fn blocks_covering(x: nat, n: nat) -> nat {
    ((x + pow2(n) - 1) / (pow2(n) as int)) as nat
}

/// The number of blocks of `2^n` samples that it takes to cover `x` samples.
pub fn align_power_of_two_and_shift(x: usize, n: usize) -> (blocks: usize)
    requires
        n < usize::BITS,
        x + pow2(n as nat) - 1 <= usize::MAX,
    ensures
        blocks == blocks_covering(x as nat, n as nat),
{
    proof {
        lemma_usize_pow2_no_overflow(n as nat);
        lemma_usize_shl_is_mul(1usize, n);
    }
    let block: usize = 1usize << n;
    let padded: usize = x + (block - 1);
    proof {
        lemma_usize_shr_is_div(padded, n);
    }
    padded >> n
}

/// Where a machine integer has more than 33 bits, the planes of a stream
/// that the detector supports can be held, whatever the analysis and the
/// storage unit of the samples.
pub proof fn lemma_supported_stream_fits(details: VideoDetails, opts: DetectionOptions, pixel: PixelType)
    requires
        DetectorSettings::spec_for_stream(details, opts).spec_supported(),
        usize::MAX >= 0x2_0000_0000,
    ensures
        target_fits(details, opts.analysis_speed, pixel),
{
    lemma2_to64();
    let stride = target_stride(details, opts.analysis_speed);
    let alloc_height = target_alloc_height(details, opts.analysis_speed);
    assert(stride * alloc_height * pixel.spec_bytes() <= 65536 * 65536 * 2) by (nonlinear_arith)
        requires
            0 <= stride <= 65536,
            0 <= alloc_height <= 65536,
            0 <= pixel.spec_bytes() <= 2,
    ;
}

/// Every answer in `calls` keeps to the distances of `settings`.
pub open spec fn all_honoured(settings: DetectorSettings, calls: Seq<AnalysisCall>) -> bool {
    forall|j: int| 0 <= j < calls.len() ==> settings.honoured(#[trigger] calls[j])
}

/// The keyframes that the first `k` answers of a pass with the detector leave
/// lie at least the least distance apart.
proof fn lemma_prefix_keeps_least_distance<F, D: Decoder<F>>(
    frames: Seq<F>,
    lookahead: nat,
    handoff: Handoff,
    calls: Seq<AnalysisCall>,
    settings: DetectorSettings,
    k: int,
)
    requires
        is_pass::<F, D>(frames, lookahead, handoff, calls),
        all_honoured(settings, calls),
        frames.len() < usize::MAX,
        0 <= k <= calls.len(),
    ensures
        spaced(keyframes_of(calls.take(k)), settings.min_key_frame_interval as nat),
        keyframes_of(calls.take(k)).len() >= 1,
    decreases k,
{
    if k > 0 {
        lemma_prefix_keeps_least_distance::<F, D>(frames, lookahead, handoff, calls, settings, k - 1);
        let call = calls[k - 1];
        assert(calls.take(k) =~= calls.take(k - 1).push(call));
        lemma_keyframes_of_push(calls.take(k - 1), call);
        assert(asked_at::<F, D>(frames, lookahead, handoff, calls, k - 1));
        assert(settings.honoured(call));
    }
}

/// In a pass with the detector, no keyframe lies closer to the one before it
/// than the least distance between cuts.
pub proof fn lemma_pass_keeps_least_distance<F, D: Decoder<F>>(
    frames: Seq<F>,
    lookahead: nat,
    handoff: Handoff,
    calls: Seq<AnalysisCall>,
    settings: DetectorSettings,
)
    requires
        is_pass::<F, D>(frames, lookahead, handoff, calls),
        all_honoured(settings, calls),
        frames.len() < usize::MAX,
    ensures
        spaced(keyframes_of(calls), settings.min_key_frame_interval as nat),
{
    lemma_prefix_keeps_least_distance::<F, D>(frames, lookahead, handoff, calls, settings, calls.len() as int);
    assert(calls.take(calls.len() as int) =~= calls);
}

/// The distance from a keyframe at which the detector reports a cut whatever
/// it sees: the greatest distance, or the least one where that is greater.
pub open spec fn forced_distance(settings: DetectorSettings) -> nat {
    if settings.min_key_frame_interval >= settings.max_key_frame_interval {
        settings.min_key_frame_interval as nat
    } else {
        settings.max_key_frame_interval as nat
    }
}

/// The keyframes that the first `k` answers of a pass leave lie no further
/// apart than the forced distance, and the last of them lies less than that
/// before frame `k`, where the detector holds no frames back.
proof fn lemma_prefix_keeps_greatest_distance<F, D: Decoder<F>>(
    frames: Seq<F>,
    lookahead: nat,
    handoff: Handoff,
    calls: Seq<AnalysisCall>,
    settings: DetectorSettings,
    k: int,
)
    requires
        is_pass::<F, D>(frames, lookahead, handoff, calls),
        all_honoured(settings, calls),
        settings.held_back() == 0,
        forced_distance(settings) >= 1,
        frames.len() < usize::MAX,
        0 <= k <= calls.len(),
    ensures
        within(keyframes_of(calls.take(k)), forced_distance(settings)),
        keyframes_of(calls.take(k)).len() >= 1,
        k - keyframes_of(calls.take(k)).last() < forced_distance(settings),
    decreases k,
{
    if k > 0 {
        lemma_prefix_keeps_greatest_distance::<F, D>(frames, lookahead, handoff, calls, settings, k - 1);
        let call = calls[k - 1];
        assert(calls.take(k) =~= calls.take(k - 1).push(call));
        lemma_keyframes_of_push(calls.take(k - 1), call);
        assert(asked_at::<F, D>(frames, lookahead, handoff, calls, k - 1));
        assert(settings.honoured(call));
        lemma_slot_shows_own_frame::<F, D>(frames, lookahead, handoff, calls, k - 1, 0);
    }
}

/// In a pass with a detector that holds no frames back, no keyframe lies
/// further from the one before it than the forced distance, and the stream
/// ends less than that after its last keyframe.
pub proof fn lemma_pass_keeps_greatest_distance<F, D: Decoder<F>>(
    frames: Seq<F>,
    lookahead: nat,
    handoff: Handoff,
    calls: Seq<AnalysisCall>,
    settings: DetectorSettings,
)
    requires
        is_pass::<F, D>(frames, lookahead, handoff, calls),
        all_honoured(settings, calls),
        settings.held_back() == 0,
        forced_distance(settings) >= 1,
        frames.len() < usize::MAX,
    ensures
        within(keyframes_of(calls), forced_distance(settings)),
        calls.len() - keyframes_of(calls).last() < forced_distance(settings),
{
    lemma_prefix_keeps_greatest_distance::<F, D>(frames, lookahead, handoff, calls, settings, calls.len() as int);
    assert(calls.take(calls.len() as int) =~= calls);
}

/// A detector for the stream of `dec`, set up as `opts` ask.
pub fn new_detector<F, D: Decoder<F>>(dec: &mut D, opts: DetectionOptions) -> (detector: Detector)
    requires
        DetectorSettings::spec_for_stream(old(dec).details(), opts).spec_supported(),
    ensures
        *final(dec) == *old(dec),
        detector.settings() == DetectorSettings::spec_for_stream(old(dec).details(), opts),
        detector.asked() == Seq::<AnalysisCall>::empty(),
        detector.put_to_engine() == Seq::<EngineQuestion>::empty(),
{
    let video_details = dec.get_video_details();
    Detector::new(DetectorSettings::for_stream(video_details, opts))
}

/// Runs through a video clip,
/// detecting where scene changes occur.
/// This is adjustable based on the `opts` parameters.
///
/// This is the preferred, simplified interface
/// for analyzing a whole clip for scene changes.
///
/// # Arguments
///
/// - `pixel`: The storage unit of the samples that `dec` yields.
/// - `progress`: Is told after each frame is analyzed.
///   Arguments passed in will be, in order,
///   the number of frames analyzed, and the number of keyframes detected.
///   This is generally useful for displaying progress, etc.
pub fn detect_scene_changes<F, D: Decoder<F>, R: Progress>(
    dec: &mut D,
    opts: DetectionOptions,
    pixel: PixelType,
    _frame_limit: Option<usize>,
    progress: &mut R,
) -> (results: DetectionResults)
    requires
        opts.lookahead_distance >= 1,
        opts.lookahead_distance <= usize::MAX - 2,
        old(dec).upcoming().len() < usize::MAX,
        !old(dec).inspected(),
        DetectorSettings::spec_for_stream(old(dec).details(), opts).spec_supported(),
        target_fits(old(dec).details(), opts.analysis_speed, pixel),
    ensures
        final(dec).details() == old(dec).details(),
        final(dec).upcoming().len() == 0,
        results.frame_count == old(dec).upcoming().len(),
        (exists|calls: Seq<AnalysisCall>|
            {
                &&& is_pass::<F, D>(
                    old(dec).upcoming(),
                    opts.lookahead_distance as nat,
                    pass_handoff::<F, D>(old(dec).details(), opts.analysis_speed, pixel, old(dec).upcoming()),
                    calls,
                )
                &&& put_to_detector(DetectorSettings::spec_for_stream(old(dec).details(), opts), calls)
                &&& all_honoured(DetectorSettings::spec_for_stream(old(dec).details(), opts), calls)
                &&& results.scene_changes@ == #[trigger] keyframes_of(calls)
                &&& final(progress).reports() == old(progress).reports() + progress_of(
                    old(dec).upcoming().len(),
                    opts.lookahead_distance as nat,
                    calls,
                )
            }),
        results.scene_changes@.len() >= 1,
        results.scene_changes@[0] == 0,
        strictly_increasing(results.scene_changes@),
        results.frame_count >= opts.lookahead_distance + 2 ==> forall|i: int|
            0 <= i < results.scene_changes@.len() ==> results.scene_changes@[i] < results.frame_count,
        results.frame_count < opts.lookahead_distance + 2 ==> results.scene_changes@ == seq![0usize],
        opts.min_scenecut_distance matches Some(distance) ==> spaced(results.scene_changes@, distance as nat),
        ({
            let settings = DetectorSettings::spec_for_stream(old(dec).details(), opts);
            settings.held_back() == 0 && forced_distance(settings) >= 1 ==> within(
                results.scene_changes@,
                forced_distance(settings),
            )
        }),
{
    let ghost frames = dec.upcoming();
    let ghost settings = DetectorSettings::spec_for_stream(dec.details(), opts);
    let ghost handoff = pass_handoff::<F, D>(dec.details(), opts.analysis_speed, pixel, frames);
    let mut detector = new_detector::<F, D>(dec, opts);
    let results = detect_with_engine::<F, D, Detector, R>(dec, &mut detector, opts, pixel, progress);
    let _ = detector.get_settings();
    proof {
        let calls = detector.calls();
        assert(calls.skip(0) =~= calls);
        lemma_pass_keeps_least_distance::<F, D>(frames, opts.lookahead_distance as nat, handoff, calls, settings);
        if settings.held_back() == 0 && forced_distance(settings) >= 1 {
            lemma_pass_keeps_greatest_distance::<F, D>(
                frames,
                opts.lookahead_distance as nat,
                handoff,
                calls,
                settings,
            );
        }
    }
    results
}

} // verus!
