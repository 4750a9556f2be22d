//! The lookahead window: the frames that straddle the frame under analysis,
//! how they are handed to the engine, and the pass that slides the window
//! over a whole stream.

use vstd::prelude::*;
use crate::analysis::{
    keyframes_of, lemma_keyframes_of_push, lemma_keyframes_ordered, numbered_from_one, record_verdict, recorded,
    strictly_increasing, window_data, AnalysisCall, AnalysisEngine,
};
use crate::decode::{copied_view, frame_ref_view, Decoder, FrameData, FrameView, PixelType, PlaneConfig, VideoDetails};
use crate::frame::Plane;
use crate::progress::Progress;
use crate::{align_power_of_two_and_shift, blocks_covering, DetectionOptions, DetectionResults, SceneDetectionSpeed};

verus! {

/// The base-2 logarithm of the side of a superblock, in samples.
pub const SB_SIZE_LOG2: usize = 6;

/// How the frames of a pass are handed to the engine.
#[derive(Clone, Copy, Debug, PartialEq, Eq, Structural)]
pub struct Handoff {
    /// Storage unit of the samples.
    pub pixel: PixelType,
    /// Width of the luma plane in pixels.
    pub width: usize,
    /// Height of the luma plane in pixels.
    pub height: usize,
    /// Samples per row that the engine is given.
    pub stride: usize,
    /// Rows that the engine is given.
    pub alloc_height: usize,
    /// The layout has to be exact.
    pub strict: bool,
    /// Every frame is copied before it is handed over.
    pub copy: bool,
}

impl Handoff {
    /// The geometry of every luma plane that is handed over.
    pub open spec fn cfg(self) -> PlaneConfig {
        PlaneConfig::spec_luma(self.width, self.height, self.stride, self.alloc_height)
    }

    /// Buffers of this geometry can be allocated.
    pub open spec fn fits(self) -> bool {
        self.cfg().byte_len(self.pixel) <= usize::MAX
    }
}

/// `x` rounded up to a whole number of superblocks.
pub open spec fn superblock_aligned(x: usize) -> nat {
    blocks_covering(x as nat, SB_SIZE_LOG2 as nat) * 64
}

/// Samples per row that the engine is given: the width of the stream for the
/// fast analysis, and the width rounded up to whole superblocks for the
/// standard one, which reads whole blocks.
pub open spec fn target_stride(details: VideoDetails, speed: SceneDetectionSpeed) -> nat {
    if speed == SceneDetectionSpeed::Fast {
        details.width as nat
    } else {
        superblock_aligned(details.width)
    }
}

/// Rows that the engine is given: the height of the stream for the fast
/// analysis, and the height rounded up to whole superblocks for the standard
/// one.
pub open spec fn target_alloc_height(details: VideoDetails, speed: SceneDetectionSpeed) -> nat {
    if speed == SceneDetectionSpeed::Fast {
        details.height as nat
    } else {
        superblock_aligned(details.height)
    }
}

/// The target geometry can be held: both measures are machine integers, and
/// so is the size in bytes of a buffer of that geometry.
pub open spec fn target_fits(details: VideoDetails, speed: SceneDetectionSpeed, pixel: PixelType) -> bool {
    &&& target_stride(details, speed) <= usize::MAX
    &&& target_alloc_height(details, speed) <= usize::MAX
    &&& target_stride(details, speed) * target_alloc_height(details, speed) * pixel.spec_bytes() <= usize::MAX
}

/// How a pass over `frames` hands its frames to the engine. Whether it copies
/// them is decided once, by the layout of the first frame.
pub open spec fn pass_handoff<F, D: Decoder<F>>(
    details: VideoDetails,
    speed: SceneDetectionSpeed,
    pixel: PixelType,
    frames: Seq<F>,
) -> Handoff {
    let stride = target_stride(details, speed) as usize;
    let alloc_height = target_alloc_height(details, speed) as usize;
    Handoff {
        pixel,
        width: details.width,
        height: details.height,
        stride,
        alloc_height,
        strict: speed == SceneDetectionSpeed::Standard,
        copy: frames.len() > 0 && !D::satisfies(&frames[0], pixel, stride, alloc_height),
    }
}

/// What the engine is shown of a frame: a copy with the target geometry where
/// the pass copies, and the backend's frame reference where it does not.
pub open spec fn shown<F, D: Decoder<F>>(frame: F, handoff: Handoff) -> FrameData {
    if handoff.copy {
        copied_view(D::native(&frame), handoff.pixel, handoff.cfg(), false)
    } else {
        frame_ref_view(
            D::native(&frame),
            D::satisfies(&frame, handoff.pixel, handoff.stride, handoff.alloc_height),
            handoff.pixel,
            handoff.cfg(),
            handoff.strict,
            false,
        )
    }
}

/// What the engine is shown of a run of frames.
pub open spec fn shown_window<F, D: Decoder<F>>(frames: Seq<F>, handoff: Handoff) -> Seq<FrameData> {
    Seq::new(frames.len(), |i: int| shown::<F, D>(frames[i], handoff))
}

/// One past the last frame of the window for the question about frame
/// `j + 1`: the window starts at frame `j` and holds `lookahead + 2` frames,
/// or as many as the stream still has.
pub open spec fn window_end(n: nat, lookahead: nat, j: int) -> int {
    if j + lookahead + 2 <= n {
        j + lookahead + 2
    } else {
        n as int
    }
}

/// `calls` is what a pass over `frames` asks the engine, whatever the engine
/// answers. A stream too short to fill the window once is not analysed at
/// all. Otherwise every frame but the first is asked about once, in order:
/// the question about frame `j + 1` shows the frames from `j` to the end of
/// the window, each as its own frame data, and names the last keyframe that
/// the answers before it have left.
pub open spec fn is_pass<F, D: Decoder<F>>(
    frames: Seq<F>,
    lookahead: nat,
    handoff: Handoff,
    calls: Seq<AnalysisCall>,
) -> bool {
    &&& calls.len() == (if frames.len() >= lookahead + 2 {
        frames.len() - 1
    } else {
        0
    })
    &&& asked_in_order::<F, D>(frames, lookahead, handoff, calls)
}

/// The `j`-th question in `calls` is what a pass over `frames` asks at that
/// point: it is about frame `j + 1`, shows the frames from `j` to the end of
/// the window, and names the last keyframe that the answers before it have
/// left.
pub open spec fn asked_at<F, D: Decoder<F>>(
    frames: Seq<F>,
    lookahead: nat,
    handoff: Handoff,
    calls: Seq<AnalysisCall>,
    j: int,
) -> bool {
    &&& calls[j].frameno == j + 1
    &&& calls[j].previous_keyframe == keyframes_of(calls.take(j)).last()
    &&& calls[j].window == shown_window::<F, D>(
        frames.subrange(j, window_end(frames.len(), lookahead, j)),
        handoff,
    )
}

/// Every question in `calls` is what a pass over `frames` asks at that point.
pub open spec fn asked_in_order<F, D: Decoder<F>>(
    frames: Seq<F>,
    lookahead: nat,
    handoff: Handoff,
    calls: Seq<AnalysisCall>,
) -> bool {
    forall|j: int| 0 <= j < calls.len() ==> #[trigger] asked_at::<F, D>(frames, lookahead, handoff, calls, j)
}

/// The reports that follow the questions in `calls` and the one before them:
/// report `k` says that `k + 1` frames are done, and counts the keyframes
/// that the first `k` answers have left.
pub open spec fn reports_after(calls: Seq<AnalysisCall>) -> Seq<(usize, usize)> {
    Seq::new(calls.len() + 1, |k: int| ((k + 1) as usize, keyframes_of(calls.take(k)).len() as usize))
}

/// What a pass over `n` frames reports of its progress, where `calls` is
/// what it asks the engine: nothing before the first `lookahead + 1` frames
/// are read; then that one frame is done, which is frame 0; and after every
/// answer that one more frame is done.
pub open spec fn progress_of(n: nat, lookahead: nat, calls: Seq<AnalysisCall>) -> Seq<(usize, usize)> {
    if n < lookahead + 1 {
        Seq::empty()
    } else {
        reports_after(calls)
    }
}

/// The entries of a window are the frames of the stream from `start` on, each
/// labelled with its index.
pub open spec fn queue_holds<F>(queue: Seq<(usize, F)>, frames: Seq<F>, start: int) -> bool {
    &&& 0 <= start
    &&& start + queue.len() <= frames.len()
    &&& forall|i: int| 0 <= i < queue.len() ==> (#[trigger] queue[i]).0 == start + i && queue[i].1 == frames[start + i]
}

/// The copies are what the engine is to be shown of the entries of a window,
/// one for one.
pub open spec fn copies_show<F, D: Decoder<F>>(
    copies: Seq<FrameView<'_>>,
    queue: Seq<(usize, F)>,
    handoff: Handoff,
) -> bool {
    &&& copies.len() == queue.len()
    &&& forall|i: int| 0 <= i < copies.len() ==> (#[trigger] copies[i])@ == shown::<F, D>(queue[i].1, handoff)
}

/// The frames of a window, without their labels.
pub open spec fn queue_frames<F>(queue: Seq<(usize, F)>) -> Seq<F> {
    Seq::new(queue.len(), |i: int| queue[i].1)
}

/// The measures of the planes that the engine is given for a stream: rows
/// first, then samples per row.
pub fn target_geometry(details: &VideoDetails, speed: SceneDetectionSpeed) -> (geometry: (usize, usize))
    requires
        target_stride(*details, speed) <= usize::MAX,
        target_alloc_height(*details, speed) <= usize::MAX,
    ensures
        geometry.0 == target_alloc_height(*details, speed),
        geometry.1 == target_stride(*details, speed),
{
    match speed {
        SceneDetectionSpeed::Fast => (details.height, details.width),
        SceneDetectionSpeed::Standard => (align_to_superblock(details.height), align_to_superblock(details.width)),
    }
}

/// `x` rounded up to a whole number of superblocks.
pub fn align_to_superblock(x: usize) -> (aligned: usize)
    requires
        superblock_aligned(x) <= usize::MAX,
    ensures
        aligned == superblock_aligned(x),
{
    proof {
        vstd::arithmetic::power2::lemma2_to64();
        // The largest machine integer is one less than a whole number of
        // superblocks, so a whole number that fits leaves room for 63 more.
        assert(usize::MAX == 0xffff_ffff || usize::MAX == 0xffff_ffff_ffff_ffff);
        assert(x + 63 <= usize::MAX);
    }
    let blocks = align_power_of_two_and_shift(x, SB_SIZE_LOG2);
    proof {
        vstd::bits::lemma_usize_shl_is_mul(blocks, SB_SIZE_LOG2);
    }
    blocks << SB_SIZE_LOG2
}

/// Whether the target geometry for a stream can be held.
pub fn fits_target(details: &VideoDetails, speed: SceneDetectionSpeed, pixel: PixelType) -> (fits: bool)
    ensures
        fits == target_fits(*details, speed, pixel),
{
    proof {
        vstd::arithmetic::power2::lemma2_to64();
    }
    let (alloc_height, stride) = match speed {
        SceneDetectionSpeed::Fast => (details.height, details.width),
        SceneDetectionSpeed::Standard => {
            if details.width > usize::MAX - 63 || details.height > usize::MAX - 63 {
                return false;
            }
            (align_to_superblock(details.height), align_to_superblock(details.width))
        },
    };
    match stride.checked_mul(alloc_height) {
        Some(samples) => samples.checked_mul(pixel.bytes()).is_some(),
        None => {
            assert(stride * alloc_height * pixel.spec_bytes() >= stride * alloc_height) by (nonlinear_arith)
                requires
                    pixel.spec_bytes() >= 1,
            ;
            false
        },
    }
}

/// The views of the frames of a window that the engine is shown where the
/// pass does not copy.
pub fn frame_views<'a, F, D: Decoder<F>>(frame_queue: &'a Vec<(usize, F)>, handoff: Handoff) -> (views: Vec<
    FrameView<'a>,
>)
    requires
        !handoff.copy,
        handoff.fits(),
    ensures
        window_data(views@) == shown_window::<F, D>(queue_frames(frame_queue@), handoff),
{
    let mut views: Vec<FrameView<'a>> = Vec::new();
    let mut i: usize = 0;
    while i < frame_queue.len()
        invariant
            i <= frame_queue.len(),
            views.len() == i,
            !handoff.copy,
            handoff.fits(),
            forall|k: int| 0 <= k < i ==> (#[trigger] views[k])@ == shown::<F, D>(frame_queue[k].1, handoff),
        decreases frame_queue.len() - i,
    {
        let view = D::get_frame_ref(
            &frame_queue[i].1,
            handoff.pixel,
            handoff.height,
            handoff.width,
            handoff.stride,
            handoff.alloc_height,
            handoff.strict,
            None,
        );
        views.push(view);
        i = i + 1;
    }
    views
}

/// Asks the engine about frame `frameno`, the second frame of the window,
/// and enters its answer in the keyframe list.
pub fn analyze_window<F, D: Decoder<F>, E: AnalysisEngine>(
    engine: &mut E,
    frame_queue: &Vec<(usize, F)>,
    frame_copies: &Vec<FrameView<'_>>,
    handoff: Handoff,
    frameno: usize,
    keyframes: &mut Vec<usize>,
) -> (cut: bool)
    requires
        frame_queue.len() >= 2,
        handoff.fits(),
        handoff.copy ==> copies_show::<F, D>(frame_copies@, frame_queue@, handoff),
        old(keyframes).len() >= 1,
        old(keyframes)@.last() <= frameno,
        frameno + frame_queue.len() <= u64::MAX,
    ensures
        forall|call: AnalysisCall| final(engine).promises(call) == old(engine).promises(call),
        final(engine).setup() == old(engine).setup(),
        final(engine).promises(final(engine).calls().last()),
        final(engine).calls() == old(engine).calls().push(
            (AnalysisCall {
                window: shown_window::<F, D>(queue_frames(frame_queue@), handoff),
                frameno: frameno as u64,
                previous_keyframe: old(keyframes)@.last() as u64,
                cut,
            }),
        ),
        final(keyframes)@ == recorded(old(keyframes)@, frameno, cut),
{
    let previous_keyframe = keyframes[keyframes.len() - 1];
    let cut = if handoff.copy {
        assert(window_data(frame_copies@) =~= shown_window::<F, D>(queue_frames(frame_queue@), handoff));
        engine.analyze_next_frame(frame_copies.as_slice(), frameno as u64, previous_keyframe as u64)
    } else {
        let views = frame_views::<F, D>(frame_queue, handoff);
        assert(views@.len() == window_data(views@).len());
        engine.analyze_next_frame(views.as_slice(), frameno as u64, previous_keyframe as u64)
    };
    record_verdict(keyframes, frameno, cut);
    cut
}

/// One more question, put in its turn, keeps the questions in order.
proof fn lemma_asked_next<F, D: Decoder<F>>(
    frames: Seq<F>,
    lookahead: nat,
    handoff: Handoff,
    calls: Seq<AnalysisCall>,
    call: AnalysisCall,
    queue: Seq<(usize, F)>,
)
    requires
        asked_in_order::<F, D>(frames, lookahead, handoff, calls),
        queue_holds(queue, frames, calls.len() as int),
        calls.len() + queue.len() == window_end(frames.len(), lookahead, calls.len() as int),
        call.frameno == calls.len() + 1,
        call.previous_keyframe == keyframes_of(calls).last(),
        call.window == shown_window::<F, D>(queue_frames(queue), handoff),
    ensures
        asked_in_order::<F, D>(frames, lookahead, handoff, calls.push(call)),
{
    let extended = calls.push(call);
    assert forall|j: int| 0 <= j < extended.len() implies #[trigger] asked_at::<F, D>(
        frames,
        lookahead,
        handoff,
        extended,
        j,
    ) by {
        if j < calls.len() {
            assert(asked_at::<F, D>(frames, lookahead, handoff, calls, j));
            assert(extended.take(j) =~= calls.take(j));
        } else {
            assert(extended.take(j) =~= calls);
            assert(queue_frames(queue) =~= frames.subrange(j, window_end(frames.len(), lookahead, j)));
        }
    }
}

/// One more answer is followed by one more report.
proof fn lemma_reports_next(calls: Seq<AnalysisCall>, call: AnalysisCall)
    ensures
        reports_after(calls.push(call)) == reports_after(calls).push(
            ((calls.len() + 2) as usize, keyframes_of(calls.push(call)).len() as usize),
        ),
{
    let extended = calls.push(call);
    let longer = reports_after(calls).push(((calls.len() + 2) as usize, keyframes_of(extended).len() as usize));
    assert forall|k: int| 0 <= k < longer.len() implies reports_after(extended)[k] == longer[k] by {
        if k <= calls.len() {
            assert(extended.take(k) =~= calls.take(k));
        } else {
            assert(extended.take(k) =~= extended);
        }
    }
}

/// Questions asked in order are numbered from one.
proof fn lemma_asked_numbered<F, D: Decoder<F>>(
    frames: Seq<F>,
    lookahead: nat,
    handoff: Handoff,
    calls: Seq<AnalysisCall>,
)
    requires
        asked_in_order::<F, D>(frames, lookahead, handoff, calls),
    ensures
        numbered_from_one(calls),
{
    assert forall|j: int| 0 <= j < calls.len() implies (#[trigger] calls[j]).frameno == j + 1 by {
        assert(asked_at::<F, D>(frames, lookahead, handoff, calls, j));
    }
}

/// In a pass over a stream that fills the window, the keyframes start with
/// frame 0, rise strictly, and all lie within the stream.
pub proof fn lemma_pass_keyframes_ordered<F, D: Decoder<F>>(
    frames: Seq<F>,
    lookahead: nat,
    handoff: Handoff,
    calls: Seq<AnalysisCall>,
)
    requires
        is_pass::<F, D>(frames, lookahead, handoff, calls),
        frames.len() >= lookahead + 2,
        frames.len() < usize::MAX,
    ensures
        keyframes_of(calls).len() >= 1,
        keyframes_of(calls)[0] == 0,
        strictly_increasing(keyframes_of(calls)),
        forall|i: int| 0 <= i < keyframes_of(calls).len() ==> keyframes_of(calls)[i] < frames.len(),
{
    lemma_asked_numbered::<F, D>(frames, lookahead, handoff, calls);
    lemma_keyframes_ordered(calls);
}

/// In a pass over a stream too short to fill the window, the engine is not
/// asked, and frame 0 is the only keyframe.
pub proof fn lemma_short_pass_has_one_keyframe<F, D: Decoder<F>>(
    frames: Seq<F>,
    lookahead: nat,
    handoff: Handoff,
    calls: Seq<AnalysisCall>,
)
    requires
        is_pass::<F, D>(frames, lookahead, handoff, calls),
        frames.len() < lookahead + 2,
    ensures
        calls.len() == 0,
        keyframes_of(calls) == seq![0usize],
{
}

/// In a pass, every slot of every window shows its own frame: slot `i` of
/// the window for the question about frame `j + 1` shows frame `j + i` of the
/// stream as that frame is, whatever was decoded into the same handle before
/// or after.
pub proof fn lemma_slot_shows_own_frame<F, D: Decoder<F>>(
    frames: Seq<F>,
    lookahead: nat,
    handoff: Handoff,
    calls: Seq<AnalysisCall>,
    j: int,
    i: int,
)
    requires
        is_pass::<F, D>(frames, lookahead, handoff, calls),
        0 <= j < calls.len(),
        0 <= i < calls[j].window.len(),
    ensures
        calls[j].window.len() == window_end(frames.len(), lookahead, j) - j,
        2 <= calls[j].window.len() <= lookahead + 2,
        j + i < frames.len(),
        calls[j].window[i] == shown::<F, D>(frames[j + i], handoff),
{
    assert(asked_at::<F, D>(frames, lookahead, handoff, calls, j));
}

/// In a pass that copies, the engine is never shown backend memory: every
/// frame it is handed is a plane of the library's own with exactly the stride
/// and the allocation height asked for, and byte for byte the copy that
/// `make_copy` makes of that frame.
pub proof fn lemma_copying_pass_hands_copies<F, D: Decoder<F>>(
    frames: Seq<F>,
    lookahead: nat,
    handoff: Handoff,
    calls: Seq<AnalysisCall>,
    j: int,
    i: int,
    reference: Plane,
)
    requires
        is_pass::<F, D>(frames, lookahead, handoff, calls),
        handoff.copy,
        0 <= j < calls.len(),
        0 <= i < calls[j].window.len(),
        reference.is_copy_of(D::native(&frames[j + i]), handoff.pixel, handoff.cfg()),
    ensures
        !calls[j].window[i].aliased,
        calls[j].window[i].cfg.stride == handoff.stride,
        calls[j].window[i].cfg.alloc_height == handoff.alloc_height,
        calls[j].window[i].cfg == reference.cfg,
        calls[j].window[i].data == reference.data@,
{
    lemma_slot_shows_own_frame::<F, D>(frames, lookahead, handoff, calls, j, i);
}

/// Every answer in `calls` is as the engine promises.
pub open spec fn all_promised<E: AnalysisEngine>(engine: &E, calls: Seq<AnalysisCall>) -> bool {
    forall|j: int| 0 <= j < calls.len() ==> engine.promises(#[trigger] calls[j])
}

/// Reads up to `count` more frames into the window, each with the index it
/// has in the stream, and stops early where the stream ends. Returns whether
/// all of them came.
fn fill_window<F, D: Decoder<F>>(
    dec: &mut D,
    handoff: Handoff,
    frame_queue: &mut Vec<(usize, F)>,
    frame_copies: &mut Vec<FrameView<'static>>,
    count: usize,
    Ghost(frames): Ghost<Seq<F>>,
) -> (filled: bool)
    requires
        handoff.fits(),
        old(frame_queue).len() + count <= usize::MAX,
        queue_holds(old(frame_queue)@, frames, 0),
        old(dec).upcoming() == frames.skip(old(frame_queue).len() as int),
        handoff.copy ==> copies_show::<F, D>(old(frame_copies)@, old(frame_queue)@, handoff),
    ensures
        final(dec).details() == old(dec).details(),
        queue_holds(final(frame_queue)@, frames, 0),
        final(dec).upcoming() == frames.skip(final(frame_queue).len() as int),
        handoff.copy ==> copies_show::<F, D>(final(frame_copies)@, final(frame_queue)@, handoff),
        filled ==> final(frame_queue).len() == old(frame_queue).len() + count,
        !filled ==> final(frame_queue).len() == frames.len() && frames.len() < old(frame_queue).len() + count,
{
    let target = frame_queue.len() + count;
    while frame_queue.len() < target
        invariant
            handoff.fits(),
            old(frame_queue).len() <= frame_queue.len() <= target,
            target == old(frame_queue).len() + count,
            dec.details() == old(dec).details(),
            queue_holds(frame_queue@, frames, 0),
            dec.upcoming() == frames.skip(frame_queue.len() as int),
            handoff.copy ==> copies_show::<F, D>(frame_copies@, frame_queue@, handoff),
        decreases target - frame_queue.len(),
    {
        let index = frame_queue.len();
        match dec.receive_frame_init(handoff.stride, handoff.alloc_height) {
            Some(frame) => {
                // The decoder hands out the frame as it is; the copy is made here.
                if handoff.copy {
                    let copy = D::make_copy(
                        &frame,
                        handoff.pixel,
                        handoff.height,
                        handoff.width,
                        handoff.stride,
                        handoff.alloc_height,
                        None,
                    );
                    frame_copies.push(FrameView::Owned(copy.unwrap()));
                }
                frame_queue.push((index, frame));
            },
            None => {
                return false;
            },
        }
    }
    true
}

/// Slides the window one frame on: the oldest entry leaves, and its handle
/// takes the next frame of the stream and comes back as the newest entry.
/// Where the stream has ended the entry is dropped. Returns whether a frame
/// came.
fn slide_window<F, D: Decoder<F>>(
    dec: &mut D,
    handoff: Handoff,
    frame_queue: &mut Vec<(usize, F)>,
    frame_copies: &mut Vec<FrameView<'static>>,
    Ghost(frames): Ghost<Seq<F>>,
    Ghost(start): Ghost<int>,
) -> (frame_received: bool)
    requires
        handoff.fits(),
        old(frame_queue).len() >= 2,
        queue_holds(old(frame_queue)@, frames, start),
        frames.len() < usize::MAX,
        old(dec).upcoming() == frames.skip(start + old(frame_queue).len()),
        handoff.copy ==> copies_show::<F, D>(old(frame_copies)@, old(frame_queue)@, handoff),
    ensures
        final(dec).details() == old(dec).details(),
        queue_holds(final(frame_queue)@, frames, start + 1),
        final(dec).upcoming() == frames.skip(start + 1 + final(frame_queue).len()),
        handoff.copy ==> copies_show::<F, D>(final(frame_copies)@, final(frame_queue)@, handoff),
        frame_received ==> final(frame_queue).len() == old(frame_queue).len(),
        !frame_received ==> final(frame_queue).len() == old(frame_queue).len() - 1 && final(dec).upcoming().len()
            == 0,
{
    let mut first = frame_queue.remove(0);
    let new_last = frame_queue[frame_queue.len() - 1].0 + 1;
    let recycled = if handoff.copy {
        Some(frame_copies.remove(0))
    } else {
        None
    };
    let ghost next = start + 1 + frame_queue.len();

    let frame_received = dec.receive_frame(&mut first.1);
    if frame_received {
        if let Some(copy) = recycled {
            let mut plane = match copy {
                FrameView::Owned(plane) => plane,
                FrameView::Ref(_) => Plane::empty(handoff.pixel),
            };
            D::make_copy(
                &first.1,
                handoff.pixel,
                handoff.height,
                handoff.width,
                handoff.stride,
                handoff.alloc_height,
                Some(&mut plane),
            );
            frame_copies.push(FrameView::Owned(plane));
        }
        first.0 = new_last;
        frame_queue.push(first);
    }
    frame_received
}

/// Asks the engine about the second frame of the window, enters the answer,
/// and tells the caller how far the pass has come.
fn analyze_and_report<F, D: Decoder<F>, E: AnalysisEngine, R: Progress>(
    engine: &mut E,
    frame_queue: &Vec<(usize, F)>,
    frame_copies: &Vec<FrameView<'static>>,
    handoff: Handoff,
    frameno: &mut usize,
    keyframes: &mut Vec<usize>,
    progress: &mut R,
    Ghost(frames): Ghost<Seq<F>>,
    Ghost(lookahead): Ghost<nat>,
    Ghost(calls0): Ghost<Seq<AnalysisCall>>,
    Ghost(reports0): Ghost<Seq<(usize, usize)>>,
    Ghost(made): Ghost<Seq<AnalysisCall>>,
) -> (asked: Ghost<Seq<AnalysisCall>>)
    requires
        frame_queue.len() >= 2,
        handoff.fits(),
        handoff.copy ==> copies_show::<F, D>(frame_copies@, frame_queue@, handoff),
        frames.len() < usize::MAX,
        queue_holds(frame_queue@, frames, made.len() as int),
        made.len() + frame_queue.len() == window_end(frames.len(), lookahead, made.len() as int),
        all_promised(old(engine), made),
        old(engine).calls() == calls0 + made,
        asked_in_order::<F, D>(frames, lookahead, handoff, made),
        old(keyframes)@ == keyframes_of(made),
        old(keyframes)@.len() >= 1,
        old(keyframes)@.last() <= made.len(),
        *old(frameno) == made.len() + 1,
        old(progress).reports() == reports0 + reports_after(made),
    ensures
        asked@.len() == made.len() + 1,
        final(progress).reports() == reports0 + reports_after(asked@),
        all_promised(final(engine), asked@),
        forall|call: AnalysisCall| final(engine).promises(call) == old(engine).promises(call),
        final(engine).setup() == old(engine).setup(),
        final(engine).calls() == calls0 + asked@,
        asked_in_order::<F, D>(frames, lookahead, handoff, asked@),
        final(keyframes)@ == keyframes_of(asked@),
        final(keyframes)@.len() >= 1,
        final(keyframes)@.last() <= asked@.len(),
        *final(frameno) == asked@.len() + 1,
{
    let cut = analyze_window::<F, D, E>(engine, frame_queue, frame_copies, handoff, *frameno, keyframes);
    let ghost call = engine.calls().last();
    proof {
        lemma_asked_next::<F, D>(frames, lookahead, handoff, made, call, frame_queue@);
        lemma_keyframes_of_push(made, call);
        lemma_reports_next(made, call);
    }
    *frameno = *frameno + 1;
    progress.report(*frameno, keyframes.len());
    Ghost(made.push(call))
}

/// Runs one detection pass: reads the stream of `dec` to its end and asks
/// `engine` about every frame but the first, each time with the frame before
/// it, the frame itself and the lookahead after it.
///
/// The stream is read in order and is at its end afterwards; `frame_count` is
/// the number of frames it held. A stream that cannot fill the window once,
/// with fewer than `lookahead_distance + 2` frames, is not analysed: its only
/// keyframe is frame 0. `progress` is told once the first
/// `lookahead_distance + 1` frames are read and then after every answer, with
/// the number of frames done and the number of keyframes so far.
pub fn detect_with_engine<F, D: Decoder<F>, E: AnalysisEngine, R: Progress>(
    dec: &mut D,
    engine: &mut E,
    opts: DetectionOptions,
    pixel: PixelType,
    progress: &mut R,
) -> (results: DetectionResults)
    requires
        opts.lookahead_distance >= 1,
        opts.lookahead_distance <= usize::MAX - 2,
        old(dec).upcoming().len() < usize::MAX,
        !old(dec).inspected(),
        target_fits(old(dec).details(), opts.analysis_speed, pixel),
    ensures
        final(dec).details() == old(dec).details(),
        final(dec).upcoming().len() == 0,
        results.frame_count == old(dec).upcoming().len(),
        final(progress).reports() == old(progress).reports() + progress_of(
            old(dec).upcoming().len(),
            opts.lookahead_distance as nat,
            final(engine).calls().skip(old(engine).calls().len() as int),
        ),
        final(engine).calls().len() >= old(engine).calls().len(),
        final(engine).calls().take(old(engine).calls().len() as int) == old(engine).calls(),
        is_pass::<F, D>(
            old(dec).upcoming(),
            opts.lookahead_distance as nat,
            pass_handoff::<F, D>(old(dec).details(), opts.analysis_speed, pixel, old(dec).upcoming()),
            final(engine).calls().skip(old(engine).calls().len() as int),
        ),
        all_promised(final(engine), final(engine).calls().skip(old(engine).calls().len() as int)),
        forall|call: AnalysisCall| final(engine).promises(call) == old(engine).promises(call),
        final(engine).setup() == old(engine).setup(),
        results.scene_changes@ == keyframes_of(final(engine).calls().skip(old(engine).calls().len() as int)),
        results.scene_changes@.len() >= 1,
        results.scene_changes@[0] == 0,
        strictly_increasing(results.scene_changes@),
        results.frame_count >= opts.lookahead_distance + 2 ==> forall|i: int|
            0 <= i < results.scene_changes@.len() ==> results.scene_changes@[i] < results.frame_count,
        results.frame_count < opts.lookahead_distance + 2 ==> results.scene_changes@ == seq![0usize],
{
    let ghost frames = dec.upcoming();
    let ghost calls0 = engine.calls();
    let ghost reports0 = progress.reports();
    let ghost lookahead = opts.lookahead_distance as nat;
    let details = dec.get_video_details();
    let (alloc_height, stride) = target_geometry(&details, opts.analysis_speed);
    let strict = opts.analysis_speed == SceneDetectionSpeed::Standard;

    // Whether the frames are copied is decided once, here, for the whole pass.
    let frame_copy_needed = !dec.stride_matches(pixel, stride, alloc_height);
    let handoff = Handoff {
        pixel,
        width: details.width,
        height: details.height,
        stride,
        alloc_height,
        strict,
        copy: frame_copy_needed,
    };
    proof {
        assert(frames.skip(0) =~= frames);
    }

    let mut frame_queue: Vec<(usize, F)> = Vec::with_capacity(opts.lookahead_distance + 2);
    let mut frame_copies: Vec<FrameView<'static>> = Vec::new();
    let mut keyframes: Vec<usize> = Vec::new();
    keyframes.push(0);
    let mut frameno: usize = 0;

    if !fill_window::<F, D>(
        dec,
        handoff,
        &mut frame_queue,
        &mut frame_copies,
        opts.lookahead_distance + 1,
        Ghost(frames),
    ) {
        return DetectionResults { scene_changes: keyframes, frame_count: frame_queue.len() };
    }
    frameno = frameno + 1;

    // Frame 0 is a keyframe whatever it shows: it counts as done without a question.
    progress.report(frameno, keyframes.len());
    let ghost mut made: Seq<AnalysisCall> = Seq::empty();

    if !fill_window::<F, D>(dec, handoff, &mut frame_queue, &mut frame_copies, 1, Ghost(frames)) {
        return DetectionResults { scene_changes: keyframes, frame_count: frame_queue.len() };
    }

    // The window slides over the stream, one question for each place.
    let mut frame_received = true;
    while frame_received
        invariant
            handoff.fits(),
            frames.len() < usize::MAX,
            frames.len() >= lookahead + 2,
            handoff == pass_handoff::<F, D>(details, opts.analysis_speed, pixel, frames),
            lookahead == opts.lookahead_distance,
            lookahead >= 1,
            all_promised(engine, made),
            forall|call: AnalysisCall| engine.promises(call) == old(engine).promises(call),
            engine.setup() == old(engine).setup(),
            engine.calls() == calls0 + made,
            asked_in_order::<F, D>(frames, lookahead, handoff, made),
            keyframes@ == keyframes_of(made),
            keyframes@.len() >= 1,
            keyframes@.last() <= made.len(),
            frameno == made.len() + 1,
            queue_holds(frame_queue@, frames, made.len() as int),
            dec.upcoming() == frames.skip(made.len() + frame_queue.len()),
            dec.details() == details,
            handoff.copy ==> copies_show::<F, D>(frame_copies@, frame_queue@, handoff),
            frame_received ==> frame_queue.len() == lookahead + 2,
            !frame_received ==> frame_queue.len() == lookahead + 1 && dec.upcoming().len() == 0,
            progress.reports() == reports0 + reports_after(made),
        decreases dec.upcoming().len() + (if frame_received { 1nat } else { 0nat }),
    {
        let asked = analyze_and_report::<F, D, E, R>(
            engine,
            &frame_queue,
            &frame_copies,
            handoff,
            &mut frameno,
            &mut keyframes,
            progress,
            Ghost(frames),
            Ghost(lookahead),
            Ghost(calls0),
            Ghost(reports0),
            Ghost(made),
        );
        frame_received = slide_window::<F, D>(
            dec,
            handoff,
            &mut frame_queue,
            &mut frame_copies,
            Ghost(frames),
            Ghost(made.len() as int),
        );
        proof {
            made = asked@;
        }
    }

    // The stream has ended: the window shrinks until one frame is left.
    while frame_queue.len() != 1
        invariant
            handoff.fits(),
            frames.len() < usize::MAX,
            frame_queue.len() >= 1,
            made.len() + frame_queue.len() == frames.len(),
            frame_queue.len() <= lookahead + 1,
            all_promised(engine, made),
            forall|call: AnalysisCall| engine.promises(call) == old(engine).promises(call),
            engine.setup() == old(engine).setup(),
            engine.calls() == calls0 + made,
            asked_in_order::<F, D>(frames, lookahead, handoff, made),
            keyframes@ == keyframes_of(made),
            keyframes@.len() >= 1,
            keyframes@.last() <= made.len(),
            frameno == made.len() + 1,
            queue_holds(frame_queue@, frames, made.len() as int),
            handoff.copy ==> copies_show::<F, D>(frame_copies@, frame_queue@, handoff),
            progress.reports() == reports0 + reports_after(made),
        decreases frame_queue.len(),
    {
        let asked = analyze_and_report::<F, D, E, R>(
            engine,
            &frame_queue,
            &frame_copies,
            handoff,
            &mut frameno,
            &mut keyframes,
            progress,
            Ghost(frames),
            Ghost(lookahead),
            Ghost(calls0),
            Ghost(reports0),
            Ghost(made),
        );
        frame_queue.remove(0);
        if handoff.copy {
            frame_copies.remove(0);
        }
        proof {
            made = asked@;
        }
    }

    proof {
        lemma_asked_numbered::<F, D>(frames, lookahead, handoff, made);
        lemma_keyframes_ordered(made);
        assert((calls0 + made).skip(calls0.len() as int) =~= made);
    }
    DetectionResults { scene_changes: keyframes, frame_count: frameno }
}

} // verus!
