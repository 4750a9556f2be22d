//! The engine that judges whether a frame starts a new scene, seen from the
//! driver: one operation, and the record of what it was asked.

use vstd::prelude::*;
use crate::decode::{FrameData, FrameView};

verus! {

/// One question put to the analysis engine, and its answer.
pub struct AnalysisCall {
    /// The frames that were handed over, the oldest first.
    pub window: Seq<FrameData>,
    /// The number of the frame in question, the second frame of the window.
    pub frameno: u64,
    /// The most recent keyframe at the time of the question.
    pub previous_keyframe: u64,
    /// The answer: the frame starts a new scene.
    pub cut: bool,
}

/// The frames of a window as mathematical values.
pub open spec fn window_data(frames: Seq<FrameView<'_>>) -> Seq<FrameData> {
    Seq::new(frames.len(), |i: int| frames[i]@)
}

/// The keyframes that a run of answers leaves: frame 0, then every frame of
/// which the engine said that it starts a new scene, in the order asked.
pub open spec fn keyframes_of(calls: Seq<AnalysisCall>) -> Seq<usize>
    decreases calls.len(),
{
    if calls.len() == 0 {
        seq![0usize]
    } else if calls.last().cut {
        keyframes_of(calls.drop_last()).push(calls.last().frameno as usize)
    } else {
        keyframes_of(calls.drop_last())
    }
}

/// The keyframe list after an answer: the frame is appended where the answer
/// is a cut, and the list is left as it was where it is not.
pub open spec fn recorded(keyframes: Seq<usize>, frameno: usize, cut: bool) -> Seq<usize> {
    if cut {
        keyframes.push(frameno)
    } else {
        keyframes
    }
}

/// A sequence of frame numbers rises strictly.
pub open spec fn strictly_increasing(keyframes: Seq<usize>) -> bool {
    forall|i: int, j: int| 0 <= i < j < keyframes.len() ==> keyframes[i] < keyframes[j]
}

/// Each keyframe lies at least `distance` frames after the one before it.
pub open spec fn spaced(keyframes: Seq<usize>, distance: nat) -> bool {
    forall|i: int| 0 <= i < keyframes.len() - 1 ==> keyframes[i + 1] - (#[trigger] keyframes[i]) >= distance
}

/// No keyframe lies more than `distance` frames after the one before it.
pub open spec fn within(keyframes: Seq<usize>, distance: nat) -> bool {
    forall|i: int| 0 <= i < keyframes.len() - 1 ==> keyframes[i + 1] - (#[trigger] keyframes[i]) <= distance
}

/// The calls are numbered 1, 2, 3 and so on.
pub open spec fn numbered_from_one(calls: Seq<AnalysisCall>) -> bool {
    forall|j: int| 0 <= j < calls.len() ==> (#[trigger] calls[j]).frameno == j + 1
}

/// One more answer extends the keyframes of the answers before it.
pub proof fn lemma_keyframes_of_push(calls: Seq<AnalysisCall>, call: AnalysisCall)
    ensures
        keyframes_of(calls.push(call)) == recorded(keyframes_of(calls), call.frameno as usize, call.cut),
{
    assert(calls.push(call).drop_last() =~= calls);
}

/// Whatever the engine answers to questions numbered from one, the keyframes
/// start with frame 0, rise strictly, and name no frame beyond the last one
/// asked about.
pub proof fn lemma_keyframes_ordered(calls: Seq<AnalysisCall>)
    requires
        numbered_from_one(calls),
        calls.len() < usize::MAX,
    ensures
        keyframes_of(calls).len() >= 1,
        keyframes_of(calls)[0] == 0,
        strictly_increasing(keyframes_of(calls)),
        forall|i: int| 0 <= i < keyframes_of(calls).len() ==> keyframes_of(calls)[i] <= calls.len(),
    decreases calls.len(),
{
    if calls.len() > 0 {
        let before = calls.drop_last();
        assert forall|j: int| 0 <= j < before.len() implies (#[trigger] before[j]).frameno == j + 1 by {
            assert(before[j] == calls[j]);
        }
        lemma_keyframes_ordered(before);
        assert(calls.last() == calls[calls.len() - 1]);
    }
}

/// The engine that judges whether a frame starts a new scene.
///
/// `calls` is the record of what the engine was asked since it was made, and
/// what it answered. The answers are the engine's own: of them no more is
/// said than the engine promises.
pub trait AnalysisEngine {
    /// What the engine is set up with.
    type Setup;

    /// What the engine was set up with when it was made. It does not change
    /// while the engine is asked.
    open spec fn setup(&self) -> Self::Setup {
        arbitrary()
    }

    /// The questions put to the engine so far, with their answers.
    open spec fn calls(&self) -> Seq<AnalysisCall> {
        arbitrary()
    }

    /// What the engine promises of every answer it gives: nothing, unless
    /// the engine says otherwise. It does not change while the engine is
    /// asked.
    open spec fn promises(&self, call: AnalysisCall) -> bool {
        true
    }

    /// Judges whether frame `input_frameno` starts a new scene. `frame_set`
    /// holds the frame before it, the frame itself, and as many of the frames
    /// after it as the lookahead offers; `previous_keyframe` is the most
    /// recent keyframe so far.
    fn analyze_next_frame(&mut self, frame_set: &[FrameView<'_>], input_frameno: u64, previous_keyframe: u64) -> (cut:
        bool)
        requires
            frame_set@.len() >= 2,
            previous_keyframe <= input_frameno,
            input_frameno + frame_set@.len() <= u64::MAX,
        ensures
            final(self).calls() == old(self).calls().push(
                (AnalysisCall { window: window_data(frame_set@), frameno: input_frameno, previous_keyframe, cut }),
            ),
            final(self).promises(
                (AnalysisCall { window: window_data(frame_set@), frameno: input_frameno, previous_keyframe, cut }),
            ),
            forall|call: AnalysisCall| final(self).promises(call) == old(self).promises(call),
            final(self).setup() == old(self).setup(),
    ;
}

/// Enters the engine's answer for frame `frameno` in the keyframe list.
pub fn record_verdict(keyframes: &mut Vec<usize>, frameno: usize, cut: bool)
    ensures
        final(keyframes)@ == recorded(old(keyframes)@, frameno, cut),
{
    if cut {
        keyframes.push(frameno);
    }
}

} // verus!
