//! The pull-style backend: a decoder that is asked for frames by index.
//!
//! The adapter keeps a cursor into the clip. Fetching the frame at the cursor
//! is the caller's part; what is done with the outcome is decided here.

use vstd::prelude::*;
use crate::decode::{
    copy_frame, frame_ref, frame_ref_view, layout_matches, layout_satisfies, FrameView, PixelType, PlaneConfig,
    VideoDetails,
};
use crate::frame::{Plane, RawPlane};

verus! {

/// Vapoursynth error
#[derive(Debug, Clone, PartialEq, Eq)]
pub enum VapoursynthError {
    /// VsScript error
    VsScript(String),
    /// Script has variable format in output
    VariableFormat,
    /// Script has variable resolution in output
    VariableResolution,
}

/// A property of a clip that either is the same for every frame or is not.
#[derive(Debug, Clone, Copy, PartialEq, Eq)]
pub enum Property<T> {
    /// The property differs from frame to frame.
    Variable,
    /// The property is the same for every frame.
    Constant(T),
}

/// What a script tells about the clip it puts out.
#[derive(Debug, Clone, Copy, PartialEq, Eq)]
pub struct ClipInfo {
    /// Bits per sample.
    pub bits_per_sample: Property<u8>,
    /// Width and height of the frames, in pixels.
    pub resolution: Property<(usize, usize)>,
}

/// Vapoursynth decoder interface
#[derive(Debug, Clone, Copy)]
pub struct VapoursynthDecoder {
    frame_idx: usize,
    video_details: VideoDetails,
    inspected: bool,
}

/// The descriptor of a clip with the given bit depth and resolution: the rest
/// is as in the default descriptor.
pub open spec fn clip_details(bits_per_sample: u8, resolution: (usize, usize)) -> VideoDetails {
    VideoDetails {
        width: resolution.0,
        height: resolution.1,
        bit_depth: bits_per_sample as usize,
        chroma_sampling: crate::decode::ChromaSampling::Cs420,
        chroma_sample_position: crate::decode::ChromaSamplePosition::Unknown,
        time_base: crate::decode::Rational { num: 30, den: 1 },
        luma_padding: 0,
    }
}

impl VapoursynthDecoder {
    /// The index of the frame to fetch next.
    pub closed spec fn cursor(&self) -> usize {
        self.frame_idx
    }

    /// The descriptor of the clip.
    pub closed spec fn details(&self) -> VideoDetails {
        self.video_details
    }

    /// Whether the layout of the frame at the cursor has been inspected
    /// already.
    pub closed spec fn inspected(&self) -> bool {
        self.inspected
    }

    /// A decoder at the start of the clip that a script puts out. `output` is
    /// what the script environment gave for its output: the clip's
    /// description, or the message of the error it failed with. A clip whose
    /// format or resolution changes from frame to frame is refused.
    pub fn new(output: Result<ClipInfo, String>) -> (decoder: Result<Self, VapoursynthError>)
        ensures
            match output {
                Err(message) => decoder == Err::<Self, VapoursynthError>(VapoursynthError::VsScript(message)),
                Ok(info) => match (info.bits_per_sample, info.resolution) {
                    (Property::Variable, _) => decoder == Err::<Self, VapoursynthError>(
                        VapoursynthError::VariableFormat,
                    ),
                    (Property::Constant(_), Property::Variable) => decoder == Err::<Self, VapoursynthError>(
                        VapoursynthError::VariableResolution,
                    ),
                    (Property::Constant(bits), Property::Constant(resolution)) => decoder matches Ok(made)
                        && made.cursor() == 0 && !made.inspected() && made.details() == clip_details(
                        bits,
                        resolution,
                    ),
                },
            },
    {
        let info = match output {
            Ok(info) => info,
            Err(message) => {
                return Err(VapoursynthError::VsScript(message));
            },
        };
        let bit_depth = match info.bits_per_sample {
            Property::Variable => {
                return Err(VapoursynthError::VariableFormat);
            },
            Property::Constant(x) => x,
        };
        let resolution = match info.resolution {
            Property::Variable => {
                return Err(VapoursynthError::VariableResolution);
            },
            Property::Constant(x) => x,
        };
        let defaults = VideoDetails::default();
        let video_details = VideoDetails {
            bit_depth: bit_depth as usize,
            width: resolution.0,
            height: resolution.1,
            chroma_sampling: defaults.chroma_sampling,
            chroma_sample_position: defaults.chroma_sample_position,
            time_base: defaults.time_base,
            luma_padding: defaults.luma_padding,
        };
        Ok(Self { frame_idx: 0, video_details, inspected: false })
    }

    /// Get the Bit Depth
    pub fn get_bit_depth(&self) -> (bit_depth: usize)
        ensures
            bit_depth == self.details().bit_depth,
    {
        self.video_details.bit_depth
    }

    /// Get the Video Details
    pub fn get_video_details(&self) -> (details: VideoDetails)
        ensures
            details == self.details(),
    {
        self.video_details
    }

    /// The index of the frame to fetch next.
    pub fn frame_idx(&self) -> (index: usize)
        ensures
            index == self.cursor(),
    {
        self.frame_idx
    }

    /// Whether the layout of the frame at the cursor has been inspected
    /// already.
    pub fn is_inspected(&self) -> (inspected: bool)
        ensures
            inspected == self.inspected(),
    {
        self.inspected
    }

    /// Takes the outcome of fetching the frame at the cursor as the first
    /// frame of a handle of its own. The cursor moves on whether the frame
    /// came or not, so that the next attempt asks for the next frame.
    pub fn receive_frame_init<F>(&mut self, fetched: Option<F>) -> (frame: Option<F>)
        requires
            old(self).cursor() < usize::MAX,
        ensures
            frame == fetched,
            final(self).cursor() == old(self).cursor() + 1,
            final(self).details() == old(self).details(),
            !final(self).inspected(),
    {
        self.frame_idx = self.frame_idx + 1;
        self.inspected = false;
        fetched
    }

    /// Takes the outcome of fetching the frame at the cursor into a handle
    /// that exists already: a frame that came replaces what the handle held,
    /// and without one the handle is left as it was. The cursor moves on
    /// either way.
    pub fn receive_frame<F>(&mut self, fetched: Option<F>, x: &mut F) -> (received: bool)
        requires
            old(self).cursor() < usize::MAX,
        ensures
            received == fetched is Some,
            *final(x) == (match fetched {
                Some(frame) => frame,
                None => *old(x),
            }),
            final(self).cursor() == old(self).cursor() + 1,
            final(self).details() == old(self).details(),
            !final(self).inspected(),
    {
        self.frame_idx = self.frame_idx + 1;
        self.inspected = false;
        if let Some(frame) = fetched {
            *x = frame;
            true
        } else {
            false
        }
    }

    /// Whether the frame at the cursor already has rows of `stride` samples
    /// and at least `alloc_height` rows. `fetched` is the outcome of fetching
    /// that frame; the cursor stays where it is. It may be asked once for
    /// each place of the cursor.
    pub fn stride_matches(
        &mut self,
        fetched: Option<RawPlane<'_>>,
        pixel: PixelType,
        stride: usize,
        alloc_height: usize,
    ) -> (matches: bool)
        requires
            !old(self).inspected(),
        ensures
            matches == (fetched matches Some(native) && layout_satisfies(native@, pixel, stride, alloc_height)),
            final(self).inspected(),
            final(self).cursor() == old(self).cursor(),
            final(self).details() == old(self).details(),
    {
        self.inspected = true;
        match fetched {
            Some(native) => layout_matches(native, pixel, stride, alloc_height),
            None => false,
        }
    }

    /// A view of a frame with the geometry asked for: the frame's own memory
    /// where `strict` is off or its layout meets the request, else a copy,
    /// made in `alloc` where one is given.
    pub fn get_frame_ref<'a>(
        native: RawPlane<'a>,
        pixel: PixelType,
        height: usize,
        width: usize,
        stride: usize,
        alloc_height: usize,
        strict: bool,
        alloc: Option<&'a mut Plane>,
    ) -> (view: FrameView<'a>)
        requires
            PlaneConfig::spec_luma(width, height, stride, alloc_height).byte_len(pixel) <= usize::MAX,
        ensures
            view@ == frame_ref_view(
                native@,
                layout_satisfies(native@, pixel, stride, alloc_height),
                pixel,
                PlaneConfig::spec_luma(width, height, stride, alloc_height),
                strict,
                alloc is Some,
            ),
            alloc matches Some(buffer) ==> if strict && !layout_satisfies(native@, pixel, stride, alloc_height) {
                final(buffer).is_copy_of(native@, pixel, PlaneConfig::spec_luma(width, height, stride, alloc_height))
            } else {
                *final(buffer) == *buffer
            },
    {
        let satisfied = layout_matches(native, pixel, stride, alloc_height);
        frame_ref(native, satisfied, pixel, height, width, stride, alloc_height, strict, alloc)
    }

    /// A copy of a frame with the geometry asked for: in `alloc` where one is
    /// given, and then nothing is returned; else in a fresh plane.
    pub fn make_copy(
        native: RawPlane<'_>,
        pixel: PixelType,
        height: usize,
        width: usize,
        stride: usize,
        alloc_height: usize,
        alloc: Option<&mut Plane>,
    ) -> (copy: Option<Plane>)
        requires
            PlaneConfig::spec_luma(width, height, stride, alloc_height).byte_len(pixel) <= usize::MAX,
        ensures
            match alloc {
                Some(buffer) => copy is None && final(buffer).is_copy_of(
                    native@,
                    pixel,
                    PlaneConfig::spec_luma(width, height, stride, alloc_height),
                ),
                None => copy matches Some(plane) && plane.is_copy_of(
                    native@,
                    pixel,
                    PlaneConfig::spec_luma(width, height, stride, alloc_height),
                ),
            },
    {
        copy_frame(native, pixel, height, width, stride, alloc_height, alloc)
    }
}

} // verus!
