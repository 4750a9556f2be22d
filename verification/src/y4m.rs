//! The YUV4MPEG2 backend: what a stream header says about the video, and the
//! luma plane of a frame that was read.

use vstd::prelude::*;
use crate::decode::{
    copy_frame, frame_ref, layout_matches, layout_satisfies, ChromaSamplePosition, ChromaSampling, Decoder, FrameView,
    PixelType, Rational, VideoDetails,
};
use crate::frame::{NativeLayout, Plane, RawPlane};

verus! {

/// Colorspace (color model/pixel format) of a YUV4MPEG2 stream.
#[derive(Clone, Copy, Debug, PartialEq, Eq, Structural)]
pub enum Colorspace {
    /// Grayscale only, 8-bit.
    Cmono,
    /// 4:2:0 with coincident chroma planes, 8-bit.
    C420,
    /// 4:2:0 with coincident chroma planes, 10-bit.
    C420p10,
    /// 4:2:0 with coincident chroma planes, 12-bit.
    C420p12,
    /// 4:2:0 with biaxially-displaced chroma planes, 8-bit.
    C420jpeg,
    /// 4:2:0 with vertically-displaced chroma planes, 8-bit.
    C420paldv,
    /// Found in some files. Same as `C420`.
    C420mpeg2,
    /// 4:2:2, 8-bit.
    C422,
    /// 4:2:2, 10-bit.
    C422p10,
    /// 4:2:2, 12-bit.
    C422p12,
    /// 4:4:4, 8-bit.
    C444,
    /// 4:4:4, 10-bit.
    C444p10,
    /// 4:4:4, 12-bit.
    C444p12,
}

impl Colorspace {
    /// The bit depth per sample.
    pub open spec fn spec_bit_depth(self) -> usize {
        match self {
            Colorspace::C420p10 | Colorspace::C422p10 | Colorspace::C444p10 => 10,
            Colorspace::C420p12 | Colorspace::C422p12 | Colorspace::C444p12 => 12,
            _ => 8,
        }
    }

    /// Return the bit depth per sample
    #[verifier::when_used_as_spec(spec_bit_depth)]
    pub fn get_bit_depth(self) -> (bit_depth: usize)
        ensures
            bit_depth == self.spec_bit_depth(),
    {
        match self {
            Colorspace::Cmono
            | Colorspace::C420
            | Colorspace::C422
            | Colorspace::C444
            | Colorspace::C420jpeg
            | Colorspace::C420paldv
            | Colorspace::C420mpeg2 => 8,
            Colorspace::C420p10 | Colorspace::C422p10 | Colorspace::C444p10 => 10,
            Colorspace::C420p12 | Colorspace::C422p12 | Colorspace::C444p12 => 12,
        }
    }

    /// Return the number of bytes in a sample
    pub fn get_bytes_per_sample(self) -> (bytes: usize)
        ensures
            bytes == PixelType::spec_for_bit_depth(self.spec_bit_depth()).spec_bytes(),
    {
        if self.get_bit_depth() <= 8 {
            1
        } else {
            2
        }
    }
}

/// The chroma subsampling and the chroma sample position that a colorspace
/// stands for.
pub open spec fn spec_map_y4m_color_space(color_space: Colorspace) -> (ChromaSampling, ChromaSamplePosition) {
    match color_space {
        Colorspace::Cmono => (ChromaSampling::Cs400, ChromaSamplePosition::Unknown),
        Colorspace::C420jpeg | Colorspace::C420paldv => (ChromaSampling::Cs420, ChromaSamplePosition::Unknown),
        Colorspace::C420mpeg2 => (ChromaSampling::Cs420, ChromaSamplePosition::Vertical),
        Colorspace::C420 | Colorspace::C420p10 | Colorspace::C420p12 => (
            ChromaSampling::Cs420,
            ChromaSamplePosition::Colocated,
        ),
        Colorspace::C422 | Colorspace::C422p10 | Colorspace::C422p12 => (
            ChromaSampling::Cs422,
            ChromaSamplePosition::Colocated,
        ),
        Colorspace::C444 | Colorspace::C444p10 | Colorspace::C444p12 => (
            ChromaSampling::Cs444,
            ChromaSamplePosition::Colocated,
        ),
    }
}

/// The chroma subsampling and the chroma sample position that a colorspace
/// stands for.
#[verifier::when_used_as_spec(spec_map_y4m_color_space)]
pub fn map_y4m_color_space(color_space: Colorspace) -> (mapped: (ChromaSampling, ChromaSamplePosition))
    ensures
        mapped == spec_map_y4m_color_space(color_space),
{
    match color_space {
        Colorspace::Cmono => (ChromaSampling::Cs400, ChromaSamplePosition::Unknown),
        Colorspace::C420jpeg | Colorspace::C420paldv => (ChromaSampling::Cs420, ChromaSamplePosition::Unknown),
        Colorspace::C420mpeg2 => (ChromaSampling::Cs420, ChromaSamplePosition::Vertical),
        Colorspace::C420 | Colorspace::C420p10 | Colorspace::C420p12 => (
            ChromaSampling::Cs420,
            ChromaSamplePosition::Colocated,
        ),
        Colorspace::C422 | Colorspace::C422p10 | Colorspace::C422p12 => (
            ChromaSampling::Cs422,
            ChromaSamplePosition::Colocated,
        ),
        Colorspace::C444 | Colorspace::C444p10 | Colorspace::C444p12 => (
            ChromaSampling::Cs444,
            ChromaSamplePosition::Colocated,
        ),
    }
}

/// A frame rate as a stream header gives it.
#[derive(Clone, Copy, Debug, PartialEq, Eq, Structural)]
pub struct Ratio {
    /// Numerator.
    pub num: usize,
    /// Denominator.
    pub den: usize,
}

/// The descriptor of a stream whose header gives these values: the time base
/// is the inverse of the frame rate.
pub fn get_video_details(width: usize, height: usize, color_space: Colorspace, framerate: Ratio) -> (details:
    VideoDetails)
    ensures
        details == (VideoDetails {
            width,
            height,
            bit_depth: color_space.spec_bit_depth(),
            chroma_sampling: spec_map_y4m_color_space(color_space).0,
            chroma_sample_position: spec_map_y4m_color_space(color_space).1,
            time_base: Rational { num: framerate.den as u64, den: framerate.num as u64 },
            luma_padding: 0,
        }),
{
    let bit_depth = color_space.get_bit_depth();
    let (chroma_sampling, chroma_sample_position) = map_y4m_color_space(color_space);
    let time_base = Rational::new(framerate.den as u64, framerate.num as u64);
    VideoDetails { width, height, bit_depth, chroma_sampling, chroma_sample_position, time_base, luma_padding: 0 }
}

/// The luma plane of one frame of a stream, as it was read: rows of exactly
/// as many bytes as the samples of a row take.
#[derive(Clone, Debug, PartialEq, Eq)]
pub struct Y4mFrame {
    /// Bytes of one row.
    pub stride: usize,
    /// Rows of the frame.
    pub height: usize,
    /// The bytes of the plane, row after row.
    pub data: Vec<u8>,
}

impl Y4mFrame {
    /// The memory of the frame.
    pub fn raw(&self) -> (plane: RawPlane<'_>)
        ensures
            plane@ == self@,
    {
        RawPlane { stride: self.stride, height: self.height, data: self.data.as_slice() }
    }
}

impl View for Y4mFrame {
    type V = NativeLayout;

    open spec fn view(&self) -> NativeLayout {
        NativeLayout { stride: self.stride as nat, height: self.height as nat, data: self.data@ }
    }
}

/// The frame that the outcome of reading the luma plane of the next frame
/// stands for, for a stream with descriptor `cfg`: the plane that was read,
/// with rows of as many bytes as the samples of a row take, or the error the
/// reading failed with.
pub fn read_video_frame<E>(y_plane: Result<Vec<u8>, E>, cfg: &VideoDetails) -> (frame: Result<Y4mFrame, E>)
    requires
        cfg.width * PixelType::spec_for_bit_depth(cfg.bit_depth).spec_bytes() <= usize::MAX,
    ensures
        match y_plane {
            Ok(data) => frame == Ok::<Y4mFrame, E>(
                (Y4mFrame {
                    stride: (cfg.width * PixelType::spec_for_bit_depth(cfg.bit_depth).spec_bytes()) as usize,
                    height: cfg.height,
                    data,
                }),
            ),
            Err(error) => frame == Err::<Y4mFrame, E>(error),
        },
{
    match y_plane {
        Ok(data) => {
            let bytes = PixelType::for_bit_depth(cfg.bit_depth).bytes();
            Ok(Y4mFrame { stride: cfg.width * bytes, height: cfg.height, data })
        },
        Err(error) => Err(error),
    }
}

/// A decoder over the frames of a stream that have been read into memory.
#[derive(Clone, Debug)]
pub struct Y4mDecoder {
    video_details: VideoDetails,
    frames: Vec<Y4mFrame>,
    inspected: bool,
}

impl Y4mDecoder {
    /// A decoder that yields `frames` in order, for a stream with the given
    /// descriptor.
    pub fn new(video_details: VideoDetails, frames: Vec<Y4mFrame>) -> (decoder: Self)
        ensures
            decoder.details() == video_details,
            decoder.upcoming() == frames@,
            !decoder.inspected(),
    {
        Y4mDecoder { video_details, frames, inspected: false }
    }
}

impl Decoder<Y4mFrame> for Y4mDecoder {
    closed spec fn details(&self) -> VideoDetails {
        self.video_details
    }

    closed spec fn upcoming(&self) -> Seq<Y4mFrame> {
        self.frames@
    }

    closed spec fn inspected(&self) -> bool {
        self.inspected
    }

    open spec fn native(frame: &Y4mFrame) -> NativeLayout {
        frame@
    }

    open spec fn satisfies(frame: &Y4mFrame, pixel: PixelType, stride: usize, alloc_height: usize) -> bool {
        layout_satisfies(frame@, pixel, stride, alloc_height)
    }

    fn get_frame_ref<'a>(
        frame: &'a Y4mFrame,
        pixel: PixelType,
        height: usize,
        width: usize,
        stride: usize,
        alloc_height: usize,
        strict: bool,
        alloc: Option<&'a mut Plane>,
    ) -> (view: FrameView<'a>) {
        let native = frame.raw();
        let satisfied = layout_matches(native, pixel, stride, alloc_height);
        frame_ref(native, satisfied, pixel, height, width, stride, alloc_height, strict, alloc)
    }

    fn stride_matches(&mut self, pixel: PixelType, stride: usize, alloc_height: usize) -> (matches: bool) {
        self.inspected = true;
        if self.frames.len() == 0 {
            false
        } else {
            layout_matches(self.frames[0].raw(), pixel, stride, alloc_height)
        }
    }

    fn make_copy(
        frame: &Y4mFrame,
        pixel: PixelType,
        height: usize,
        width: usize,
        stride: usize,
        alloc_height: usize,
        alloc: Option<&mut Plane>,
    ) -> (copy: Option<Plane>) {
        copy_frame(frame.raw(), pixel, height, width, stride, alloc_height, alloc)
    }

    fn receive_frame_init(&mut self, stride: usize, alloc_height: usize) -> (frame: Option<Y4mFrame>) {
        self.inspected = false;
        if self.frames.len() == 0 {
            None
        } else {
            let frame = self.frames.remove(0);
            Some(frame)
        }
    }

    fn receive_frame(&mut self, alloc: &mut Y4mFrame) -> (received: bool) {
        self.inspected = false;
        if self.frames.len() == 0 {
            false
        } else {
            *alloc = self.frames.remove(0);
            true
        }
    }

    fn get_video_details(&self) -> (details: VideoDetails) {
        self.video_details
    }

    fn get_bit_depth(&self) -> (bit_depth: usize) {
        self.video_details.bit_depth
    }
}

} // verus!
