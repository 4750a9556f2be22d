//! The vocabulary that the decoder backends and the analysis share: the stream
//! descriptor, plane geometry, frame views, and the contract a backend meets.

use vstd::prelude::*;
use vstd::slice::slice_subrange;
use crate::frame::{copied_data, NativeLayout, Plane, PlaneRef, RawPlane};

verus! {

/// Chroma subsampling of a stream.
#[derive(Clone, Copy, Debug, PartialEq, Eq, Structural)]
pub enum ChromaSampling {
    /// Both vertically and horizontally subsampled.
    Cs420,
    /// Horizontally subsampled.
    Cs422,
    /// Not subsampled.
    Cs444,
    /// Monochrome.
    Cs400,
}

/// Where the chroma samples sit relative to the luma samples.
#[derive(Clone, Copy, Debug, PartialEq, Eq, Structural)]
pub enum ChromaSamplePosition {
    /// The source video transfer function must be signaled outside the stream.
    Unknown,
    /// Horizontally co-located with (0, 0) luma sample, vertically positioned
    /// in the middle between two luma samples.
    Vertical,
    /// Co-located with (0, 0) luma sample.
    Colocated,
}

/// A rational number.
#[derive(Clone, Copy, Debug, PartialEq, Eq, Structural)]
pub struct Rational {
    /// Numerator.
    pub num: u64,
    /// Denominator.
    pub den: u64,
}

impl Rational {
    /// The rational `num / den`.
    pub fn new(num: u64, den: u64) -> (r: Self)
        ensures
            r.num == num,
            r.den == den,
    {
        Rational { num, den }
    }
}

/// What a decoder reports about its stream. It is fixed once the decoder is
/// set up.
#[derive(Clone, Copy, Debug, PartialEq, Eq, Structural)]
pub struct VideoDetails {
    /// Width of the luma plane in pixels.
    pub width: usize,
    /// Height of the luma plane in pixels.
    pub height: usize,
    /// Bits per sample.
    pub bit_depth: usize,
    /// Chroma subsampling.
    pub chroma_sampling: ChromaSampling,
    /// Chroma sample position.
    pub chroma_sample_position: ChromaSamplePosition,
    /// The duration of one frame, in seconds.
    pub time_base: Rational,
    /// Padding round the luma plane, in pixels.
    pub luma_padding: usize,
}

impl Default for VideoDetails {
    fn default() -> (details: Self)
        ensures
            details == (VideoDetails {
                width: 640,
                height: 480,
                bit_depth: 8,
                chroma_sampling: ChromaSampling::Cs420,
                chroma_sample_position: ChromaSamplePosition::Unknown,
                time_base: Rational { num: 30, den: 1 },
                luma_padding: 0,
            }),
    {
        VideoDetails {
            width: 640,
            height: 480,
            bit_depth: 8,
            chroma_sampling: ChromaSampling::Cs420,
            chroma_sample_position: ChromaSamplePosition::Unknown,
            time_base: Rational { num: 30, den: 1 },
            luma_padding: 0,
        }
    }
}

/// The storage unit of one sample.
#[derive(Clone, Copy, Debug, PartialEq, Eq, Structural)]
pub enum PixelType {
    /// One byte per sample.
    U8,
    /// Two bytes per sample, the low byte first.
    U16,
}

impl PixelType {
    /// Bytes that one sample takes.
    pub open spec fn spec_bytes(self) -> usize {
        match self {
            PixelType::U8 => 1,
            PixelType::U16 => 2,
        }
    }

    /// Bytes that one sample takes.
    #[verifier::when_used_as_spec(spec_bytes)]
    pub fn bytes(self) -> (n: usize)
        ensures
            n == self.spec_bytes(),
    {
        match self {
            PixelType::U8 => 1,
            PixelType::U16 => 2,
        }
    }

    /// The storage unit that holds samples of `bit_depth` bits: one byte up to
    /// eight bits, two bytes above.
    pub open spec fn spec_for_bit_depth(bit_depth: usize) -> Self {
        if bit_depth <= 8 {
            PixelType::U8
        } else {
            PixelType::U16
        }
    }

    /// The storage unit that holds samples of `bit_depth` bits: one byte up to
    /// eight bits, two bytes above.
    #[verifier::when_used_as_spec(spec_for_bit_depth)]
    pub fn for_bit_depth(bit_depth: usize) -> (pixel: Self)
        ensures
            pixel == Self::spec_for_bit_depth(bit_depth),
    {
        if bit_depth <= 8 {
            PixelType::U8
        } else {
            PixelType::U16
        }
    }
}

/// Geometry of one plane of samples.
#[derive(Clone, Copy, Debug, PartialEq, Eq, Structural)]
pub struct PlaneConfig {
    /// Samples per row of the backing buffer.
    pub stride: usize,
    /// Rows that back the buffer.
    pub alloc_height: usize,
    /// Width in pixels.
    pub width: usize,
    /// Height in pixels.
    pub height: usize,
    /// Decimator along the X axis.
    pub xdec: usize,
    /// Decimator along the Y axis.
    pub ydec: usize,
    /// Number of padding pixels on the right.
    pub xpad: usize,
    /// Number of padding pixels on the bottom.
    pub ypad: usize,
    /// X where the data starts.
    pub xorigin: usize,
    /// Y where the data starts.
    pub yorigin: usize,
}

impl PlaneConfig {
    /// The geometry of a luma plane: the four measures as given, no
    /// decimation, no padding, the data starting at the first sample.
    pub open spec fn spec_luma(width: usize, height: usize, stride: usize, alloc_height: usize) -> Self {
        PlaneConfig {
            stride,
            alloc_height,
            width,
            height,
            xdec: 0,
            ydec: 0,
            xpad: 0,
            ypad: 0,
            xorigin: 0,
            yorigin: 0,
        }
    }

    /// The geometry of a luma plane: the four measures as given, no
    /// decimation, no padding, the data starting at the first sample.
    #[verifier::when_used_as_spec(spec_luma)]
    pub fn luma(width: usize, height: usize, stride: usize, alloc_height: usize) -> (cfg: Self)
        ensures
            cfg == Self::spec_luma(width, height, stride, alloc_height),
    {
        PlaneConfig {
            stride,
            alloc_height,
            width,
            height,
            xdec: 0,
            ydec: 0,
            xpad: 0,
            ypad: 0,
            xorigin: 0,
            yorigin: 0,
        }
    }

    /// The geometry of a plane that holds nothing: every measure is zero.
    pub open spec fn spec_empty() -> Self {
        Self::spec_luma(0, 0, 0, 0)
    }

    /// The geometry of a plane that holds nothing: every measure is zero.
    #[verifier::when_used_as_spec(spec_empty)]
    pub fn empty() -> (cfg: Self)
        ensures
            cfg == Self::spec_empty(),
    {
        Self::luma(0, 0, 0, 0)
    }

    /// Bytes that a buffer of this geometry takes with samples of `pixel`.
    pub open spec fn byte_len(self, pixel: PixelType) -> nat {
        (self.stride * self.alloc_height * pixel.spec_bytes()) as nat
    }
}

/// A frame as the analysis sees it, as a mathematical value: its luma plane,
/// and whether the bytes lie in memory that the view does not own.
pub struct FrameData {
    /// The bytes are borrowed, not owned.
    pub aliased: bool,
    /// Geometry of the luma plane.
    pub cfg: PlaneConfig,
    /// Storage unit of the samples.
    pub pixel: PixelType,
    /// The bytes of the luma plane, row after row.
    pub data: Seq<u8>,
}

/// A decoded frame handed to the analysis: either a view into memory that a
/// backend or a caller owns, or a buffer of its own. Only the luma plane
/// carries samples; the two chroma planes are empty.
#[derive(Debug)]
pub enum FrameView<'a> {
    /// The luma plane lies in memory that someone else owns. The borrow ends
    /// before that memory can be written again.
    Ref(PlaneRef<'a>),
    /// Owned frame.
    Owned(Plane),
}

impl<'a> View for FrameView<'a> {
    type V = FrameData;

    open spec fn view(&self) -> FrameData {
        match self {
            FrameView::Ref(plane) => FrameData {
                aliased: true,
                cfg: plane.cfg,
                pixel: plane.pixel,
                data: plane.data@,
            },
            FrameView::Owned(plane) => FrameData {
                aliased: false,
                cfg: plane.cfg,
                pixel: plane.pixel,
                data: plane.data@,
            },
        }
    }
}

impl<'a> FrameView<'a> {
    /// Whether the view borrows its bytes.
    pub fn is_aliased(&self) -> (aliased: bool)
        ensures
            aliased == self@.aliased,
    {
        match self {
            FrameView::Ref(_) => true,
            FrameView::Owned(_) => false,
        }
    }

    /// Storage unit of the samples.
    pub fn pixel(&self) -> (pixel: PixelType)
        ensures
            pixel == self@.pixel,
    {
        match self {
            FrameView::Ref(plane) => plane.pixel,
            FrameView::Owned(plane) => plane.pixel,
        }
    }

    /// Geometry of plane `index`: that of the luma plane for 0, and that of an
    /// empty plane for the two chroma planes.
    pub fn plane_config(&self, index: usize) -> (cfg: PlaneConfig)
        requires
            index < 3,
        ensures
            cfg == (if index == 0 { self@.cfg } else { PlaneConfig::spec_empty() }),
    {
        if index == 0 {
            match self {
                FrameView::Ref(plane) => plane.cfg,
                FrameView::Owned(plane) => plane.cfg,
            }
        } else {
            PlaneConfig::empty()
        }
    }

    /// The bytes of plane `index`: those of the luma plane for 0, none for
    /// the two chroma planes.
    pub fn plane_data(&self, index: usize) -> (data: &[u8])
        requires
            index < 3,
        ensures
            data@ == (if index == 0 { self@.data } else { Seq::<u8>::empty() }),
    {
        let luma: &[u8] = match self {
            FrameView::Ref(plane) => plane.data,
            FrameView::Owned(plane) => plane.data.as_slice(),
        };
        if index == 0 {
            luma
        } else {
            slice_subrange(luma, 0, 0)
        }
    }
}

/// Bytes of backend memory that a view of `height` rows of `stride` samples
/// shows: as many as the rows take, and no more than the backend holds.
pub open spec fn aliased_len(native_len: nat, pixel: PixelType, stride: nat, height: nat) -> nat {
    let asked = stride * height * pixel.spec_bytes();
    if asked <= native_len {
        asked as nat
    } else {
        native_len
    }
}

/// The view that shows backend memory itself.
pub open spec fn aliased_view(native: NativeLayout, pixel: PixelType, cfg: PlaneConfig) -> FrameData {
    FrameData {
        aliased: true,
        cfg,
        pixel,
        data: native.data.take(aliased_len(native.data.len(), pixel, cfg.stride as nat, cfg.height as nat) as int),
    }
}

/// The view that shows a copy of backend memory; `aliased` says whether the
/// copy lies in a buffer of the caller's.
pub open spec fn copied_view(native: NativeLayout, pixel: PixelType, cfg: PlaneConfig, aliased: bool) -> FrameData {
    FrameData { aliased, cfg, pixel, data: copied_data(native, pixel, cfg.stride as nat, cfg.alloc_height as nat) }
}

/// What a frame reference shows. Where the layout need not be exact, or the
/// backend's layout meets the request, it is backend memory itself; else a
/// copy with the geometry asked for, in the caller's buffer where one was
/// given and in a fresh one where none was.
pub open spec fn frame_ref_view(
    native: NativeLayout,
    satisfied: bool,
    pixel: PixelType,
    cfg: PlaneConfig,
    strict: bool,
    caller_buffer: bool,
) -> FrameData {
    if !strict || satisfied {
        aliased_view(native, pixel, cfg)
    } else {
        copied_view(native, pixel, cfg, caller_buffer)
    }
}

/// Whether rows of `native.stride` bytes, `native.height` of them, are rows
/// of exactly `stride` samples and at least `alloc_height` rows.
pub open spec fn layout_satisfies(native: NativeLayout, pixel: PixelType, stride: usize, alloc_height: usize) -> bool {
    native.stride == stride * pixel.spec_bytes() && native.height >= alloc_height
}

/// Whether the layout of `native` meets a request for rows of `stride`
/// samples and at least `alloc_height` rows.
pub fn layout_matches(native: RawPlane<'_>, pixel: PixelType, stride: usize, alloc_height: usize) -> (matches: bool)
    ensures
        matches == layout_satisfies(native@, pixel, stride, alloc_height),
{
    match stride.checked_mul(pixel.bytes()) {
        Some(stride_bytes) => native.stride == stride_bytes && native.height >= alloc_height,
        None => false,
    }
}

/// A copy of backend memory with the geometry asked for: in `alloc` where one
/// is given, and then nothing is returned; else in a fresh plane, which is
/// returned.
pub fn copy_frame(
    native: RawPlane<'_>,
    pixel: PixelType,
    height: usize,
    width: usize,
    stride: usize,
    alloc_height: usize,
    alloc: Option<&mut Plane>,
) -> (copy: Option<Plane>)
    requires
        PlaneConfig::spec_luma(width, height, stride, alloc_height).byte_len(pixel) <= usize::MAX,
    ensures
        match alloc {
            Some(buffer) => copy is None && final(buffer).is_copy_of(
                native@,
                pixel,
                PlaneConfig::spec_luma(width, height, stride, alloc_height),
            ),
            None => copy matches Some(plane) && plane.is_copy_of(
                native@,
                pixel,
                PlaneConfig::spec_luma(width, height, stride, alloc_height),
            ),
        },
{
    let cfg = PlaneConfig::luma(width, height, stride, alloc_height);
    match alloc {
        Some(buffer) => {
            buffer.refill(native, pixel, cfg);
            None
        },
        None => Some(Plane::copy_of(native, pixel, cfg)),
    }
}

/// Bytes of backend memory that a view of `height` rows of `stride` samples
/// shows.
fn shown_len(native_len: usize, pixel: PixelType, stride: usize, height: usize) -> (len: usize)
    ensures
        len == aliased_len(native_len as nat, pixel, stride as nat, height as nat),
{
    match stride.checked_mul(height) {
        Some(samples) => match samples.checked_mul(pixel.bytes()) {
            Some(asked) => if asked <= native_len {
                asked
            } else {
                native_len
            },
            None => native_len,
        },
        None => {
            assert(stride * height * pixel.spec_bytes() >= stride * height) by (nonlinear_arith)
                requires
                    pixel.spec_bytes() >= 1,
            ;
            native_len
        },
    }
}

/// A view of backend memory with the geometry asked for, where `satisfied`
/// says whether the backend's layout meets the request: the memory itself
/// where `strict` is off or the layout meets the request, else a copy, made
/// in `alloc` where one is given and in a buffer of the view's own where
/// none is. The view never shows more of the backend's memory than the rows
/// asked for take.
pub fn frame_ref<'a>(
    native: RawPlane<'a>,
    satisfied: bool,
    pixel: PixelType,
    height: usize,
    width: usize,
    stride: usize,
    alloc_height: usize,
    strict: bool,
    alloc: Option<&'a mut Plane>,
) -> (view: FrameView<'a>)
    requires
        PlaneConfig::spec_luma(width, height, stride, alloc_height).byte_len(pixel) <= usize::MAX,
    ensures
        view@ == frame_ref_view(
            native@,
            satisfied,
            pixel,
            PlaneConfig::spec_luma(width, height, stride, alloc_height),
            strict,
            alloc is Some,
        ),
        alloc matches Some(buffer) ==> if strict && !satisfied {
            final(buffer).is_copy_of(native@, pixel, PlaneConfig::spec_luma(width, height, stride, alloc_height))
        } else {
            *final(buffer) == *buffer
        },
{
    let cfg = PlaneConfig::luma(width, height, stride, alloc_height);
    if !strict || satisfied {
        let shown = shown_len(native.data.len(), pixel, stride, height);
        FrameView::Ref(PlaneRef { cfg, pixel, data: slice_subrange(native.data, 0, shown) })
    } else {
        match alloc {
            Some(buffer) => {
                buffer.refill(native, pixel, cfg);
                FrameView::Ref(PlaneRef { cfg, pixel, data: buffer.data.as_slice() })
            },
            None => FrameView::Owned(Plane::copy_of(native, pixel, cfg)),
        }
    }
}

/// What every decoder backend provides. `F` is the backend's own frame
/// handle.
///
/// The stream a decoder reads is described by `upcoming`, the frames it has
/// yet to yield. Reaching the end of the stream is no failure: it is a `None`
/// or a `false`. A fault of the codec is no outcome of these operations.
///
/// The specification functions say what the stream and the frames of a
/// backend are; the contracts of the operations are stated over them. A
/// backend that is verified defines them.
pub trait Decoder<F> {
    /// The stream descriptor. It never changes.
    open spec fn details(&self) -> VideoDetails {
        arbitrary()
    }

    /// The frames the stream has yet to yield, the next one first.
    open spec fn upcoming(&self) -> Seq<F> {
        arbitrary()
    }

    /// Whether the layout of the next frame has been inspected already.
    open spec fn inspected(&self) -> bool {
        arbitrary()
    }

    /// The backend memory behind the luma plane of a frame.
    open spec fn native(frame: &F) -> NativeLayout {
        arbitrary()
    }

    /// Whether the backend's layout of a frame meets a request for rows of
    /// `stride` samples and at least `alloc_height` rows.
    open spec fn satisfies(frame: &F, pixel: PixelType, stride: usize, alloc_height: usize) -> bool {
        arbitrary()
    }

    /// A view of a frame with the geometry asked for: backend memory itself
    /// where `strict` is off or the backend's layout meets the request, else a
    /// copy, made in `alloc` where one is given.
    fn get_frame_ref<'a>(
        frame: &'a F,
        pixel: PixelType,
        height: usize,
        width: usize,
        stride: usize,
        alloc_height: usize,
        strict: bool,
        alloc: Option<&'a mut Plane>,
    ) -> (view: FrameView<'a>)
        requires
            PlaneConfig::spec_luma(width, height, stride, alloc_height).byte_len(pixel) <= usize::MAX,
        ensures
            view@ == frame_ref_view(
                Self::native(frame),
                Self::satisfies(frame, pixel, stride, alloc_height),
                pixel,
                PlaneConfig::spec_luma(width, height, stride, alloc_height),
                strict,
                alloc is Some,
            ),
            alloc matches Some(buffer) ==> if strict && !Self::satisfies(frame, pixel, stride, alloc_height) {
                final(buffer).is_copy_of(
                    Self::native(frame),
                    pixel,
                    PlaneConfig::spec_luma(width, height, stride, alloc_height),
                )
            } else {
                *final(buffer) == *buffer
            },
    ;

    /// Whether the next frame already has rows of `stride` samples and at
    /// least `alloc_height` rows, so that a view of it needs no copy. It may
    /// be asked once for each frame, before the frame is received.
    fn stride_matches(&mut self, pixel: PixelType, stride: usize, alloc_height: usize) -> (matches: bool)
        requires
            !old(self).inspected(),
        ensures
            final(self).inspected(),
            final(self).upcoming() == old(self).upcoming(),
            final(self).details() == old(self).details(),
            old(self).upcoming().len() > 0 ==> matches == Self::satisfies(
                &old(self).upcoming()[0],
                pixel,
                stride,
                alloc_height,
            ),
    ;

    /// A copy of a frame with the geometry asked for: in `alloc` where one is
    /// given, and then nothing is returned; else in a fresh plane, which is
    /// returned.
    fn make_copy(
        frame: &F,
        pixel: PixelType,
        height: usize,
        width: usize,
        stride: usize,
        alloc_height: usize,
        alloc: Option<&mut Plane>,
    ) -> (copy: Option<Plane>)
        requires
            PlaneConfig::spec_luma(width, height, stride, alloc_height).byte_len(pixel) <= usize::MAX,
        ensures
            match alloc {
                Some(buffer) => copy is None && final(buffer).is_copy_of(
                    Self::native(frame),
                    pixel,
                    PlaneConfig::spec_luma(width, height, stride, alloc_height),
                ),
                None => copy matches Some(plane) && plane.is_copy_of(
                    Self::native(frame),
                    pixel,
                    PlaneConfig::spec_luma(width, height, stride, alloc_height),
                ),
            },
    ;

    /// The next frame of the stream in a handle of its own, or `None` at the
    /// end of the stream.
    fn receive_frame_init(&mut self, stride: usize, alloc_height: usize) -> (frame: Option<F>)
        ensures
            final(self).details() == old(self).details(),
            !final(self).inspected(),
            match frame {
                Some(f) => old(self).upcoming().len() > 0 && f == old(self).upcoming()[0]
                    && final(self).upcoming() == old(self).upcoming().skip(1),
                None => old(self).upcoming().len() == 0 && final(self).upcoming() == old(self).upcoming(),
            },
    ;

    /// Decodes the next frame of the stream into a handle that exists
    /// already, or returns `false` at the end of the stream.
    fn receive_frame(&mut self, alloc: &mut F) -> (received: bool)
        ensures
            final(self).details() == old(self).details(),
            !final(self).inspected(),
            if received {
                old(self).upcoming().len() > 0 && *final(alloc) == old(self).upcoming()[0]
                    && final(self).upcoming() == old(self).upcoming().skip(1)
            } else {
                old(self).upcoming().len() == 0 && final(self).upcoming() == old(self).upcoming()
            },
    ;

    /// Get the Video Details
    fn get_video_details(&self) -> (details: VideoDetails)
        ensures
            details == self.details(),
    ;

    /// Get the Bit Depth
    fn get_bit_depth(&self) -> (bit_depth: usize)
        ensures
            bit_depth == self.details().bit_depth,
    ;
}

/// The bit depth that a decoder reports is the bit depth of the details it
/// reports.
pub proof fn lemma_bit_depth_is_that_of_details<F, D: Decoder<F>>(dec: &D, bit_depth: usize, details: VideoDetails)
    requires
        call_ensures(D::get_bit_depth, (dec,), bit_depth),
        call_ensures(D::get_video_details, (dec,), details),
    ensures
        bit_depth == details.bit_depth,
{
}

} // verus!
