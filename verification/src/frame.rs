//! Planes of samples: the memory a backend exposes, the buffers the library
//! owns, and the copy that carries one into the other when their row strides
//! differ.

use vstd::prelude::*;
use vstd::arithmetic::div_mod::lemma_fundamental_div_mod_converse;
use crate::decode::{PixelType, PlaneConfig};

verus! {

/// What a backend exposes of one decoded luma plane, as a mathematical value.
pub struct NativeLayout {
    /// Bytes from the start of one row to the start of the next.
    pub stride: nat,
    /// Rows the backend reports.
    pub height: nat,
    /// The bytes of the plane, row after row.
    pub data: Seq<u8>,
}

/// The memory that a backend exposes of one decoded luma plane.
#[derive(Clone, Copy, Debug)]
pub struct RawPlane<'a> {
    /// Bytes from the start of one row to the start of the next.
    pub stride: usize,
    /// Rows the backend reports.
    pub height: usize,
    /// The bytes of the plane, row after row.
    pub data: &'a [u8],
}

impl<'a> View for RawPlane<'a> {
    type V = NativeLayout;

    open spec fn view(&self) -> NativeLayout {
        NativeLayout { stride: self.stride as nat, height: self.height as nat, data: self.data@ }
    }
}

/// The byte at offset `b` of a row in which every sample has the mid-grey
/// value 128, the value a fresh plane is filled with.
pub open spec fn fill_byte(pixel: PixelType, b: int) -> u8 {
    if pixel == PixelType::U16 && b % 2 == 1 {
        0u8
    } else {
        128u8
    }
}

/// Whole rows that `len` bytes hold at `stride` bytes a row.
pub open spec fn source_rows(len: nat, stride: nat) -> nat {
    if stride == 0 {
        0
    } else {
        len / stride
    }
}

/// Bytes of each row that a copy carries over: as many whole samples as both
/// the source row and the target row hold.
pub open spec fn copied_row_bytes(source_stride: nat, pixel: PixelType, stride: nat) -> nat {
    let width = pixel.spec_bytes() as nat;
    if stride <= source_stride / width {
        stride * width
    } else {
        (source_stride / width) * width
    }
}

/// The byte at offset `b` of row `r` in a copy of `native` made with `stride`
/// samples a row.
pub open spec fn copied_byte(native: NativeLayout, pixel: PixelType, stride: nat, r: int, b: int) -> u8 {
    if r < source_rows(native.data.len(), native.stride) && b < copied_row_bytes(
        native.stride,
        pixel,
        stride,
    ) {
        native.data[r * native.stride + b]
    } else {
        fill_byte(pixel, b)
    }
}

/// The bytes of a copy of `native` into a buffer of `alloc_height` rows of
/// `stride` samples: the rows and columns that both hold carry the source's
/// bytes, every other sample is mid-grey.
pub open spec fn copied_data(native: NativeLayout, pixel: PixelType, stride: nat, alloc_height: nat) -> Seq<u8> {
    let row = stride * pixel.spec_bytes();
    Seq::new(
        (stride * alloc_height * pixel.spec_bytes()) as nat,
        |k: int| copied_byte(native, pixel, stride, k / row, k % row),
    )
}

/// A copy shows the picture of its source and nothing of what lies beside
/// it: where the source has the rows of the picture and rows long enough
/// for it, byte `k` of the sample in column `c` of row `r` of the picture is
/// that byte of the source, however much longer the rows of the source are.
pub proof fn lemma_copy_keeps_picture(native: NativeLayout, pixel: PixelType, cfg: PlaneConfig, r: int, c: int, k: int)
    requires
        cfg.width <= cfg.stride,
        cfg.height <= cfg.alloc_height,
        cfg.width * pixel.spec_bytes() <= native.stride,
        cfg.height * native.stride <= native.data.len(),
        0 <= r < cfg.height,
        0 <= c < cfg.width,
        0 <= k < pixel.spec_bytes(),
    ensures
        0 <= (r * cfg.stride + c) * pixel.spec_bytes() + k < copied_data(
            native,
            pixel,
            cfg.stride as nat,
            cfg.alloc_height as nat,
        ).len(),
        0 <= r * native.stride + c * pixel.spec_bytes() + k < native.data.len(),
        copied_data(native, pixel, cfg.stride as nat, cfg.alloc_height as nat)[(r * cfg.stride + c)
            * pixel.spec_bytes() + k] == native.data[r * native.stride + c * pixel.spec_bytes() + k],
{
    let width = pixel.spec_bytes() as int;
    let stride = cfg.stride as int;
    let row = stride * width;
    let b = c * width + k;
    let source = native.stride as int;
    let len = native.data.len() as int;
    assert(0 <= b < cfg.width * width && cfg.width * width <= row) by (nonlinear_arith)
        requires
            b == c * width + k,
            0 <= c < cfg.width,
            0 <= k < width,
            cfg.width <= stride,
            row == stride * width,
    ;
    assert((r * stride + c) * width + k == r * row + b) by (nonlinear_arith)
        requires
            row == stride * width,
            b == c * width + k,
    ;
    lemma_fundamental_div_mod_converse(r * row + b, row, r, b);
    assert(r * row + row <= cfg.alloc_height * row && cfg.alloc_height * row == stride * cfg.alloc_height * width)
        by (nonlinear_arith)
        requires
            0 <= r < cfg.alloc_height,
            row == stride * width,
            row >= 0,
    ;
    assert(len / source >= cfg.height && r * source + source <= len) by (nonlinear_arith)
        requires
            cfg.height * source <= len,
            0 <= r < cfg.height,
            source > 0,
    ;
    assert((source / width) * width >= cfg.width * width) by (nonlinear_arith)
        requires
            cfg.width * width <= source,
            width > 0,
            cfg.width >= 0,
    ;
}

/// A plane of samples in a buffer that the library owns.
#[derive(Clone, Debug, PartialEq, Eq)]
pub struct Plane {
    /// Geometry of the plane.
    pub cfg: PlaneConfig,
    /// Storage unit of its samples.
    pub pixel: PixelType,
    /// The bytes of the plane, row after row.
    pub data: Vec<u8>,
}

/// A plane of samples that lie in memory someone else owns.
#[derive(Clone, Copy, Debug)]
pub struct PlaneRef<'a> {
    /// Geometry of the plane.
    pub cfg: PlaneConfig,
    /// Storage unit of its samples.
    pub pixel: PixelType,
    /// The bytes of the plane, row after row.
    pub data: &'a [u8],
}

impl Plane {
    /// The buffer has exactly the bytes its geometry asks for.
    pub open spec fn well_formed(&self) -> bool {
        self.data@.len() == self.cfg.byte_len(self.pixel)
    }

    /// The plane is the copy of `native` with geometry `cfg`.
    pub open spec fn is_copy_of(&self, native: NativeLayout, pixel: PixelType, cfg: PlaneConfig) -> bool {
        &&& self.cfg == cfg
        &&& self.pixel == pixel
        &&& self.data@ == copied_data(native, pixel, cfg.stride as nat, cfg.alloc_height as nat)
    }

    /// A plane that holds nothing.
    pub fn empty(pixel: PixelType) -> (plane: Self)
        ensures
            plane.cfg == PlaneConfig::spec_empty(),
            plane.pixel == pixel,
            plane.data@.len() == 0,
            plane.well_formed(),
    {
        Plane { cfg: PlaneConfig::empty(), pixel, data: Vec::new() }
    }

    /// Makes the plane the copy of `source` with geometry `cfg`. The buffer is
    /// kept and rewritten from its first byte to its last.
    pub fn refill(&mut self, source: RawPlane<'_>, pixel: PixelType, cfg: PlaneConfig)
        requires
            cfg.byte_len(pixel) <= usize::MAX,
        ensures
            final(self).is_copy_of(source@, pixel, cfg),
            final(self).well_formed(),
    {
        self.cfg = cfg;
        self.pixel = pixel;
        copy_into(&mut self.data, source, pixel, cfg.stride, cfg.alloc_height);
    }

    /// A fresh plane that is the copy of `source` with geometry `cfg`.
    pub fn copy_of(source: RawPlane<'_>, pixel: PixelType, cfg: PlaneConfig) -> (plane: Self)
        requires
            cfg.byte_len(pixel) <= usize::MAX,
        ensures
            plane.is_copy_of(source@, pixel, cfg),
            plane.well_formed(),
    {
        let mut plane = Plane { cfg, pixel, data: Vec::new() };
        copy_into(&mut plane.data, source, pixel, cfg.stride, cfg.alloc_height);
        plane
    }
}

/// Rewrites `out` as the copy of `source` into `alloc_height` rows of `stride`
/// samples.
pub fn copy_into(out: &mut Vec<u8>, source: RawPlane<'_>, pixel: PixelType, stride: usize, alloc_height: usize)
    requires
        stride * alloc_height * pixel.spec_bytes() <= usize::MAX,
    ensures
        final(out)@ == copied_data(source@, pixel, stride as nat, alloc_height as nat),
{
    out.clear();
    if alloc_height == 0 || stride == 0 {
        assert(stride * alloc_height * pixel.spec_bytes() == 0) by (nonlinear_arith)
            requires
                alloc_height == 0 || stride == 0,
        ;
        return ;
    }
    let width: usize = pixel.bytes();
    assert(stride * width <= stride * alloc_height * width) by (nonlinear_arith)
        requires
            alloc_height >= 1,
            width >= 1,
    ;
    let row: usize = stride * width;
    assert(row >= 1) by (nonlinear_arith)
        requires
            row == stride * width,
            stride >= 1,
            width >= 1,
    ;
    let len: usize = source.data.len();
    let rows: usize = if source.stride == 0 {
        0
    } else {
        len / source.stride
    };
    let samples: usize = if stride <= source.stride / width {
        stride
    } else {
        source.stride / width
    };
    assert(samples * width <= source.stride && samples * width <= row) by (nonlinear_arith)
        requires
            samples <= source.stride / width,
            samples <= stride,
            row == stride * width,
            width >= 1,
    ;
    let carried: usize = samples * width;
    assert(row * alloc_height == stride * alloc_height * width) by (nonlinear_arith)
        requires
            row == stride * width,
    ;
    let ghost native = source@;
    let mut r: usize = 0;
    while r < alloc_height
        invariant
            r <= alloc_height,
            row == stride * width,
            row >= 1,
            width == pixel.spec_bytes(),
            row * alloc_height <= usize::MAX,
            rows == source_rows(native.data.len(), native.stride),
            carried == copied_row_bytes(native.stride, pixel, stride as nat),
            carried <= source.stride,
            native == source@,
            native.data.len() <= usize::MAX,
            out@.len() == r * row,
            forall|k: int|
                0 <= k < out@.len() ==> out@[k] == copied_byte(
                    native,
                    pixel,
                    stride as nat,
                    k / (row as int),
                    k % (row as int),
                ),
        decreases alloc_height - r,
    {
        let mut b: usize = 0;
        while b < row
            invariant
                r < alloc_height,
                b <= row,
                row == stride * width,
                row >= 1,
                width == pixel.spec_bytes(),
                row * alloc_height <= usize::MAX,
                rows == source_rows(native.data.len(), native.stride),
                carried == copied_row_bytes(native.stride, pixel, stride as nat),
                carried <= source.stride,
                native == source@,
                native.data.len() <= usize::MAX,
                out@.len() == r * row + b,
                forall|k: int|
                    0 <= k < out@.len() ==> out@[k] == copied_byte(
                        native,
                        pixel,
                        stride as nat,
                        k / (row as int),
                        k % (row as int),
                    ),
            decreases row - b,
        {
            let ghost k = r * row + b;
            proof {
                lemma_fundamental_div_mod_converse(k, row as int, r as int, b as int);
                assert(r * row + row <= row * alloc_height) by (nonlinear_arith)
                    requires
                        r < alloc_height,
                        row >= 0,
                ;
            }
            let byte: u8 = if r < rows && b < carried {
                proof {
                    let len = source.data@.len() as int;
                    let step = source.stride as int;
                    assert((len / step) * step <= len) by (nonlinear_arith)
                        requires
                            step > 0,
                            len >= 0,
                    ;
                    assert(r * step + step <= (len / step) * step && r * step >= 0) by (nonlinear_arith)
                        requires
                            0 <= r < len / step,
                            step > 0,
                    ;
                }
                source.data[r * source.stride + b]
            } else if width == 2 && b % 2 == 1 {
                0
            } else {
                128
            };
            out.push(byte);
            b = b + 1;
        }
        assert(r * row + row == (r + 1) * row) by (nonlinear_arith);
        r = r + 1;
    }
    assert(out@.len() == stride * alloc_height * width) by (nonlinear_arith)
        requires
            out@.len() == alloc_height * row,
            row == stride * width,
    ;
}

} // verus!
