use vstd::prelude::*;

use crate::command::{Resize, Rotate};

verus! {

/// An in-memory RGBA image: four bytes per pixel, row by row.
#[derive(Clone, Debug)]
pub struct Raster {
    pub pixels: Vec<u8>,
    pub width: u32,
    pub height: u32,
}

impl Raster {
    /// The buffer holds exactly the image's pixels.
    pub open spec fn wf(&self) -> bool {
        self.pixels@.len() == 4 * self.width * self.height
    }
}

/// Why an operation could not be applied to an image.
#[derive(Clone, Copy, Debug, PartialEq, Eq, Structural)]
pub enum ProcessingError {
    /// The image library cannot apply the operation with these parameters to
    /// this image.
    InvalidParameters,
}

/// The largest allocation, in bytes, that a buffer may have: `isize::MAX` on
/// the 64-bit targets that the service runs on.
pub const MAX_ALLOCATION: u128 = 0x7fff_ffff_ffff_ffff;

/// Whether a `width` x `height` image can be resized to `w` x `h`. An equal
/// size is a copy. Otherwise the intermediate buffer (source width by target
/// height, sixteen bytes per pixel) and the result (four bytes per pixel)
/// must be allocatable. An empty source is no obstacle: no sample is taken
/// from it, and every pixel of the result is zero.
pub open spec fn resize_supported(width: u32, height: u32, w: u32, h: u32) -> bool {
    (w == width && h == height) || {
        &&& 16 * width * h <= MAX_ALLOCATION
        &&& 4 * w * h <= MAX_ALLOCATION
    }
}

/// The pixels of a `width` x `height` RGBA image, resized to `w` x `h` with
/// nearest-neighbour sampling.
pub uninterp spec fn nearest_resized(
    pixels: Seq<u8>,
    width: u32,
    height: u32,
    w: u32,
    h: u32,
) -> Seq<u8>;

/// Relies on `photon_rs::transform::resize` with `SamplingFilter::Nearest`:
/// it rebuilds an RGBA buffer from the image, resizes it with
/// `image::imageops::resize`, which returns exactly `w` x `h` pixels and a
/// plain copy when the size is unchanged. Its one panic is a buffer too large
/// to allocate, which `resize_supported` leaves out.
#[verifier::external_body]
fn resize_nearest(img: &Raster, w: u32, h: u32) -> (r: Raster)
    requires
        img.wf(),
        resize_supported(img.width, img.height, w, h),
    ensures
        r.wf(),
        r.width == w,
        r.height == h,
        r.pixels@ == nearest_resized(img.pixels@, img.width, img.height, w, h),
        w == img.width && h == img.height ==> r.pixels@ == img.pixels@,
{
    let src = photon_rs::PhotonImage::new(img.pixels.clone(), img.width, img.height);
    let out = photon_rs::transform::resize(
        &src,
        w,
        h,
        photon_rs::transform::SamplingFilter::Nearest,
    );
    Raster { pixels: out.get_raw_pixels(), width: out.get_width(), height: out.get_height() }
}

impl Resize {
    /// Resizes `img` to `self.w` x `self.h`, or fails where the image library
    /// cannot.
    pub fn process(&self, img: &Raster) -> (r: Result<Raster, ProcessingError>)
        requires
            img.wf(),
        ensures
            r is Ok <==> resize_supported(img.width, img.height, self.w, self.h),
            r matches Ok(out) ==> {
                &&& out.wf()
                &&& out.width == self.w
                &&& out.height == self.h
                &&& out.pixels@ == nearest_resized(
                    img.pixels@,
                    img.width,
                    img.height,
                    self.w,
                    self.h,
                )
            },
            r matches Err(e) ==> e == ProcessingError::InvalidParameters,
    {
        let same = self.w == img.width && self.h == img.height;
        if !same {
            let (width, w, h) = (img.width as u64, self.w as u64, self.h as u64);
            assert(width * h <= 0xffff_fffe_0000_0001 && w * h <= 0xffff_fffe_0000_0001)
                by (nonlinear_arith)
                requires
                    width <= 0xffff_ffff,
                    w <= 0xffff_ffff,
                    h <= 0xffff_ffff,
            ;
            let sampled: u128 = (width * h) as u128;
            let target: u128 = (w * h) as u128;
            assert(16 * width * h == 16 * sampled && 4 * w * h == 4 * target) by (nonlinear_arith)
                requires
                    sampled == width * h,
                    target == w * h,
            ;
            if 16 * sampled > MAX_ALLOCATION || 4 * target > MAX_ALLOCATION {
                return Err(ProcessingError::InvalidParameters);
            }
        }
        Ok(resize_nearest(img, self.w, self.h))
    }
}

/// The largest side that a JPEG image can have.
pub const MAX_JPEG_SIDE: u32 = 65535;

/// Whether a `width` x `height` image can be written as a JPEG.
pub open spec fn jpeg_encodable(width: u32, height: u32) -> bool {
    0 < width <= MAX_JPEG_SIDE && 0 < height <= MAX_JPEG_SIDE
}

/// The JPEG file, at quality 100, of a `width` x `height` RGBA image.
pub uninterp spec fn jpeg_of(pixels: Seq<u8>, width: u32, height: u32) -> Seq<u8>;

/// Relies on `photon_rs::PhotonImage::get_bytes_jpeg`: it rebuilds the RGBA
/// buffer and writes it with image's JPEG encoder, which starts the file with
/// the start-of-image marker `FF D8` and fails (a panic in photon) only on a
/// side longer than 65535.
#[verifier::external_body]
fn encode_jpeg(img: &Raster) -> (r: Vec<u8>)
    requires
        img.wf(),
        jpeg_encodable(img.width, img.height),
    ensures
        r@ == jpeg_of(img.pixels@, img.width, img.height),
        r@.len() >= 2,
        r@[0] == 0xff && r@[1] == 0xd8,
{
    photon_rs::PhotonImage::new(img.pixels.clone(), img.width, img.height).get_bytes_jpeg(100)
}

impl Raster {
    /// The image as a JPEG file at quality 100, or `None` where it has no
    /// pixel or a side longer than a JPEG can hold.
    pub fn to_jpeg(&self) -> (r: Option<Vec<u8>>)
        requires
            self.wf(),
        ensures
            r is Some <==> jpeg_encodable(self.width, self.height),
            r matches Some(b) ==> b@ == jpeg_of(self.pixels@, self.width, self.height),
    {
        if 0 < self.width && self.width <= MAX_JPEG_SIDE && 0 < self.height && self.height
            <= MAX_JPEG_SIDE {
            Some(encode_jpeg(self))
        } else {
            None
        }
    }
}

/// Whether the single-precision float with bit pattern `bits` is a finite
/// number: its eight exponent bits are not all set.
pub open spec fn angle_is_finite(bits: u32) -> bool {
    (bits / 0x80_0000) % 0x100 != 0xff
}

impl Rotate {
    /// Checks the angle before a rotation: an infinite or NaN angle names no
    /// rotation, and is refused.
    pub fn check(&self) -> (r: Result<(), ProcessingError>)
        ensures
            r is Ok <==> angle_is_finite(self.angle_bits),
            r matches Err(e) ==> e == ProcessingError::InvalidParameters,
    {
        if (self.angle_bits / 0x80_0000) % 0x100 == 0xff {
            Err(ProcessingError::InvalidParameters)
        } else {
            Ok(())
        }
    }
}

} // verus!
