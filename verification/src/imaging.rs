//! Trusted boundary to the `image` crate: decoding, the byte-signature
//! format sniff, the resize primitives, and the encoders.  Every contract
//! here is a statement about `image`'s own documented behaviour; the resize
//! policy that chooses between these primitives lives in [`crate::transform`]
//! and is verified.

use vstd::prelude::*;

use image::imageops::FilterType::Lanczos3;
use image::ImageFormat as ImgFormat;
use image::{guess_format, load_from_memory};
use std::io::Cursor;

verus! {

use crate::imaging::PixelFormat::{Avif, Png, Webp};
use crate::imaging::ResizePlan::{Contain, Cover, Exact, NoResize};

/// Format family recognisable from a byte signature and encodable here.
#[derive(PartialEq, Eq, Structural, Clone, Copy, Debug)]
pub enum PixelFormat {
    Avif,
    Webp,
    Png,
    Jpeg,
    Other,
}

/// Width and height of the image that `image::load_from_memory` decodes
/// from these bytes; nothing when decoding fails.  Decoding is a function
/// of the bytes alone.
pub uninterp spec fn decoded_dims(data: Seq<u8>) -> Option<(u32, u32)>;

/// Format family that `image::guess_format` reads from the leading byte
/// signature; nothing when the signature is unknown.  A function of the
/// bytes alone.
pub uninterp spec fn sniffed_format(data: Seq<u8>) -> Option<PixelFormat>;

/// How the source bytes are to be resized, decided by the verified policy.
#[derive(PartialEq, Eq, Structural, Clone, Copy, Debug)]
pub enum ResizePlan {
    /// Leave the decoded image as it is.
    NoResize,
    /// Scale preserving aspect ratio until both bounds are covered, then
    /// center-crop to exactly the bounds.
    Cover(u32, u32),
    /// Scale to exactly the bounds, ignoring aspect ratio.
    Exact(u32, u32),
    /// Scale preserving aspect ratio to the largest size within the bounds.
    Contain(u32, u32),
}

/// Pixel budget below which the resize primitives cannot overflow their
/// buffer-length arithmetic.
pub open spec fn dims_product_small(w: int, h: int) -> bool {
    (if w >= 1 {
        w
    } else {
        1
    }) * (if h >= 1 {
        h
    } else {
        1
    }) <= 0x100_0000_0000_0000
}

/// The plan keeps `resize_to_fill`'s internal scaling inside `u32` — both
/// cross products of source and target dimensions stay below `u32::MAX`,
/// so its documented exact output size holds — and keeps the scaled
/// intermediate image's pixel count within the buffer arithmetic's budget.
pub open spec fn cover_in_range(src: (u32, u32), w: u32, h: u32) -> bool {
    &&& src.0 >= 1
    &&& src.1 >= 1
    &&& 1 <= w
    &&& 1 <= h
    &&& (src.1 as int) * (w as int) <= (src.0 as int) * 0xFFFF_FFFE
    &&& (src.0 as int) * (h as int) <= (src.1 as int) * 0xFFFF_FFFE
    &&& (src.0 as int) * (h as int) * (h as int) <= (src.1 as int) * 0x10_0000_0000_0000
    &&& (src.1 as int) * (w as int) * (w as int) <= (src.0 as int) * 0x10_0000_0000_0000
    &&& dims_product_small(src.0 as int, h as int)
    &&& dims_product_small(src.1 as int, w as int)
    &&& dims_product_small(w as int, h as int)
}

/// The bounds under which the plan may be handed to the resize primitives:
/// the target's pixel budget and the sampling passes' intermediate buffer
/// of source width by target height.
pub open spec fn plan_in_range(src: (u32, u32), plan: ResizePlan) -> bool {
    match plan {
        ResizePlan::NoResize => true,
        ResizePlan::Cover(w, h) => cover_in_range(src, w, h),
        ResizePlan::Exact(w, h) => dims_product_small(w as int, h as int) && dims_product_small(
            src.0 as int,
            h as int,
        ),
        ResizePlan::Contain(w, h) => dims_product_small(w as int, h as int) && dims_product_small(
            src.0 as int,
            h as int,
        ),
    }
}

/// The dimensions a conforming transformation must produce: the source
/// dimensions unchanged, the exact bounds for cover and exact plans, and
/// for contain plans the largest size within the bounds — whichever axis
/// binds the aspect-preserving scale meets its bound exactly, the other
/// stays within it.
pub open spec fn dims_conform(src: (u32, u32), plan: ResizePlan, out: (u32, u32)) -> bool {
    match plan {
        ResizePlan::NoResize => out == src,
        ResizePlan::Cover(w, h) => out == (w, h),
        ResizePlan::Exact(w, h) => out == (w, h),
        ResizePlan::Contain(w, h) => {
            &&& out.0 as int <= vstd::math::max(w as int, 1)
            &&& out.1 as int <= vstd::math::max(h as int, 1)
            &&& (w, h) != src ==> {
                &&& out.0 >= 1
                &&& out.1 >= 1
                &&& (w as int) * (src.1 as int) <= (h as int) * (src.0 as int) ==> out.0 as int
                    == vstd::math::max(w as int, 1)
                &&& (h as int) * (src.0 as int) <= (w as int) * (src.1 as int) ==> out.1 as int
                    == vstd::math::max(h as int, 1)
            }
        },
    }
}

/// Relies on `image::load_from_memory` and `DynamicImage::dimensions`:
/// whether the bytes decode, and to which size, depends on the bytes alone.
#[verifier::external_body]
pub(crate) fn probe_dims(data: &Vec<u8>) -> (r: Result<(u32, u32), String>)
    ensures
        r is Ok <==> decoded_dims(data@) is Some,
        r matches Ok(d) ==> decoded_dims(data@) == Some(d),
{
    match image::load_from_memory(data.as_slice()) {
        Ok(img) => Ok((img.width(), img.height())),
        Err(e) => Err(e.to_string()),
    }
}

/// Relies on `image::guess_format`: the format is read from the leading
/// byte signature, a function of the bytes alone.  The outside enum's
/// variants are told apart here, one arm each.
#[verifier::external_body]
pub(crate) fn sniff_format(data: &Vec<u8>) -> (r: Result<PixelFormat, String>)
    ensures
        r is Ok <==> sniffed_format(data@) is Some,
        r matches Ok(k) ==> sniffed_format(data@) == Some(k),
{
    match image::guess_format(data.as_slice()) {
        Ok(fmt) => Ok(
            match fmt {
                image::ImageFormat::Avif => PixelFormat::Avif,
                image::ImageFormat::WebP => PixelFormat::Webp,
                image::ImageFormat::Png => PixelFormat::Png,
                image::ImageFormat::Jpeg => PixelFormat::Jpeg,
                _ => PixelFormat::Other,
            },
        ),
        Err(e) => Err(e.to_string()),
    }
}

/// The whole pixel pipeline's outcome on these bytes under this plan and
/// encoder choice (`None` keeps the source family, sniffed from the
/// bytes): the encoded bytes and their dimensions when decoding, resizing
/// and encoding all succeed, nothing otherwise.  Every step depends on the
/// arguments alone.
pub uninterp spec fn transformed_of(data: Seq<u8>, plan: ResizePlan, choice: Option<PixelFormat>) -> Option<(Seq<u8>, u32, u32)>;

/// Relies on `image::load_from_memory`, `DynamicImage::resize`,
/// `resize_exact` and `resize_to_fill` (Lanczos-3 filter throughout) and
/// `DynamicImage::write_to` with the named encoder: each is a function of
/// the bytes, the plan and the encoder alone, so the whole outcome is
/// [`transformed_of`] of them.  A successful result's dimensions conform
/// to the plan: `resize_exact` and `resize_to_fill` return exactly the
/// requested size (the latter's scaling stays inside `u32` under
/// [`cover_in_range`]), and `resize` meets the binding axis exactly and
/// stays within the other.
#[verifier::external_body]
pub(crate) fn transform_named(data: &Vec<u8>, plan: &ResizePlan, kind: PixelFormat) -> (r: Result<
    (Vec<u8>, u32, u32),
    String,
>)
    requires
        decoded_dims(data@) matches Some(d) ==> plan_in_range(d, *plan),
        kind != PixelFormat::Other,
    ensures
        r is Ok <==> transformed_of(data@, *plan, Some(kind)) is Some,
        r matches Ok(t) ==> transformed_of(data@, *plan, Some(kind)) == Some((t.0@, t.1, t.2)),
        r matches Ok(t) ==> (decoded_dims(data@) matches Some(d) && dims_conform(
            d,
            *plan,
            (t.1, t.2),
        )),
{
    let img = load_from_memory(data.as_slice()).map_err(|e| e.to_string())?;
    let out = match plan {
        NoResize => img,
        Cover(w, h) => img.resize_to_fill(*w, *h, Lanczos3),
        Exact(w, h) => img.resize_exact(*w, *h, Lanczos3),
        Contain(w, h) => img.resize(*w, *h, Lanczos3),
    };
    let fmt = match kind {
        Avif => ImgFormat::Avif, Webp => ImgFormat::WebP,
        Png => ImgFormat::Png, _ => ImgFormat::Jpeg,
    };
    let mut b = Cursor::new(Vec::new());
    out.write_to(&mut b, fmt).map_err(|e| e.to_string())?;
    Ok((b.into_inner(), out.width(), out.height()))
}

/// Relies on the same pipeline as [`transform_named`], with
/// `image::guess_format` choosing the encoder from the source bytes, as a
/// configuration that keeps the source family asks.
#[verifier::external_body]
pub(crate) fn transform_keep_family(data: &Vec<u8>, plan: &ResizePlan) -> (r: Result<
    (Vec<u8>, u32, u32),
    String,
>)
    requires
        decoded_dims(data@) matches Some(d) ==> plan_in_range(d, *plan),
    ensures
        r is Ok <==> transformed_of(data@, *plan, None::<PixelFormat>) is Some,
        r matches Ok(t) ==> transformed_of(data@, *plan, None::<PixelFormat>) == Some(
            (t.0@, t.1, t.2),
        ),
        r matches Ok(t) ==> (decoded_dims(data@) matches Some(d) && dims_conform(
            d,
            *plan,
            (t.1, t.2),
        )),
{
    let img = load_from_memory(data.as_slice()).map_err(|e| e.to_string())?;
    let out = match plan {
        NoResize => img,
        Cover(w, h) => img.resize_to_fill(*w, *h, Lanczos3),
        Exact(w, h) => img.resize_exact(*w, *h, Lanczos3),
        Contain(w, h) => img.resize(*w, *h, Lanczos3),
    };
    let fmt = guess_format(data.as_slice()).map_err(|e| e.to_string())?;
    let mut b = Cursor::new(Vec::new());
    out.write_to(&mut b, fmt).map_err(|e| e.to_string())?;
    Ok((b.into_inner(), out.width(), out.height()))
}

} // verus!
