//! The image transformer: a pure function from source bytes and a variant
//! configuration to encoded bytes, a mime type, and output dimensions.
//! The resize policy (first matching rule wins) and the format policy are
//! verified; the pixel work itself is the `image` crate's, reached through
//! the trusted boundary in [`crate::imaging`].

use vstd::prelude::*;
use vstd::string::StringExecFns;

use crate::errors::AppError;
use crate::imaging::{
    decoded_dims, dims_conform, dims_product_small, plan_in_range, probe_dims, sniff_format,
    sniffed_format, transform_keep_family, transform_named, transformed_of, PixelFormat,
    ResizePlan,
};
use crate::keys::str_eq;
use crate::settings::VariantConfig;

verus! {

/// A failure of the transformer, tagged with the stage that failed.
#[derive(Debug)]
pub enum TransformError {
    Decode(String),
    Resize(String),
    Encode(String),
}

impl TransformError {
    /// The stage tag, as recorded in a failed job's payload.
    pub fn stage(&self) -> (r: &'static str)
        ensures
            self is Decode ==> r@ == "decode"@,
            self is Resize ==> r@ == "resize"@,
            self is Encode ==> r@ == "encode"@,
    {
        match self {
            TransformError::Decode(_) => "decode",
            TransformError::Resize(_) => "resize",
            TransformError::Encode(_) => "encode",
        }
    }

    /// The failure message carried with the stage.
    pub fn message(&self) -> (r: &String)
        ensures
            self matches TransformError::Decode(m) ==> r@ == m@,
            self matches TransformError::Resize(m) ==> r@ == m@,
            self matches TransformError::Encode(m) ==> r@ == m@,
    {
        match self {
            TransformError::Decode(m) => m,
            TransformError::Resize(m) => m,
            TransformError::Encode(m) => m,
        }
    }
}

/// A successful transformation: the encoded bytes, their mime type, and the
/// dimensions of the encoded image.
pub struct TransformOutput {
    pub bytes: Vec<u8>,
    pub mime: String,
    pub width: u32,
    pub height: u32,
}

/// The resize rule selected by a configuration; first matching rule wins.
/// Both dimensions choose by `fit` (cover, exact, else contain); one
/// dimension alone scales to it with the other free; both max dimensions
/// contain within the box; nothing means no resize.
pub open spec fn spec_resize_plan(c: VariantConfig) -> ResizePlan {
    if c.width is Some && c.height is Some {
        let w = c.width->0;
        let h = c.height->0;
        if spec_fit_is_cover(c.fit) {
            ResizePlan::Cover(w, h)
        } else if spec_fit_is_exact(c.fit) {
            ResizePlan::Exact(w, h)
        } else {
            ResizePlan::Contain(w, h)
        }
    } else if c.width is Some {
        ResizePlan::Contain(c.width->0, u32::MAX)
    } else if c.height is Some {
        ResizePlan::Contain(u32::MAX, c.height->0)
    } else if c.max_width is Some && c.max_height is Some {
        ResizePlan::Contain(c.max_width->0, c.max_height->0)
    } else {
        ResizePlan::NoResize
    }
}

pub open spec fn spec_fit_is_cover(fit: Option<String>) -> bool {
    fit matches Some(f) && (f@ == "cover"@ || f@ == "center-crop"@)
}

pub open spec fn spec_fit_is_exact(fit: Option<String>) -> bool {
    fit matches Some(f) && (f@ == "fill"@ || f@ == "stretch"@ || f@ == "exact"@)
}

/// Computes the resize plan of a configuration.
pub fn resize_plan(c: &VariantConfig) -> (r: ResizePlan)
    ensures
        r == spec_resize_plan(*c),
{
    match (c.width, c.height) {
        (Some(w), Some(h)) => {
            let cover = match &c.fit {
                Some(f) => str_eq(f.as_str(), "cover") || str_eq(f.as_str(), "center-crop"),
                None => false,
            };
            if cover {
                return ResizePlan::Cover(w, h);
            }
            let exact = match &c.fit {
                Some(f) => str_eq(f.as_str(), "fill") || str_eq(f.as_str(), "stretch") || str_eq(
                    f.as_str(),
                    "exact",
                ),
                None => false,
            };
            if exact {
                ResizePlan::Exact(w, h)
            } else {
                ResizePlan::Contain(w, h)
            }
        },
        (Some(w), None) => ResizePlan::Contain(w, u32::MAX),
        (None, Some(h)) => ResizePlan::Contain(u32::MAX, h),
        (None, None) => {
            match (c.max_width, c.max_height) {
                (Some(w), Some(h)) => ResizePlan::Contain(w, h),
                _ => ResizePlan::NoResize,
            }
        },
    }
}

/// The encoder selected by the `format` field: one of the four named
/// encoders, or nothing when the source family is to be kept (`original`
/// or absent).  Unknown names fall back to JPEG.
pub open spec fn spec_format_choice(format: Option<Seq<char>>) -> Option<PixelFormat> {
    match format {
        Option::None => Option::None,
        Option::Some(f) => {
            if f == "avif"@ {
                Some(PixelFormat::Avif)
            } else if f == "webp"@ {
                Some(PixelFormat::Webp)
            } else if f == "png"@ {
                Some(PixelFormat::Png)
            } else if f == "jpg"@ || f == "jpeg"@ {
                Some(PixelFormat::Jpeg)
            } else if f == "original"@ {
                Option::None
            } else {
                Some(PixelFormat::Jpeg)
            }
        },
    }
}

fn format_choice(format: &Option<String>) -> (r: Option<PixelFormat>)
    ensures
        r == spec_format_choice(
            match format {
                Option::Some(f) => Option::Some(f@),
                Option::None => Option::None,
            },
        ),
        r matches Some(k) ==> k != PixelFormat::Other,
{
    match format {
        None => None,
        Some(f) => {
            if str_eq(f.as_str(), "avif") {
                Some(PixelFormat::Avif)
            } else if str_eq(f.as_str(), "webp") {
                Some(PixelFormat::Webp)
            } else if str_eq(f.as_str(), "png") {
                Some(PixelFormat::Png)
            } else if str_eq(f.as_str(), "jpg") || str_eq(f.as_str(), "jpeg") {
                Some(PixelFormat::Jpeg)
            } else if str_eq(f.as_str(), "original") {
                None
            } else {
                Some(PixelFormat::Jpeg)
            }
        },
    }
}

/// The mime type of each encodable family; an unrecognised family is served
/// as an opaque byte stream.
pub open spec fn spec_mime_for(k: PixelFormat) -> Seq<char> {
    match k {
        PixelFormat::Avif => "image/avif"@,
        PixelFormat::Webp => "image/webp"@,
        PixelFormat::Png => "image/png"@,
        PixelFormat::Jpeg => "image/jpeg"@,
        PixelFormat::Other => "application/octet-stream"@,
    }
}

pub fn mime_for(k: PixelFormat) -> (r: String)
    ensures
        r@ == spec_mime_for(k),
{
    match k {
        PixelFormat::Avif => "image/avif".to_owned(),
        PixelFormat::Webp => "image/webp".to_owned(),
        PixelFormat::Png => "image/png".to_owned(),
        PixelFormat::Jpeg => "image/jpeg".to_owned(),
        PixelFormat::Other => "application/octet-stream".to_owned(),
    }
}

/// The view of the configuration's `format` field.
pub open spec fn cfg_format_view(c: VariantConfig) -> Option<Seq<char>> {
    match c.format {
        Option::Some(f) => Option::Some(f@),
        Option::None => Option::None,
    }
}

/// The mime type a transformation reports: the chosen encoder's, or the
/// sniffed source family's when the configuration keeps the original.
pub open spec fn spec_output_mime(c: VariantConfig, data: Seq<u8>) -> Seq<char> {
    match spec_format_choice(cfg_format_view(c)) {
        Option::Some(k) => spec_mime_for(k),
        Option::None => match sniffed_format(data) {
            Option::Some(k) => spec_mime_for(k),
            Option::None => Seq::empty(),
        },
    }
}

/// Whether the configuration keeps the source family, so that the sniff
/// must succeed for the transformation to succeed.
pub open spec fn spec_keeps_original(c: VariantConfig) -> bool {
    spec_format_choice(cfg_format_view(c)) is None
}

/// The encoded bytes and dimensions the pipeline produces on these bytes
/// under this configuration, when it succeeds.
pub open spec fn spec_transform_result(data: Seq<u8>, c: VariantConfig) -> Option<
    (Seq<u8>, u32, u32),
> {
    transformed_of(data, spec_resize_plan(c), spec_format_choice(cfg_format_view(c)))
}

/// Exactly when a transformation succeeds: the bytes decode, the plan's
/// bounds are in range for them, the sniff succeeds when the source family
/// is kept, and the pipeline produces a result.
pub open spec fn spec_transform_ok(data: Seq<u8>, c: VariantConfig) -> bool {
    &&& decoded_dims(data) matches Some(d) && plan_in_range(d, spec_resize_plan(c))
    &&& spec_keeps_original(c) ==> sniffed_format(data) is Some
    &&& spec_transform_result(data, c) is Some
}

/// Transforms source bytes under a variant configuration.
///
/// The call succeeds exactly when [`spec_transform_ok`] holds, and then
/// returns exactly the pipeline's bytes and dimensions
/// ([`spec_transform_result`]): dimensions conforming to the resize plan —
/// unchanged for no plan, exactly the bounds for cover and exact plans, the
/// binding axis met within the bounds for contain plans — under the mime
/// type of the format policy.  A failure is tagged with its stage: `Decode`
/// exactly when the bytes do not decode, `Resize` exactly when the plan's
/// bounds are out of range for the source, `Encode` when the sniff or the
/// encoder refuses.
pub fn transform_image(data: &Vec<u8>, config: &VariantConfig) -> (r: Result<
    TransformOutput,
    TransformError,
>)
    ensures
        r is Ok <==> spec_transform_ok(data@, *config),
        (r matches Err(e) && e is Decode) <==> decoded_dims(data@) is None,
        (r matches Err(e) && e is Resize) <==> (decoded_dims(data@) matches Some(d)
            && !plan_in_range(d, spec_resize_plan(*config))),
        (r matches Err(e) && e is Encode) ==> (decoded_dims(data@) matches Some(d)
            && plan_in_range(d, spec_resize_plan(*config))),
        r matches Ok(o) ==> {
            &&& spec_transform_result(data@, *config) == Some((o.bytes@, o.width, o.height))
            &&& decoded_dims(data@) matches Some(d) && dims_conform(
                d,
                spec_resize_plan(*config),
                (o.width, o.height),
            )
            &&& o.mime@ == spec_output_mime(*config, data@)
        },
{
    let dims = match probe_dims(data) {
        Ok(d) => d,
        Err(e) => {
            let mut msg = "Failed to load image: ".to_owned();
            msg.append(e.as_str());
            return Err(TransformError::Decode(msg));
        },
    };
    let plan = resize_plan(config);
    if !plan_bounds_ok(dims, &plan) {
        return Err(TransformError::Resize("resize bounds out of range".to_owned()));
    }
    let choice = format_choice(&config.format);
    let kind: PixelFormat = match choice {
        Some(k) => k,
        None => {
            match sniff_format(data) {
                Ok(k) => k,
                Err(e) => {
                    let mut msg = "Failed to guess format: ".to_owned();
                    msg.append(e.as_str());
                    return Err(TransformError::Encode(msg));
                },
            }
        },
    };
    let outcome = match choice {
        Some(k) => transform_named(data, &plan, k),
        None => transform_keep_family(data, &plan),
    };
    match outcome {
        Ok((bytes, out_w, out_h)) => {
            let mime = mime_for(kind);
            Ok(TransformOutput { bytes, mime, width: out_w, height: out_h })
        },
        Err(e) => {
            let mut msg = "Failed to encode image: ".to_owned();
            msg.append(e.as_str());
            Err(TransformError::Encode(msg))
        },
    }
}

/// Runtime check that a plan's bounds are in range for the source
/// dimensions, deciding [`plan_in_range`].
fn plan_bounds_ok(src: (u32, u32), plan: &ResizePlan) -> (r: bool)
    ensures
        r == plan_in_range(src, *plan),
{
    match plan {
        ResizePlan::NoResize => true,
        ResizePlan::Cover(w, h) => {
            let (sw, sh) = src;
            sw >= 1 && sh >= 1 && *w >= 1 && *h >= 1 && mul_wide(sh as u64, *w as u64) <= mul_wide(
                sw as u64,
                0xFFFF_FFFEu64,
            ) && mul_wide(sw as u64, *h as u64) <= mul_wide(sh as u64, 0xFFFF_FFFEu64) && mul3_wide(
                sw,
                *h,
                *h,
            ) <= (sh as u128) * 0x10_0000_0000_0000u128 && mul3_wide(sh, *w, *w) <= (sw as u128)
                * 0x10_0000_0000_0000u128 && product_small(sw, *h) && product_small(sh, *w)
                && product_small(*w, *h)
        },
        ResizePlan::Exact(w, h) => product_small(*w, *h) && product_small(src.0, *h),
        ResizePlan::Contain(w, h) => product_small(*w, *h) && product_small(src.0, *h),
    }
}

fn product_small(w: u32, h: u32) -> (r: bool)
    ensures
        r == dims_product_small(w as int, h as int),
{
    let ww: u64 = if w >= 1 {
        w as u64
    } else {
        1
    };
    let hh: u64 = if h >= 1 {
        h as u64
    } else {
        1
    };
    mul_wide(ww, hh) <= 0x100_0000_0000_0000u64
}

/// Product of three `u32` values, which cannot overflow `u128`.
fn mul3_wide(a: u32, b: u32, c: u32) -> (r: u128)
    ensures
        r == (a as int) * (b as int) * (c as int),
{
    proof {
        assert((a as u128) * (b as u128) <= 0xFFFF_FFFFu128 * 0xFFFF_FFFFu128) by (nonlinear_arith)
            requires
                a <= 0xFFFF_FFFFu128,
                b <= 0xFFFF_FFFFu128,
        ;
        assert((a as u128) * (b as u128) * (c as u128) <= 0xFFFF_FFFFu128 * 0xFFFF_FFFFu128
            * 0xFFFF_FFFFu128) by (nonlinear_arith)
            requires
                (a as u128) * (b as u128) <= 0xFFFF_FFFFu128 * 0xFFFF_FFFFu128,
                c <= 0xFFFF_FFFFu128,
        ;
    }
    (a as u128) * (b as u128) * (c as u128)
}

/// Product of two values below `2^32`, which cannot overflow `u64`.
fn mul_wide(a: u64, b: u64) -> (r: u64)
    requires
        a <= 0xFFFF_FFFF,
        b <= 0xFFFF_FFFF,
    ensures
        r == a * b,
{
    proof {
        assert(a * b <= 0xFFFF_FFFF * 0xFFFF_FFFF) by (nonlinear_arith)
            requires
                a <= 0xFFFF_FFFF,
                b <= 0xFFFF_FFFF,
        ;
    }
    a * b
}

/// With neither dimension nor a max box configured, a conforming output has
/// exactly the source dimensions.
pub proof fn lemma_no_resize_keeps_dims(c: VariantConfig, d: (u32, u32), out: (u32, u32))
    requires
        c.width is None,
        c.height is None,
        c.max_width is None || c.max_height is None,
    ensures
        spec_resize_plan(c) == ResizePlan::NoResize,
        dims_conform(d, spec_resize_plan(c), out) <==> out == d,
{
}

/// With `fit` cover (or center-crop) and both dimensions configured, a
/// conforming output has exactly the configured dimensions.
pub proof fn lemma_cover_exact_dims(c: VariantConfig, d: (u32, u32), out: (u32, u32))
    requires
        c.width matches Some(w),
        c.height matches Some(h),
        spec_fit_is_cover(c.fit),
    ensures
        spec_resize_plan(c) == ResizePlan::Cover(c.width->0, c.height->0),
        dims_conform(d, spec_resize_plan(c), out) <==> out == (c.width->0, c.height->0),
{
}

/// With only `width` configured, a conforming output is scaled to exactly
/// that width, the height following the aspect ratio freely — whenever the
/// implied height stays representable and the bounds do not equal the
/// source, the cases where the primitive returns the source unchanged or
/// clips.
pub proof fn lemma_width_only_scales_to_width(c: VariantConfig, d: (u32, u32), out: (u32, u32))
    requires
        c.width is Some,
        c.height is None,
        (c.width->0 as int) * (d.1 as int) <= (u32::MAX as int) * (d.0 as int),
        (c.width->0, u32::MAX) != d,
        dims_conform(d, spec_resize_plan(c), out),
    ensures
        spec_resize_plan(c) == ResizePlan::Contain(c.width->0, u32::MAX),
        out.0 as int == vstd::math::max(c.width->0 as int, 1),
{
}

/// With only `height` configured, a conforming output is scaled to exactly
/// that height, the width following the aspect ratio freely, under the
/// mirrored side conditions.
pub proof fn lemma_height_only_scales_to_height(c: VariantConfig, d: (u32, u32), out: (u32, u32))
    requires
        c.width is None,
        c.height is Some,
        (c.height->0 as int) * (d.0 as int) <= (u32::MAX as int) * (d.1 as int),
        (u32::MAX, c.height->0) != d,
        dims_conform(d, spec_resize_plan(c), out),
    ensures
        spec_resize_plan(c) == ResizePlan::Contain(u32::MAX, c.height->0),
        out.1 as int == vstd::math::max(c.height->0 as int, 1),
{
}

/// Transforms source bytes and returns the encoded bytes with their mime
/// type, collapsing the stage-tagged failure into the caller-facing error.
pub fn process_image(data: &Vec<u8>, config: &VariantConfig) -> (r: Result<
    (Vec<u8>, String),
    AppError,
>)
    ensures
        r is Ok <==> spec_transform_ok(data@, *config),
        r is Err ==> r->Err_0 is InternalServerError,
        r matches Ok(o) ==> {
            &&& spec_transform_result(data@, *config) matches Some(t) && o.0@ == t.0
            &&& o.1@ == spec_output_mime(*config, data@)
        },
{
    match transform_image(data, config) {
        Ok(out) => Ok((out.bytes, out.mime)),
        Err(e) => {
            let msg = e.message().clone();
            Err(AppError::InternalServerError(msg))
        },
    }
}

} // verus!
