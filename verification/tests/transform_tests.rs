use mediacore::settings::VariantConfig;
use mediacore::transform::{process_image, transform_image, TransformError};
use mediacore::worker::{ext_for_mime, format_size};

fn png_bytes(w: u32, h: u32) -> Vec<u8> {
    let img = image::RgbImage::from_fn(w, h, |x, y| {
        image::Rgb([(x % 251) as u8, (y % 251) as u8, 7])
    });
    let dynimg = image::DynamicImage::ImageRgb8(img);
    let mut cur = std::io::Cursor::new(Vec::new());
    dynimg.write_to(&mut cur, image::ImageFormat::Png).unwrap();
    cur.into_inner()
}

fn cfg() -> VariantConfig {
    VariantConfig {
        format: None,
        quality: None,
        width: None,
        height: None,
        max_width: None,
        max_height: None,
        fit: None,
    }
}

#[test]
fn no_dims_keeps_input_dimensions() {
    let data = png_bytes(200, 100);
    let out = transform_image(&data, &cfg()).unwrap();
    assert_eq!(out.width, 200);
    assert_eq!(out.height, 100);
    assert_eq!(out.mime, "image/png");
    let round = image::load_from_memory(&out.bytes).unwrap();
    assert_eq!(round.width(), 200);
    assert_eq!(round.height(), 100);
}

#[test]
fn cover_center_crops_to_exact_size() {
    let data = png_bytes(200, 50);
    let mut c = cfg();
    c.width = Some(100);
    c.height = Some(100);
    c.fit = Some("cover".to_string());
    let out = transform_image(&data, &c).unwrap();
    assert_eq!(out.width, 100);
    assert_eq!(out.height, 100);
    let round = image::load_from_memory(&out.bytes).unwrap();
    assert_eq!(round.width(), 100);
    assert_eq!(round.height(), 100);
}

#[test]
fn exact_ignores_aspect_ratio() {
    let data = png_bytes(64, 64);
    let mut c = cfg();
    c.width = Some(30);
    c.height = Some(10);
    c.fit = Some("stretch".to_string());
    let out = transform_image(&data, &c).unwrap();
    assert_eq!((out.width, out.height), (30, 10));
}

#[test]
fn contain_fits_within_bounds() {
    let data = png_bytes(200, 100);
    let mut c = cfg();
    c.width = Some(100);
    c.height = Some(100);
    let out = transform_image(&data, &c).unwrap();
    assert!(out.width <= 100 && out.height <= 100);
    assert_eq!((out.width, out.height), (100, 50));
}

#[test]
fn width_only_scales_to_width() {
    let data = png_bytes(200, 100);
    let mut c = cfg();
    c.width = Some(50);
    let out = transform_image(&data, &c).unwrap();
    assert_eq!((out.width, out.height), (50, 25));
}

#[test]
fn max_box_contains() {
    let data = png_bytes(200, 100);
    let mut c = cfg();
    c.max_width = Some(40);
    c.max_height = Some(40);
    let out = transform_image(&data, &c).unwrap();
    assert!(out.width <= 40 && out.height <= 40);
}

#[test]
fn webp_format_selected() {
    let data = png_bytes(20, 20);
    let mut c = cfg();
    c.format = Some("webp".to_string());
    let out = transform_image(&data, &c).unwrap();
    assert_eq!(out.mime, "image/webp");
    assert_eq!(&out.bytes[0..4], b"RIFF");
}

#[test]
fn unknown_format_falls_back_to_jpeg() {
    let data = png_bytes(20, 20);
    let mut c = cfg();
    c.format = Some("tiffish".to_string());
    let out = transform_image(&data, &c).unwrap();
    assert_eq!(out.mime, "image/jpeg");
}

#[test]
fn garbage_bytes_fail_at_decode_stage() {
    let data: Vec<u8> = vec![7; 16];
    match transform_image(&data, &cfg()) {
        Err(e) => {
            assert_eq!(e.stage(), "decode");
            assert!(matches!(e, TransformError::Decode(_)));
        },
        Ok(_) => panic!("garbage decoded"),
    }
}

#[test]
fn oversized_bounds_fail_at_resize_stage() {
    let data = png_bytes(4, 4);
    let mut c = cfg();
    c.width = Some(2_000_000_000);
    c.height = Some(2_000_000_000);
    c.fit = Some("cover".to_string());
    match transform_image(&data, &c) {
        Err(e) => assert_eq!(e.stage(), "resize"),
        Ok(_) => panic!("absurd bounds accepted"),
    }
}

#[test]
fn process_image_maps_errors_to_internal() {
    let data: Vec<u8> = vec![1, 2, 3];
    match process_image(&data, &cfg()) {
        Err(mediacore::errors::AppError::InternalServerError(m)) => {
            assert!(m.contains("Failed to load image"));
        },
        _ => panic!("expected internal error"),
    }
}

#[test]
fn extension_for_mime() {
    assert_eq!(ext_for_mime("image/avif"), "avif");
    assert_eq!(ext_for_mime("image/webp"), "webp");
    assert_eq!(ext_for_mime("image/png"), "png");
    assert_eq!(ext_for_mime("image/jpeg"), "jpg");
    assert_eq!(ext_for_mime("application/pdf"), "bin");
}

#[test]
fn size_formatting() {
    assert_eq!(format_size(0), "0b");
    assert_eq!(format_size(512), "512b");
    assert_eq!(format_size(1024), "1.00kb");
    assert_eq!(format_size(1536), "1.50kb");
    assert_eq!(format_size(1048576), "1.00MiB");
    assert_eq!(format_size(1572864), "1.50MiB");
}
