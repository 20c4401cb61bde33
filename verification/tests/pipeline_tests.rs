use imatree::codec::{decode_overlay, encode_image, render_overlay_png};
use imatree::{Args, Pixel, RasterImage, RenderErrorKind, Renderer};

fn request(name: &str, color: &str, font_size: u32, width: u32, height: u32) -> Args {
    Args {
        name: name.to_string(),
        path: ".".to_string(),
        color: color.to_string(),
        font_size,
        width,
        height,
    }
}

#[test]
fn pipeline_end_to_end() {
    let args = request("Test", "Black", 0, 200, 200);
    let out = args.render_text_to_png_data().unwrap();
    assert_eq!(out.file_name, "test.png");
    // the result must decode as a valid 200 x 200 image ...
    let img = image::load_from_memory(&out.png_data).unwrap();
    assert_eq!(img.width(), 200);
    assert_eq!(img.height(), 200);
    // ... that is predominantly white
    let rgba = img.to_rgba8();
    let white_count = rgba
        .pixels()
        .filter(|p| p.0 == [255u8, 255, 255, 255])
        .count();
    assert!(white_count > 200 * 200 / 2);
}

#[test]
fn pipeline_runs_are_consistent() {
    let first = request("Again", "Black", 0, 120, 80)
        .render_text_to_png_data()
        .unwrap();
    let second = request("Again", "Black", 0, 120, 80)
        .render_text_to_png_data()
        .unwrap();
    assert_eq!(first.file_name, second.file_name);
    let a = image::load_from_memory(&first.png_data).unwrap();
    let b = image::load_from_memory(&second.png_data).unwrap();
    assert_eq!(a.width(), b.width());
    assert_eq!(a.height(), b.height());
}

#[test]
fn pipeline_explicit_font_size() {
    let out = request("Sized", "Black", 24, 100, 60)
        .render_text_to_png_data()
        .unwrap();
    assert_eq!(out.file_name, "sized.png");
    let img = image::load_from_memory(&out.png_data).unwrap();
    assert_eq!((img.width(), img.height()), (100, 60));
}

#[test]
fn pipeline_zero_dimensions_fail() {
    let err = request("Test", "Black", 0, 0, 200)
        .render_text_to_png_data()
        .unwrap_err();
    assert_eq!(err.kind(), RenderErrorKind::Allocation);
}

#[test]
fn pipeline_bad_color_fails() {
    let err = request("Test", "NotAColorAtAll", 0, 50, 50)
        .render_text_to_png_data()
        .unwrap_err();
    assert_eq!(err.kind(), RenderErrorKind::Rendering);
    assert_eq!(err.message(), "Failed to render text to png data");
}

#[test]
fn render_overlay_produces_decodable_png() {
    let bytes = render_overlay_png("Hi", 40, "Black").unwrap();
    let img = image::load_from_memory(&bytes).unwrap();
    assert!(img.width() > 0);
    assert!(img.height() > 0);
}

#[test]
fn decode_rejects_garbage() {
    let garbage = vec![1u8, 2, 3, 4, 5];
    let err = decode_overlay(&garbage).unwrap_err();
    assert_eq!(err.kind(), RenderErrorKind::Decode);
    assert_eq!(err.message(), "Failed to load image");
}

#[test]
fn encode_then_decode_preserves_pixels() {
    let pixels = vec![
        Pixel { r: 10, g: 20, b: 30, a: 255 },
        Pixel { r: 200, g: 100, b: 50, a: 255 },
        Pixel { r: 0, g: 0, b: 0, a: 255 },
        Pixel { r: 255, g: 255, b: 255, a: 255 },
    ];
    let img = RasterImage { width: 2, height: 2, pixels: pixels.clone() };
    let encoded = encode_image(&img).unwrap();
    let back = decode_overlay(&encoded).unwrap();
    assert_eq!(back.width, 2);
    assert_eq!(back.height, 2);
    assert_eq!(back.pixels, pixels);
}
