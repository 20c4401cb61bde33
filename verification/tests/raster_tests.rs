use imatree::{
    create_white_background_image, overlay_centered, Pixel, RasterImage, RenderError,
    RenderErrorKind,
};
use imatree::raster::{bytes_from_pixels, pixels_from_bytes};

fn solid(width: u32, height: u32, px: Pixel) -> RasterImage {
    let n = (width as usize) * (height as usize);
    let mut pixels = Vec::new();
    while pixels.len() < n {
        pixels.push(px);
    }
    RasterImage { width, height, pixels }
}

const WHITE: Pixel = Pixel { r: 255, g: 255, b: 255, a: 255 };
const RED: Pixel = Pixel { r: 255, g: 0, b: 0, a: 255 };

#[test]
fn canvas_is_all_white() {
    for (w, h) in [(1u32, 1u32), (3, 2), (7, 5), (16, 16)] {
        let img = create_white_background_image(w, h).unwrap();
        assert_eq!(img.width, w);
        assert_eq!(img.height, h);
        assert_eq!(img.pixels.len(), (w as usize) * (h as usize));
        for px in &img.pixels {
            assert_eq!(*px, WHITE);
        }
    }
}

#[test]
fn canvas_zero_dimension_fails() {
    assert_eq!(
        create_white_background_image(0, 5).unwrap_err().kind(),
        RenderErrorKind::Allocation
    );
    assert_eq!(
        create_white_background_image(5, 0).unwrap_err().kind(),
        RenderErrorKind::Allocation
    );
    assert_eq!(
        RenderError::Allocation.message(),
        "Failed to allocate image canvas"
    );
}

#[test]
fn smaller_overlay_is_centered() {
    let mut canvas = create_white_background_image(10, 10).unwrap();
    let overlay = solid(4, 4, RED);
    overlay_centered(&mut canvas, &overlay);
    assert_eq!(canvas.width, 10);
    assert_eq!(canvas.height, 10);
    let at = |x: usize, y: usize| canvas.pixels[y * 10 + x];
    // offset is (10 - 4) / 2 == 3 in both dimensions
    for y in 0..10 {
        for x in 0..10 {
            let inside = (3..7).contains(&x) && (3..7).contains(&y);
            assert_eq!(at(x, y), if inside { RED } else { WHITE });
        }
    }
    // the overlay midpoint sits within a pixel of the canvas midpoint
    let offset_x = 3i64;
    assert!((10 / 2 - (offset_x + 4 / 2)).abs() <= 1);
}

#[test]
fn larger_overlay_is_clipped() {
    let mut canvas = create_white_background_image(4, 4).unwrap();
    let overlay = solid(6, 6, RED);
    overlay_centered(&mut canvas, &overlay);
    assert_eq!(canvas.width, 4);
    assert_eq!(canvas.height, 4);
    assert_eq!(canvas.pixels.len(), 16);
    for px in &canvas.pixels {
        assert_eq!(*px, RED);
    }
}

#[test]
fn semitransparent_overlay_blends() {
    let mut canvas = create_white_background_image(1, 1).unwrap();
    let overlay = solid(1, 1, Pixel { r: 100, g: 50, b: 200, a: 128 });
    overlay_centered(&mut canvas, &overlay);
    // channel = (over * 128 + 255 * 127) / 255, truncating
    assert_eq!(canvas.pixels[0], Pixel { r: 177, g: 152, b: 227, a: 255 });
}

#[test]
fn opaque_overlay_replaces_canvas_pixels() {
    let mut canvas = create_white_background_image(2, 2).unwrap();
    let overlay = solid(2, 2, Pixel { r: 1, g: 2, b: 3, a: 255 });
    overlay_centered(&mut canvas, &overlay);
    for px in &canvas.pixels {
        assert_eq!(*px, Pixel { r: 1, g: 2, b: 3, a: 255 });
    }
}

#[test]
fn pixel_byte_round_trip() {
    let pixels = vec![
        Pixel { r: 1, g: 2, b: 3, a: 4 },
        Pixel { r: 250, g: 0, b: 128, a: 255 },
    ];
    let v = Vec::from(pixels.clone());
    let bytes = bytes_from_pixels(&v);
    assert_eq!(bytes, vec![1, 2, 3, 4, 250, 0, 128, 255]);
    let back = pixels_from_bytes(&bytes);
    assert_eq!(back, pixels);
}
