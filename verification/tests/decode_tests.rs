use ascii_render::decode::RawImage;
use ascii_render::decode::decode;
use ascii_render::decode::grid_from_rgba;
use ascii_render::decode::render_bytes_to_text;
use ascii_render::grid::Pixel;
use ascii_render::grid::PixelGrid;
use ascii_render::palette::Palette;
use ascii_render::render::RenderError;
use ascii_render::render::RenderParameters;
use ascii_render::render::render_to_text;

fn png_bytes(width: u32, height: u32, rgba: Vec<u8>) -> Vec<u8> {
    let img = image::RgbaImage::from_raw(width, height, rgba).unwrap();
    let mut bytes: Vec<u8> = Vec::new();
    let mut cursor = std::io::Cursor::new(&mut bytes);
    image::DynamicImage::ImageRgba8(img)
        .write_to(&mut cursor, image::ImageFormat::Png)
        .unwrap();
    bytes
}

fn params(stride: usize, palette: &str) -> RenderParameters {
    RenderParameters { stride, palette: Palette::from_text(palette) }
}

#[test]
fn decode_png_roundtrip() {
    let rgba: Vec<u8> = vec![
        0, 0, 0, 255, // black
        255, 255, 255, 255, // white
        128, 128, 128, 255, // gray
        10, 20, 30, 0, // transparent
    ];
    let bytes = png_bytes(2, 2, rgba.clone());
    let g = decode(&bytes).unwrap();
    assert_eq!(g.width, 2);
    assert_eq!(g.height, 2);
    assert_eq!(g.pixels.len(), 4);
    for i in 0..4 {
        assert_eq!(g.pixels[i].r, rgba[4 * i]);
        assert_eq!(g.pixels[i].g, rgba[4 * i + 1]);
        assert_eq!(g.pixels[i].b, rgba[4 * i + 2]);
        assert_eq!(g.pixels[i].a, rgba[4 * i + 3]);
    }
}

#[test]
fn render_bytes_matches_grid_render() {
    let rgba: Vec<u8> = vec![
        0, 0, 0, 255,
        255, 255, 255, 255,
        128, 128, 128, 255,
        10, 20, 30, 0,
    ];
    let bytes = png_bytes(2, 2, rgba.clone());
    let from_bytes = render_bytes_to_text(&bytes, &params(1, ".,-~+=@")).unwrap();

    let pixels: Vec<Pixel> = (0..4)
        .map(|i| Pixel {
            r: rgba[4 * i],
            g: rgba[4 * i + 1],
            b: rgba[4 * i + 2],
            a: rgba[4 * i + 3],
        })
        .collect();
    let g = PixelGrid { width: 2, height: 2, pixels };
    let from_grid = render_to_text(&g, &params(1, ".,-~+=@")).unwrap();
    assert_eq!(from_bytes, from_grid);
    // One sampled row; black then white: forced space, then '@'.
    assert_eq!(from_bytes, " @\n");
}

#[test]
fn decode_garbage_fails() {
    let bytes: Vec<u8> = vec![1, 2, 3, 4, 5];
    assert_eq!(decode(&bytes).unwrap_err(), RenderError::DecodeError);
    assert_eq!(
        render_bytes_to_text(&bytes, &params(1, "@")).unwrap_err(),
        RenderError::DecodeError
    );
}

#[test]
fn render_bytes_rejects_bad_parameters() {
    let bytes = png_bytes(2, 1, vec![5, 5, 5, 255, 9, 9, 9, 255]);
    assert_eq!(
        render_bytes_to_text(&bytes, &params(0, "@")).unwrap_err(),
        RenderError::InvalidStride
    );
    assert_eq!(
        render_bytes_to_text(&bytes, &params(1, "")).unwrap_err(),
        RenderError::EmptyPalette
    );
}

#[test]
fn grid_from_rgba_reads_quadruples() {
    let raw = RawImage { width: 2, height: 1, data: vec![1, 2, 3, 4, 5, 6, 7, 8] };
    let g = grid_from_rgba(&raw).unwrap();
    assert_eq!(g.width, 2);
    assert_eq!(g.height, 1);
    assert_eq!(g.pixels[0], Pixel { r: 1, g: 2, b: 3, a: 4 });
    assert_eq!(g.pixels[1], Pixel { r: 5, g: 6, b: 7, a: 8 });
}

#[test]
fn grid_from_rgba_rejects_short_buffer() {
    let raw = RawImage { width: 2, height: 1, data: vec![1, 2, 3, 4, 5] };
    assert!(grid_from_rgba(&raw).is_none());
}
