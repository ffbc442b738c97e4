//! Decoding image bytes into a pixel grid, through the `image` crate,
//! and the bytes-to-text conversion built on top of it.

use vstd::prelude::*;
use crate::grid::Pixel;
use crate::grid::PixelGrid;
use crate::palette::palette_len_total;
use crate::render::RenderError;
use crate::render::RenderParameters;
use crate::render::render_spec;
use crate::render::line_chars;
use crate::render::text_of;
use crate::render::render_to_text;

verus! {

/// What the image decoder makes of a byte buffer, when it recognises
/// one: width, height, and the row-major RGBA bytes, four per pixel.
/// Decoding is a function of the bytes alone, so the result has a name
/// rather than a statement.
pub uninterp spec fn decoded_rgba(bytes: Seq<u8>) -> Option<(u32, u32, Seq<u8>)>;

/// A decoded image as the decoder hands it over: dimensions and a
/// row-major RGBA byte buffer.
#[derive(Debug)]
pub struct RawImage {
    pub width: u32,
    pub height: u32,
    pub data: Vec<u8>,
}

/// Relies on `image::load_from_memory` to decode the bytes, and on
/// `DynamicImage::dimensions` and `DynamicImage::to_rgba8` to read the
/// result out; an `ImageBuffer` always holds at least
/// `4 * width * height` bytes.
#[verifier::external_body]
fn decode_image(bytes: &Vec<u8>) -> (r: Option<RawImage>)
    ensures
        match r {
            Some(raw) => {
                &&& decoded_rgba(bytes@) == Some((raw.width, raw.height, raw.data@))
                &&& raw.data@.len() >= 4 * raw.width * raw.height
            },
            None => decoded_rgba(bytes@) is None,
        },
{
    match image::load_from_memory(bytes.as_slice()) {
        Ok(img) => {
            let (width, height) = image::GenericImageView::dimensions(&img);
            Some(RawImage { width, height, data: img.to_rgba8().into_raw() })
        },
        Err(_) => None,
    }
}

/// The grid holds exactly the decoder's pixels: pixel `i` takes bytes
/// `4*i .. 4*i + 4` of the RGBA buffer as its four channels.
pub open spec fn grid_matches_rgba(g: PixelGrid, width: int, height: int, data: Seq<u8>) -> bool {
    &&& g.width == width
    &&& g.height == height
    &&& g.pixels@.len() == width * height
    &&& forall|i: int|
        0 <= i < width * height ==> g.pixels@[i] == (Pixel {
            r: data[4 * i],
            g: data[4 * i + 1],
            b: data[4 * i + 2],
            a: data[4 * i + 3],
        })
}

/// Rebuilds a raw RGBA buffer as a pixel grid, rejecting a buffer too
/// short for the claimed dimensions.
#[verifier::loop_isolation(false)]
pub fn grid_from_rgba(raw: &RawImage) -> (r: Option<PixelGrid>)
    ensures
        match r {
            Some(g) => g.wf() && grid_matches_rgba(
                g,
                raw.width as int,
                raw.height as int,
                raw.data@,
            ),
            None => raw.data@.len() < 4 * raw.width * raw.height,
        },
{
    let w = raw.width as usize;
    let h = raw.height as usize;
    let dlen = raw.data.len();
    let area = match w.checked_mul(h) {
        Some(a) => a,
        None => {
            proof {
                assert(4 * (w as int) * (h as int) >= (w as int) * (h as int))
                    by (nonlinear_arith);
            }
            return None;
        },
    };
    proof {
        assert(4 * (w as int) * (h as int) == 4 * ((w as int) * (h as int)))
            by (nonlinear_arith);
    }
    let quad = match area.checked_mul(4) {
        Some(q) => q,
        None => {
            return None;
        },
    };
    if dlen < quad {
        return None;
    }
    let mut pixels: Vec<Pixel> = Vec::new();
    let mut i: usize = 0;
    while i < area
        invariant
            i <= area,
            pixels@.len() == i,
            forall|t: int|
                0 <= t < i ==> pixels@[t] == (Pixel {
                    r: raw.data@[4 * t],
                    g: raw.data@[4 * t + 1],
                    b: raw.data@[4 * t + 2],
                    a: raw.data@[4 * t + 3],
                }),
        decreases area - i,
    {
        let base = 4 * i;
        let p = Pixel {
            r: raw.data[base],
            g: raw.data[base + 1],
            b: raw.data[base + 2],
            a: raw.data[base + 3],
        };
        pixels.push(p);
        i = i + 1;
    }
    Some(PixelGrid { width: w, height: h, pixels })
}

/// Decodes raw image bytes into a pixel grid; bytes the decoder does not
/// recognise give `DecodeError`.
pub fn decode(bytes: &Vec<u8>) -> (r: Result<PixelGrid, RenderError>)
    ensures
        match r {
            Ok(g) => {
                &&& g.wf()
                &&& decoded_rgba(bytes@) matches Some((w, h, data)) && grid_matches_rgba(
                    g,
                    w as int,
                    h as int,
                    data,
                )
            },
            Err(e) => e == RenderError::DecodeError && decoded_rgba(bytes@) is None,
        },
{
    match decode_image(bytes) {
        Some(raw) => {
            match grid_from_rgba(&raw) {
                Some(g) => Ok(g),
                None => {
                    proof {
                        assert(false);
                    }
                    Err(RenderError::DecodeError)
                },
            }
        },
        None => Err(RenderError::DecodeError),
    }
}

/// The rendering reads the grid only through its dimensions and pixel
/// sequence: grids that agree on those render alike.
pub proof fn lemma_render_spec_depends_on_view(
    g1: PixelGrid,
    g2: PixelGrid,
    palette: Seq<char>,
    stride: int,
)
    requires
        g1.width == g2.width,
        g1.height == g2.height,
        g1.pixels@ == g2.pixels@,
    ensures
        render_spec(g1, palette, stride) == render_spec(g2, palette, stride),
{
    let s1 = render_spec(g1, palette, stride);
    let s2 = render_spec(g2, palette, stride);
    if g1.width != 0 && g1.height != 0 {
        assert forall|k: int| 0 <= k < s1.len() implies s1[k] == s2[k] by {
            assert(line_chars(g1, palette, stride, k) =~= line_chars(g2, palette, stride, k));
        }
        assert(s1 =~= s2);
    }
}

/// Decodes image bytes and converts them to ASCII-art text in one step:
/// the text renders whatever grid the decoder's bytes describe.
pub fn render_bytes_to_text(bytes: &Vec<u8>, params: &RenderParameters) -> (r: Result<
    String,
    RenderError,
>)
    requires
        (params.stride >= 1 && params.palette@.len() > 0) ==> palette_len_total(
            params.palette@.len() as int,
        ),
    ensures
        match r {
            Ok(text) => decoded_rgba(bytes@) matches Some((w, h, data)) && {
                &&& (w == 0 || h == 0 || (params.stride >= 1 && params.palette@.len() > 0))
                &&& forall|g: PixelGrid|
                    g.wf() && grid_matches_rgba(g, w as int, h as int, data) ==> text@ == text_of(
                        render_spec(g, params.palette@, params.stride as int),
                    )
            },
            Err(e) => match e {
                RenderError::DecodeError => decoded_rgba(bytes@) is None,
                RenderError::InvalidStride => decoded_rgba(bytes@) matches Some((w, h, data))
                    && w > 0 && h > 0 && params.stride == 0,
                RenderError::EmptyPalette => decoded_rgba(bytes@) matches Some((w, h, data))
                    && w > 0 && h > 0 && params.stride >= 1 && params.palette@.len() == 0,
            },
        },
{
    let g = match decode(bytes) {
        Ok(g) => g,
        Err(e) => {
            return Err(e);
        },
    };
    match render_to_text(&g, params) {
        Ok(text) => {
            proof {
                let (w, h, data) = decoded_rgba(bytes@)->Some_0;
                assert forall|g2: PixelGrid|
                    g2.wf() && grid_matches_rgba(g2, w as int, h as int, data) implies text@
                    == text_of(render_spec(g2, params.palette@, params.stride as int)) by {
                    assert(g2.pixels@.len() == g.pixels@.len());
                    assert forall|t: int| 0 <= t < g2.pixels@.len() implies g2.pixels@[t]
                        == g.pixels@[t] by {}
                    assert(g2.pixels@ =~= g.pixels@);
                    lemma_render_spec_depends_on_view(
                        g2,
                        g,
                        params.palette@,
                        params.stride as int,
                    );
                }
            }
            Ok(text)
        },
        Err(e) => Err(e),
    }
}

} // verus!
