//! The core renderer: samples the pixel grid on a stride, maps each sampled
//! pixel's brightness to a palette character, and assembles the text lines.
//!
//! Rows are sampled every `2 * stride` pixels and columns every `stride`
//! pixels; the doubled vertical period compensates for glyphs being taller
//! than they are wide.

use vstd::prelude::*;
use vstd::arithmetic::div_mod::lemma_div_is_ordered;
use vstd::arithmetic::div_mod::lemma_div_by_multiple;
use vstd::arithmetic::div_mod::lemma_fundamental_div_mod_converse;
use crate::grid::PixelGrid;
use crate::grid::brightness;
use crate::grid::brightness_spec;
use crate::palette::Palette;
use crate::palette::char_for;
use crate::palette::char_for_brightness;
use crate::palette::palette_len_total;
use crate::palette::lemma_zero_brightness_is_space;

verus! {

/// What `render` needs besides the image: the sampling stride and the
/// palette, darkest character first.
#[derive(Debug)]
pub struct RenderParameters {
    pub stride: usize,
    pub palette: Palette,
}

/// Why a conversion did not produce text.
#[derive(Clone, Copy, PartialEq, Eq, Structural, Debug)]
pub enum RenderError {
    /// The stride was zero, which gives no sampling grid.
    InvalidStride,
    /// The palette held no characters.
    EmptyPalette,
    /// The image bytes could not be decoded into a pixel grid.
    DecodeError,
}

/// How many columns a row samples: the x coordinates `0, stride, ...`
/// that fall short of `width`.
pub open spec fn num_cols(width: int, stride: int) -> int
    recommends
        0 <= width,
        1 <= stride,
{
    if width == 0 {
        0
    } else {
        (width - 1) / stride + 1
    }
}

/// How many rows are sampled: the y coordinates `0, 2 * stride, ...`
/// that fall short of `height`.
pub open spec fn num_rows(height: int, stride: int) -> int
    recommends
        0 <= height,
        1 <= stride,
{
    if height == 0 {
        0
    } else {
        (height - 1) / (2 * stride) + 1
    }
}

/// The characters of sampled row `k`: one palette character per sampled
/// column, left to right.
pub open spec fn line_chars(g: PixelGrid, palette: Seq<char>, stride: int, k: int) -> Seq<char> {
    Seq::new(
        num_cols(g.width as int, stride) as nat,
        |j: int| char_for(palette, brightness_spec(g.pixel_at(j * stride, k * (2 * stride)))),
    )
}

/// The full rendering: one line per sampled row, top to bottom; an image
/// with no pixels renders as no lines at all.
pub open spec fn render_spec(g: PixelGrid, palette: Seq<char>, stride: int) -> Seq<Seq<char>> {
    if g.width == 0 || g.height == 0 {
        Seq::empty()
    } else {
        Seq::new(
            num_rows(g.height as int, stride) as nat,
            |k: int| line_chars(g, palette, stride, k),
        )
    }
}

/// The rendering's shape: one line per sampled row and one character per
/// sampled column, and no lines at all for an image with no pixels.
pub proof fn lemma_render_shape(g: PixelGrid, palette: Seq<char>, stride: int)
    requires
        1 <= stride,
    ensures
        (g.width == 0 || g.height == 0) ==> render_spec(g, palette, stride).len() == 0,
        (g.width > 0 && g.height > 0) ==> render_spec(g, palette, stride).len() == num_rows(
            g.height as int,
            stride,
        ),
        forall|k: int|
            0 <= k < render_spec(g, palette, stride).len()
                ==> #[trigger] render_spec(g, palette, stride)[k].len() == num_cols(
                g.width as int,
                stride,
            ),
{
}

/// Relies on `String::push`: appends exactly the given character at the
/// end of the string.
#[verifier::external_body]
fn push_char(s: &mut String, c: char)
    ensures
        final(s)@ == old(s)@.push(c),
{
    s.push(c);
}

/// Position `q * step` is in `[0, limit)`; whether one more step stays
/// below `limit` decides whether `q` was the last sample index.
proof fn lemma_sample_count(q: int, step: int, limit: int)
    requires
        1 <= step,
        0 <= q,
        q * step < limit,
    ensures
        q < (limit - 1) / step + 1,
        q * step + step >= limit ==> q + 1 == (limit - 1) / step + 1,
        q * step + step < limit ==> q + 1 < (limit - 1) / step + 1,
{
    lemma_div_by_multiple(q, step);
    lemma_div_is_ordered(q * step, limit - 1, step);
    if q * step + step >= limit {
        let r = limit - 1 - q * step;
        lemma_fundamental_div_mod_converse(limit - 1, step, q, r);
    } else {
        assert((q + 1) * step == q * step + step) by (nonlinear_arith);
        lemma_div_by_multiple(q + 1, step);
        lemma_div_is_ordered((q + 1) * step, limit - 1, step);
    }
}

/// A pixel coordinate inside the grid lands inside the row-major buffer.
proof fn lemma_pixel_index_bound(x: int, y: int, w: int, h: int)
    requires
        0 <= x < w,
        0 <= y < h,
    ensures
        0 <= y * w + x < w * h,
{
    assert(0 <= y * w + x < w * h) by (nonlinear_arith)
        requires
            0 <= x < w,
            0 <= y < h,
    ;
}

/// Converts a pixel grid to ASCII-art lines.
///
/// An image with zero width or height renders as no lines, whatever the
/// other parameters are; otherwise a zero stride is rejected, then an
/// empty palette, and otherwise the sampled grid is rendered exactly as
/// `render_spec` states.
#[verifier::loop_isolation(false)]
pub fn render(g: &PixelGrid, params: &RenderParameters) -> (r: Result<Vec<String>, RenderError>)
    requires
        g.wf(),
        (g.width > 0 && g.height > 0 && params.stride >= 1 && params.palette@.len() > 0)
            ==> palette_len_total(params.palette@.len() as int),
    ensures
        match r {
            Ok(lines) => {
                &&& (g.width == 0 || g.height == 0 || (params.stride >= 1
                    && params.palette@.len() > 0))
                &&& lines.deep_view() == render_spec(*g, params.palette@, params.stride as int)
            },
            Err(e) => match e {
                RenderError::InvalidStride => g.width > 0 && g.height > 0
                    && params.stride == 0,
                RenderError::EmptyPalette => g.width > 0 && g.height > 0
                    && params.stride >= 1 && params.palette@.len() == 0,
                RenderError::DecodeError => false,
            },
        },
        (g.width == 0 || g.height == 0) ==> (r matches Ok(lines) && lines@.len() == 0),
{
    let width = g.width;
    let height = g.height;
    let ghost pal = params.palette@;
    if width == 0 || height == 0 {
        let lines: Vec<String> = Vec::new();
        proof {
            assert(lines.deep_view() =~= render_spec(*g, pal, params.stride as int));
        }
        return Ok(lines);
    }
    if params.stride == 0 {
        return Err(RenderError::InvalidStride);
    }
    let stride = params.stride;
    let plen = params.palette.chars.len();
    if plen == 0 {
        return Err(RenderError::EmptyPalette);
    }

    // Binds the buffer length as a usize, which bounds the index
    // arithmetic below.
    let n = g.pixels.len();
    let ghost nrows = num_rows(height as int, stride as int);
    let ghost ncols = num_cols(width as int, stride as int);
    let ghost target = render_spec(*g, pal, stride as int);

    let mut lines: Vec<String> = Vec::new();
    let mut y: usize = 0;
    while y < height
        invariant
            lines@.len() <= nrows,
            y < height ==> y == lines@.len() * (2 * stride),
            y >= height ==> lines@.len() == nrows,
            lines.deep_view() == target.subrange(0, lines@.len() as int),
        decreases height - y,
    {
        let ghost k = lines@.len() as int;
        proof {
            lemma_sample_count(k, 2 * (stride as int), height as int);
        }

        let mut line = String::new();
        let mut x: usize = 0;
        while x < width
            invariant
                line@.len() <= ncols,
                x < width ==> x == line@.len() * stride,
                x >= width ==> line@.len() == ncols,
                line@ == line_chars(*g, pal, stride as int, k).subrange(0, line@.len() as int),
            decreases width - x,
        {
            let ghost j = line@.len() as int;
            proof {
                lemma_sample_count(j, stride as int, width as int);
                lemma_pixel_index_bound(x as int, y as int, width as int, height as int);
            }
            let p = g.pixels[y * width + x];
            let b = brightness(p);
            let c = char_for_brightness(&params.palette, b);
            push_char(&mut line, c);
            proof {
                assert(p == g.pixel_at(j * (stride as int), k * (2 * (stride as int))));
                assert(line@ =~= line_chars(*g, pal, stride as int, k).subrange(0, j + 1));
            }
            let rem = width - x;
            if stride < rem {
                x = x + stride;
                proof {
                    assert((j + 1) * (stride as int) == j * (stride as int) + stride)
                        by (nonlinear_arith);
                }
            } else {
                x = width;
            }
        }
        proof {
            assert(line@ =~= line_chars(*g, pal, stride as int, k));
            assert(target[k] == line_chars(*g, pal, stride as int, k));
        }
        lines.push(line);
        proof {
            assert(lines.deep_view() =~= target.subrange(0, k + 1));
        }

        let rem = height - y;
        if stride < rem && stride < rem - stride {
            y = y + stride + stride;
            proof {
                assert((k + 1) * (2 * (stride as int)) == k * (2 * (stride as int))
                    + 2 * (stride as int)) by (nonlinear_arith);
            }
        } else {
            y = height;
        }
    }
    proof {
        assert(lines.deep_view() =~= target);
    }
    Ok(lines)
}

/// The lines joined into one text block: every line, in order, followed
/// by a newline character.
pub open spec fn text_of(lines: Seq<Seq<char>>) -> Seq<char>
    decreases lines.len(),
{
    if lines.len() == 0 {
        Seq::empty()
    } else {
        text_of(lines.drop_last()) + lines.last() + seq!['\n']
    }
}

/// Converts a pixel grid to one text block: the rendered lines in order,
/// each followed by a newline; accepts and rejects exactly as `render`
/// does.
#[verifier::loop_isolation(false)]
pub fn render_to_text(g: &PixelGrid, params: &RenderParameters) -> (r: Result<
    String,
    RenderError,
>)
    requires
        g.wf(),
        (g.width > 0 && g.height > 0 && params.stride >= 1 && params.palette@.len() > 0)
            ==> palette_len_total(params.palette@.len() as int),
    ensures
        match r {
            Ok(text) => {
                &&& (g.width == 0 || g.height == 0 || (params.stride >= 1
                    && params.palette@.len() > 0))
                &&& text@ == text_of(render_spec(*g, params.palette@, params.stride as int))
            },
            Err(e) => match e {
                RenderError::InvalidStride => g.width > 0 && g.height > 0
                    && params.stride == 0,
                RenderError::EmptyPalette => g.width > 0 && g.height > 0
                    && params.stride >= 1 && params.palette@.len() == 0,
                RenderError::DecodeError => false,
            },
        },
        (g.width == 0 || g.height == 0) ==> (r matches Ok(text) && text@.len() == 0),
{
    let lines = match render(g, params) {
        Ok(l) => l,
        Err(e) => {
            return Err(e);
        },
    };
    let ghost ldv = lines.deep_view();
    let mut text = String::new();
    let mut i: usize = 0;
    while i < lines.len()
        invariant
            i <= lines@.len(),
            text@ == text_of(ldv.subrange(0, i as int)),
        decreases lines@.len() - i,
    {
        let line = &lines[i];
        text.append(line.as_str());
        push_char(&mut text, '\n');
        proof {
            assert(ldv.subrange(0, i as int + 1).drop_last() =~= ldv.subrange(0, i as int));
            assert(ldv.subrange(0, i as int + 1).last() == ldv[i as int]);
            assert(text@ =~= text_of(ldv.subrange(0, i as int + 1)));
        }
        i = i + 1;
    }
    proof {
        assert(ldv.subrange(0, lines@.len() as int) =~= ldv);
    }
    Ok(text)
}

/// A fully transparent pixel at a sampled coordinate renders as the
/// space character, whatever its color channels hold.
pub proof fn lemma_transparent_sample_is_space(
    g: PixelGrid,
    palette: Seq<char>,
    stride: int,
    k: int,
    j: int,
)
    requires
        g.width > 0,
        g.height > 0,
        1 <= stride,
        palette_len_total(palette.len() as int),
        0 <= k < num_rows(g.height as int, stride),
        0 <= j < num_cols(g.width as int, stride),
        g.pixel_at(j * stride, k * (2 * stride)).a == 0,
    ensures
        render_spec(g, palette, stride)[k][j] == ' ',
{
    lemma_zero_brightness_is_space(palette);
    assert(render_spec(g, palette, stride)[k] == line_chars(g, palette, stride, k));
}

/// Rendering is a pure function of its inputs: any two line sequences
/// that `render`'s postcondition admits for the same grid, palette and
/// stride are equal.
pub proof fn lemma_render_deterministic(
    r1: Seq<Seq<char>>,
    r2: Seq<Seq<char>>,
    g: PixelGrid,
    palette: Seq<char>,
    stride: int,
)
    requires
        r1 == render_spec(g, palette, stride),
        r2 == render_spec(g, palette, stride),
    ensures
        r1 == r2,
{
}

} // verus!
