//! The character palette and the brightness-to-character mapping.
//!
//! A palette orders its characters from darkest (index 0) to brightest.
//! Lookups go through the *effective* palette: the caller's palette with
//! index 0 always read as a space, so brightness-0 pixels render blank.

use vstd::prelude::*;
use vstd::arithmetic::div_mod::lemma_div_is_ordered;
use vstd::arithmetic::div_mod::lemma_div_is_ordered_by_denominator;
use vstd::arithmetic::div_mod::lemma_div_by_self;
use vstd::arithmetic::div_mod::lemma_div_pos_is_pos;

verus! {

/// An ordered sequence of palette characters, darkest first.
#[derive(Debug)]
pub struct Palette {
    pub chars: Vec<char>,
}

impl View for Palette {
    type V = Seq<char>;

    open spec fn view(&self) -> Seq<char> {
        self.chars@
    }
}

impl Palette {
    /// Builds a palette from a string, one entry per character of the
    /// string, so that a multi-byte character is never split.
    pub fn from_text(s: &str) -> (p: Palette)
        ensures
            p@ == s@,
    {
        let n = s.unicode_len();
        let mut chars: Vec<char> = Vec::new();
        let mut i: usize = 0;
        while i < n
            invariant
                i <= n,
                n == s@.len(),
                chars@ == s@.subrange(0, i as int),
            decreases n - i,
        {
            chars.push(s.get_char(i));
            proof {
                assert(chars@ =~= s@.subrange(0, i + 1 as int));
            }
            i = i + 1;
        }
        proof {
            assert(chars@ =~= s@);
        }
        Palette { chars }
    }
}

/// Width of one brightness bucket: `256 / plen`, truncated.
pub open spec fn bucket_width(plen: int) -> int
    recommends
        1 <= plen,
{
    256int / plen
}

/// The palette index a brightness maps to: brightness divided by the
/// bucket width, decremented once when that quotient lands past the end.
pub open spec fn palette_index(b: int, plen: int) -> int
    recommends
        0 <= b <= 255,
        1 <= plen <= 256,
{
    let i = b / bucket_width(plen);
    if i > plen - 1 {
        i - 1
    } else {
        i
    }
}

/// Palette lengths on which the index mapping stays in bounds: the bucket
/// width is positive, and even full brightness lands in range after the
/// single decrement.
pub open spec fn palette_len_total(plen: int) -> bool {
    &&& 1 <= plen <= 256
    &&& palette_index(255, plen) < plen
}

/// Decides at run time whether a palette length is one the index mapping
/// stays in bounds for.
pub fn palette_len_supported(plen: usize) -> (r: bool)
    ensures
        r == palette_len_total(plen as int),
{
    if 1 <= plen && plen <= 256 {
        let bw: usize = 256 / plen;
        proof {
            lemma_bucket_width_positive(plen as int);
        }
        let i: usize = 255 / bw;
        if i > plen - 1 {
            i - 1 < plen
        } else {
            i < plen
        }
    } else {
        false
    }
}

/// A positive bucket width for every palette length up to 256.
pub proof fn lemma_bucket_width_positive(plen: int)
    requires
        1 <= plen <= 256,
    ensures
        1 <= bucket_width(plen) <= 256,
{
    lemma_div_is_ordered_by_denominator(256, plen, 256);
    lemma_div_by_self(256);
    lemma_div_is_ordered_by_denominator(256, 1, plen);
}

/// Brightness bucketing is monotonic: for a fixed palette length,
/// a higher brightness never maps to a lower palette index.
pub proof fn lemma_palette_index_monotonic(b1: int, b2: int, plen: int)
    requires
        0 <= b1 <= b2,
        1 <= plen <= 256,
    ensures
        palette_index(b1, plen) <= palette_index(b2, plen),
{
    lemma_bucket_width_positive(plen);
    lemma_div_is_ordered(b1, b2, bucket_width(plen));
}

/// On a supported palette length, every brightness 0..=255 maps to a
/// valid palette index.
pub proof fn lemma_palette_index_in_range(b: int, plen: int)
    requires
        0 <= b <= 255,
        palette_len_total(plen),
    ensures
        0 <= palette_index(b, plen) < plen,
{
    lemma_bucket_width_positive(plen);
    lemma_palette_index_monotonic(b, 255, plen);
    lemma_div_pos_is_pos(b, bucket_width(plen));
}

/// The character of the effective palette at a given index: the palette's
/// own character everywhere but at index 0, which is always a space.
pub open spec fn effective_char(palette: Seq<char>, i: int) -> char
    recommends
        0 <= i < palette.len(),
{
    if i == 0 {
        ' '
    } else {
        palette[i]
    }
}

/// The character a brightness renders as, under a given palette.
pub open spec fn char_for(palette: Seq<char>, b: int) -> char
    recommends
        0 <= b <= 255,
        palette_len_total(palette.len() as int),
{
    effective_char(palette, palette_index(b, palette.len() as int))
}

/// Maps one brightness value to its palette character, through the
/// effective palette.
pub fn char_for_brightness(palette: &Palette, b: u8) -> (c: char)
    requires
        palette_len_total(palette@.len() as int),
    ensures
        c == char_for(palette@, b as int),
{
    let plen = palette.chars.len();
    let bw: usize = 256 / plen;
    proof {
        lemma_bucket_width_positive(plen as int);
        lemma_palette_index_in_range(b as int, plen as int);
    }
    let q: usize = (b as usize) / bw;
    let i: usize = if q > plen - 1 {
        q - 1
    } else {
        q
    };
    if i == 0 {
        ' '
    } else {
        palette.chars[i]
    }
}

/// Brightness 0 always renders as a space: it maps to index 0, whose
/// effective character is the space, whatever the palette holds there.
pub proof fn lemma_zero_brightness_is_space(palette: Seq<char>)
    requires
        1 <= palette.len() <= 256,
    ensures
        char_for(palette, 0) == ' ',
{
    lemma_bucket_width_positive(palette.len() as int);
    lemma_div_pos_is_pos(0, bucket_width(palette.len() as int));
    lemma_div_is_ordered(0, 0, bucket_width(palette.len() as int));
    assert(0int / bucket_width(palette.len() as int) == 0) by {
        vstd::arithmetic::div_mod::lemma_div_of0(bucket_width(palette.len() as int));
    }
}

} // verus!
