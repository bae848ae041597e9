//! Bringing a raw frame into canonical channel order, in place.

use vstd::prelude::*;
use crate::error::CaptureError;
use crate::frame::{ColorLayout, PixelFormat, BYTES_PER_PIXEL};

verus! {

/// Whether byte `i` of a buffer of `len` bytes belongs to a pixel that lies
/// wholly inside the buffer. Bytes of a trailing partial pixel do not.
pub open spec fn in_whole_pixel(len: nat, i: int) -> bool {
    0 <= i && (i / 4) * 4 + 4 <= len
}

/// The bytes `s` with the first and the third byte of every whole pixel
/// exchanged, and every other byte left as it is.
pub open spec fn swap_red_blue(s: Seq<u8>) -> Seq<u8> {
    Seq::new(
        s.len(),
        |i: int|
            if in_whole_pixel(s.len(), i) && i % 4 == 0 {
                s[i + 2]
            } else if in_whole_pixel(s.len(), i) && i % 4 == 2 {
                s[i - 2]
            } else {
                s[i]
            },
    )
}

/// What normalisation makes of the bytes `s` of a frame in `format`: formats
/// that arrive as blue, green, red have red and blue exchanged, the format
/// that arrives as red, green, blue stays as it is.
pub open spec fn normalized(s: Seq<u8>, format: PixelFormat) -> Seq<u8> {
    match format.spec_layout() {
        ColorLayout::Bgra8 => swap_red_blue(s),
        ColorLayout::Rgba8 => s,
    }
}

/// Rewrites `buffer` in place into canonical red, green, blue order and
/// reports that layout. The buffer keeps its length, bytes outside whole
/// pixels are not touched, and nothing beyond the buffer is read or written.
pub fn normalize(buffer: &mut [u8], format: PixelFormat) -> (layout: ColorLayout)
    ensures
        final(buffer)@ == normalized(old(buffer)@, format),
        final(buffer)@.len() == old(buffer)@.len(),
        layout == ColorLayout::Rgba8,
{
    let ghost before = buffer@;
    match format.layout() {
        ColorLayout::Bgra8 => {
            let len: usize = buffer.len();
            let mut offset: usize = 0;
            while len - offset >= BYTES_PER_PIXEL
                invariant
                    offset <= len,
                    offset % 4 == 0,
                    buffer@.len() == len,
                    before.len() == len,
                    forall|i: int| 0 <= i < offset ==> buffer@[i] == swap_red_blue(before)[i],
                    forall|i: int| offset <= i < len ==> buffer@[i] == before[i],
                decreases len - offset,
            {
                let blue: u8 = buffer[offset];
                let red: u8 = buffer[offset + 2];
                buffer[offset] = red;
                buffer[offset + 2] = blue;
                offset = offset + BYTES_PER_PIXEL;
            }
        },
        ColorLayout::Rgba8 => {},
    }
    ColorLayout::Rgba8
}

/// Normalises a buffer whose format is known only by the wire code the
/// compositor advertised. A code that names no supported format is rejected,
/// and the buffer is left as it was.
pub fn normalize_advertised(buffer: &mut [u8], code: u32) -> (r: Result<ColorLayout, CaptureError>)
    ensures
        match PixelFormat::spec_from_code(code) {
            Some(format) => {
                &&& r == Ok::<ColorLayout, CaptureError>(ColorLayout::Rgba8)
                &&& final(buffer)@ == normalized(old(buffer)@, format)
            },
            None => {
                &&& r == Err::<ColorLayout, CaptureError>(CaptureError::UnsupportedFormat)
                &&& final(buffer)@ == old(buffer)@
            },
        },
{
    match PixelFormat::from_code(code) {
        Some(format) => Ok(normalize(buffer, format)),
        None => Err(CaptureError::UnsupportedFormat),
    }
}

/// Exchanging red and blue twice gives back the original bytes.
pub proof fn lemma_swap_red_blue_involution(s: Seq<u8>)
    ensures
        swap_red_blue(swap_red_blue(s)) == s,
{
}

/// Normalising twice at a format that exchanges red and blue restores the
/// bytes the frame arrived with.
pub proof fn lemma_normalize_twice_restores(s: Seq<u8>, format: PixelFormat)
    requires
        format.spec_layout() == ColorLayout::Bgra8,
    ensures
        normalized(normalized(s, format), format) == s,
{
}

/// Normalising at the format that is already canonical changes nothing, no
/// matter how often it is applied.
pub proof fn lemma_normalize_canonical_is_noop(s: Seq<u8>, format: PixelFormat)
    requires
        format.spec_layout() == ColorLayout::Rgba8,
    ensures
        normalized(s, format) == s,
        normalized(normalized(s, format), format) == s,
{
}

/// A second normalisation at the same format gives the result of the first
/// exactly when the format exchanges nothing or every whole pixel has equal
/// red and blue.
pub proof fn lemma_normalize_idempotent_iff(s: Seq<u8>, format: PixelFormat)
    ensures
        normalized(normalized(s, format), format) == normalized(s, format) <==> (
        format.spec_layout() == ColorLayout::Rgba8 || forall|i: int|
            in_whole_pixel(s.len(), i) && i % 4 == 0 && i < s.len() ==> s[i] == #[trigger] s[i + 2]),
{
    if format.spec_layout() == ColorLayout::Bgra8 {
        // The second exchange undoes the first, so the question is whether
        // the first changed anything.
        let t = swap_red_blue(s);
        lemma_swap_red_blue_involution(s);
        if t == s {
            assert forall|i: int|
                in_whole_pixel(s.len(), i) && i % 4 == 0 && i < s.len() implies s[i] == #[trigger] s[i
                + 2] by {
                assert(t[i] == s[i + 2]);
            }
        }
        if forall|i: int|
            in_whole_pixel(s.len(), i) && i % 4 == 0 && i < s.len() ==> s[i] == #[trigger] s[i + 2] {
            assert forall|i: int| 0 <= i < s.len() implies t[i] == s[i] by {
                if in_whole_pixel(s.len(), i) && i % 4 == 2 {
                    assert(s[i - 2] == s[(i - 2) + 2]);
                }
            }
            assert(t =~= s);
        }
    }
}

/// Normalisation keeps the length of the buffer and every byte that is not
/// the red or the blue byte of a whole pixel.
pub proof fn lemma_normalize_stays_in_bounds(s: Seq<u8>, format: PixelFormat)
    ensures
        normalized(s, format).len() == s.len(),
        forall|i: int|
            0 <= i < s.len() && (!in_whole_pixel(s.len(), i) || i % 4 == 1 || i % 4 == 3)
                ==> #[trigger] normalized(s, format)[i] == s[i],
{
}

} // verus!
