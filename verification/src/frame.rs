use vstd::prelude::*;

use vstd::arithmetic::div_mod::lemma_fundamental_div_mod;
use vstd::arithmetic::div_mod::lemma_fundamental_div_mod_converse;

verus! {

/// The packed pixel value that the blitter leaves alone, so that the
/// background shows through.
pub const TRANSPARENT: u32 = 8092539;

/// One pixel packed for the display: alpha in the top byte, then red,
/// green, blue.
pub open spec fn argb_of(r: u8, g: u8, b: u8, a: u8) -> u32 {
    ((a as int) * 0x1000000 + (r as int) * 0x10000 + (g as int) * 0x100 + (b as int)) as u32
}

/// One pixel packed in byte order: red in the top byte, alpha at the
/// bottom.
pub open spec fn rgba_word(s: Seq<u8>) -> u32
    recommends
        s.len() == 4,
{
    ((s[0] as int) * 0x1000000 + (s[1] as int) * 0x10000 + (s[2] as int) * 0x100 + (s[3] as int)) as u32
}

/// A whole frame of RGBA bytes repacked as display pixels, four bytes to
/// a pixel; trailing bytes that do not fill a pixel are dropped.
pub open spec fn frame_argb(bytes: Seq<u8>) -> Seq<u32> {
    Seq::new(
        bytes.len() / 4,
        |i: int| argb_of(bytes[4 * i], bytes[4 * i + 1], bytes[4 * i + 2], bytes[4 * i + 3]),
    )
}

/// An image of `ih` rows of `iw` pixels flipped horizontally, row by row;
/// pixels beyond those rows keep their place.
pub open spec fn mirrored(img: Seq<u32>, iw: int, ih: int) -> Seq<u32>
    recommends
        iw * ih <= img.len(),
{
    Seq::new(
        img.len(),
        |i: int|
            if 0 <= i && i < iw * ih {
                img[(i / iw) * iw + (iw - 1 - (i % iw))]
            } else {
                img[i]
            },
    )
}

/// A byte frame with its final byte cleared, as the loader marks the
/// closing pixel of every frame.
pub open spec fn zero_last(b: Seq<u8>) -> Seq<u8>
    recommends
        b.len() >= 1,
{
    b.update(b.len() - 1, 0u8)
}

/// The display buffer after one frame is blitted over it: the frame's
/// rows of `bw` pixels land at `start` and every following row one
/// buffer-width `width` further down; pixels holding the transparent
/// sentinel leave the buffer alone, and so does everything outside the
/// blitted rectangle.
pub open spec fn blit_spec(
    base: Seq<u32>,
    frame: Seq<u32>,
    start: int,
    width: int,
    bw: int,
) -> Seq<u32>
    recommends
        width >= 1,
        1 <= bw <= width,
{
    Seq::new(
        base.len(),
        |i: int|
            {
                let rel = i - start;
                let hh = rel / width;
                let oo = rel % width;
                if rel >= 0 && oo < bw && hh < frame.len() as int / bw && frame[hh * bw + oo]
                    != TRANSPARENT {
                    frame[hh * bw + oo]
                } else {
                    base[i]
                }
            },
    )
}

/// The display buffer while a blit is underway: the rows before `h` are
/// done, and in row `h` the first `o` pixels are.
pub(crate) open spec fn blit_prefix(
    base: Seq<u32>,
    frame: Seq<u32>,
    start: int,
    width: int,
    bw: int,
    h: int,
    o: int,
) -> Seq<u32>
    recommends
        width >= 1,
        1 <= bw <= width,
{
    Seq::new(
        base.len(),
        |i: int|
            {
                let rel = i - start;
                let hh = rel / width;
                let oo = rel % width;
                if rel >= 0 && oo < bw && (hh < h || (hh == h && oo < o)) && frame[hh * bw + oo]
                    != TRANSPARENT {
                    frame[hh * bw + oo]
                } else {
                    base[i]
                }
            },
    )
}

/// Repacks one RGBA pixel for the display: the alpha byte moves to the
/// front, the colour bytes keep their order.
pub fn rgba_as_argb_u32(r: &u8, g: &u8, b: &u8, a: &u8) -> (res: u32)
    ensures
        res == argb_of(*r, *g, *b, *a),
{
    (*a as u32) * 0x1000000 + (*r as u32) * 0x10000 + (*g as u32) * 0x100 + (*b as u32)
}

/// Packs one RGBA pixel in byte order, red first.
pub fn rgba_as_u32(arr: &[u8; 4]) -> (res: u32)
    ensures
        res == rgba_word(arr@),
{
    let r = (arr[0] as u32) * 0x1000000;
    let g = (arr[1] as u32) * 0x10000;
    let b = (arr[2] as u32) * 0x100;
    let a = arr[3] as u32;
    r + g + b + a
}

/// Repacks a frame of RGBA bytes into the display buffer, four bytes to a
/// pixel.
pub fn argb_u32(buffer: &mut Vec<u32>, bytes: &[u8])
    ensures
        final(buffer)@ == frame_argb(bytes@),
{
    let blen = bytes.len();
    let n = blen / 4;
    proof {
        lemma_fundamental_div_mod(blen as int, 4);
    }
    let mut out: Vec<u32> = Vec::with_capacity(n);
    let mut i: usize = 0;
    while i < n
        invariant
            blen == bytes@.len(),
            n == bytes@.len() / 4,
            4 * n <= bytes@.len(),
            i <= n,
            out@.len() == i,
            forall|j: int| 0 <= j < i ==> out@[j] == frame_argb(bytes@)[j],
        decreases n - i,
    {
        let v = rgba_as_argb_u32(&bytes[4 * i], &bytes[4 * i + 1], &bytes[4 * i + 2], &bytes[4 * i + 3]);
        out.push(v);
        i += 1;
    }
    proof {
        assert(out@ =~= frame_argb(bytes@));
    }
    *buffer = out;
}

/// The quotient and remainder of an index inside a row-major image.
proof fn lemma_row_col(r: int, c: int, w: int)
    requires
        w > 0,
        0 <= c < w,
    ensures
        (r * w + c) / w == r,
        (r * w + c) % w == c,
{
    lemma_fundamental_div_mod_converse(r * w + c, w, r, c);
}

/// Flips the first `ih` rows of a row-major image of width `iw`
/// horizontally, in place.
pub fn turn(img: &mut Vec<u32>, iw: usize, ih: usize)
    requires
        iw * ih <= old(img)@.len(),
        ih > 0 ==> iw > 0,
    ensures
        final(img)@ == mirrored(old(img)@, iw as int, ih as int),
{
    let ghost orig = img@;
    let ghost m = mirrored(orig, iw as int, ih as int);
    let total = img.len();
    let split = iw / 2;
    let mut y: usize = 0;
    while y < ih
        invariant
            iw * ih <= orig.len(),
            ih > 0 ==> iw > 0,
            split == iw / 2,
            y <= ih,
            iw * y <= iw * ih,
            total == orig.len(),
            img@.len() == orig.len(),
            m == mirrored(orig, iw as int, ih as int),
            forall|i: int| 0 <= i < iw * y ==> img@[i] == m[i],
            forall|i: int| iw * y <= i < orig.len() ==> img@[i] == orig[i],
        decreases ih - y,
    {
        proof {
            assert(iw * (y + 1) <= iw * ih) by (nonlinear_arith)
                requires y < ih, iw >= 0;
            assert(iw * y + iw == iw * (y + 1)) by (nonlinear_arith);
        }
        let row_base = iw * y;
        let mut left: usize = row_base;
        let mut right: usize = row_base + iw - 1;
        let mut x: usize = 0;
        while x < split
            invariant
                iw * ih <= orig.len(),
                iw > 0,
                split == iw / 2,
                y < ih,
                row_base == iw * y,
                row_base + iw == iw * (y + 1),
                iw * (y + 1) <= iw * ih,
                x <= split,
                left == row_base + x,
                right == row_base + iw - 1 - x,
                img@.len() == orig.len(),
                m == mirrored(orig, iw as int, ih as int),
                forall|i: int| 0 <= i < row_base ==> img@[i] == m[i],
                forall|i: int|
                    row_base <= i < row_base + iw && (i - row_base < x || i - row_base > iw - 1
                        - x) ==> img@[i] == orig[2 * row_base + iw - 1 - i],
                forall|i: int|
                    row_base + x <= i <= row_base + iw - 1 - x ==> img@[i] == orig[i],
                forall|i: int| iw * (y + 1) <= i < orig.len() ==> img@[i] == orig[i],
            decreases split - x,
        {
            let a = img[left];
            let b = img[right];
            img.set(left, b);
            img.set(right, a);
            left += 1;
            right -= 1;
            x += 1;
        }
        proof {
            // the whole row now agrees with the mirrored image
            assert forall|i: int| 0 <= i < iw * (y + 1) implies img@[i] == m[i] by {
                if i >= row_base {
                    let c = i - row_base;
                    lemma_row_col(y as int, c, iw as int);
                    assert(i / (iw as int) == y && i % (iw as int) == c);
                    if split <= c <= iw - 1 - split {
                        // the untouched middle column is its own mirror image
                        assert(c == iw - 1 - c);
                    }
                }
            }
        }
        y += 1;
    }
    proof {
        assert forall|i: int| 0 <= i < orig.len() implies img@[i] == m[i] by {
            if i >= iw * ih {
                assert(img@[i] == orig[i]);
            }
        }
        assert(img@ =~= m);
    }
}

} // verus!
