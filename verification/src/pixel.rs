//! Pixels as the platform delivers them, and channel-order normalization.
//!
//! The platform hands pixels back in reverse (blue-green-red) channel order.
//! [`normalize_channel_order`] swaps the first and third byte of every pixel
//! group so the buffer ends up in red-green-blue order; a fourth pad byte, if
//! present, is passed through untouched.

use vstd::prelude::*;

verus! {

/// One pixel as delivered by the platform readback: blue, green, red and an
/// untouched pad byte.
#[derive(Clone, Copy, PartialEq, Eq, Structural, Debug)]
pub struct Pixel {
    pub b: u8,
    pub g: u8,
    pub r: u8,
    pub pad: u8,
}

/// Byte `k` of pixel group `j` in a packed byte buffer whose pixel groups are
/// `stride` bytes wide.
pub open spec fn grp(s: Seq<u8>, stride: int, j: int, k: int) -> u8 {
    s[stride * j + k]
}

/// Pixel `(x, y)` of a row-major, top-to-bottom pixel sequence whose rows are
/// `w` pixels wide.
pub open spec fn pix(s: Seq<Pixel>, w: int, x: int, y: int) -> Pixel {
    s[y * w + x]
}

/// Pixel group `(x, y)` of a packed byte buffer whose rows are `cw` groups of
/// `bpp` bytes holds, in blue-green-red order, the source pixel at
/// `(x0 + x, y0 + y)` of a pixel sequence whose rows are `sw` pixels wide.
pub open spec fn bgr_region_sample(
    bytes: Seq<u8>,
    bpp: int,
    src: Seq<Pixel>,
    sw: int,
    x0: int,
    y0: int,
    cw: int,
    x: int,
    y: int,
) -> bool {
    &&& grp(bytes, bpp, y * cw + x, 0) == pix(src, sw, x0 + x, y0 + y).b
    &&& grp(bytes, bpp, y * cw + x, 1) == pix(src, sw, x0 + x, y0 + y).g
    &&& grp(bytes, bpp, y * cw + x, 2) == pix(src, sw, x0 + x, y0 + y).r
    &&& (bpp == 4 ==> grp(bytes, bpp, y * cw + x, 3) == pix(src, sw, x0 + x, y0 + y).pad)
}

/// As [`bgr_region_sample`], but with the buffer bytes in red-green-blue
/// order, the order every public capture returns.
pub open spec fn rgb_region_sample(
    bytes: Seq<u8>,
    bpp: int,
    src: Seq<Pixel>,
    sw: int,
    x0: int,
    y0: int,
    cw: int,
    x: int,
    y: int,
) -> bool {
    &&& grp(bytes, bpp, y * cw + x, 0) == pix(src, sw, x0 + x, y0 + y).r
    &&& grp(bytes, bpp, y * cw + x, 1) == pix(src, sw, x0 + x, y0 + y).g
    &&& grp(bytes, bpp, y * cw + x, 2) == pix(src, sw, x0 + x, y0 + y).b
    &&& (bpp == 4 ==> grp(bytes, bpp, y * cw + x, 3) == pix(src, sw, x0 + x, y0 + y).pad)
}

/// Pixel group `j` of `post` holds the same bytes as pixel group `j` of `pre`
/// with the first and third byte exchanged; a fourth byte is unchanged.
pub open spec fn swapped_group(pre: Seq<u8>, post: Seq<u8>, stride: int, j: int) -> bool {
    &&& grp(post, stride, j, 0) == grp(pre, stride, j, 2)
    &&& grp(post, stride, j, 1) == grp(pre, stride, j, 1)
    &&& grp(post, stride, j, 2) == grp(pre, stride, j, 0)
    &&& (stride == 4 ==> grp(post, stride, j, 3) == grp(pre, stride, j, 3))
}

/// Swaps the first and third byte of every complete pixel group in `buffer`,
/// turning platform blue-green-red order into red-green-blue order. Bytes
/// after the last complete group are left as they are.
pub fn normalize_channel_order(buffer: &mut Vec<u8>, stride: usize)
    requires
        stride == 3 || stride == 4,
    ensures
        final(buffer)@.len() == old(buffer)@.len(),
        forall|j: int|
            0 <= j < old(buffer)@.len() as int / stride as int ==> #[trigger] swapped_group(
                old(buffer)@,
                final(buffer)@,
                stride as int,
                j,
            ),
        forall|i: int|
            stride as int * (old(buffer)@.len() as int / stride as int) <= i < old(
                buffer,
            )@.len() ==> final(buffer)@[i] == old(buffer)@[i],
{
    let len = buffer.len();
    let n = len / stride;
    proof {
        vstd::arithmetic::div_mod::lemma_fundamental_div_mod(len as int, stride as int);
        assert(stride as int * (len as int / stride as int) <= len as int);
    }
    let mut j: usize = 0;
    while j < n
        invariant
            stride == 3 || stride == 4,
            len == old(buffer)@.len(),
            n == len as int / stride as int,
            stride * n <= len,
            j <= n,
            buffer@.len() == len,
            forall|t: int|
                0 <= t < j ==> #[trigger] swapped_group(old(buffer)@, buffer@, stride as int, t),
            forall|i: int| stride * j <= i < len ==> buffer@[i] == old(buffer)@[i],
        decreases n - j,
    {
        proof {
            assert((j + 1) * stride <= n * stride && j * stride + stride == (j + 1) * stride)
                by (nonlinear_arith)
                requires j + 1 <= n, stride >= 1;
            assert(n * stride == stride * n) by (nonlinear_arith);
        }
        let ghost prev = buffer@;
        let base = j * stride;
        let lo = buffer[base];
        let hi = buffer[base + 2];
        buffer[base] = hi;
        buffer[base + 2] = lo;
        proof {
            let st = stride as int;
            let b = base as int;
            assert forall|t: int| 0 <= t < j + 1 implies #[trigger] swapped_group(
                old(buffer)@,
                buffer@,
                st,
                t,
            ) by {
                assert(st * (j as int) == b) by (nonlinear_arith)
                    requires b == (j as int) * st;
                if t < j {
                    assert(st * t + st <= st * (j as int)) by (nonlinear_arith)
                        requires t + 1 <= j, st >= 1;
                    assert(swapped_group(old(buffer)@, prev, st, t));
                    assert(grp(buffer@, st, t, 0) == grp(prev, st, t, 0));
                    assert(grp(buffer@, st, t, 1) == grp(prev, st, t, 1));
                    assert(grp(buffer@, st, t, 2) == grp(prev, st, t, 2));
                    if st == 4 {
                        assert(grp(buffer@, st, t, 3) == grp(prev, st, t, 3));
                    }
                } else {
                    assert(grp(buffer@, st, t, 0) == prev[b + 2]);
                    assert(grp(buffer@, st, t, 2) == prev[b]);
                    assert(grp(buffer@, st, t, 1) == prev[b + 1]);
                    assert(prev[b + 2] == old(buffer)@[b + 2]);
                    assert(prev[b] == old(buffer)@[b]);
                    assert(prev[b + 1] == old(buffer)@[b + 1]);
                    if st == 4 {
                        assert(grp(buffer@, st, t, 3) == prev[b + 3]);
                        assert(prev[b + 3] == old(buffer)@[b + 3]);
                    }
                }
            }
            assert forall|i: int| st * (j + 1) <= i < len implies buffer@[i] == old(buffer)@[i] by {
                assert(st * (j + 1) == b + st) by (nonlinear_arith)
                    requires b == (j as int) * st;
            }
        }
        j = j + 1;
    }
}

} // verus!
