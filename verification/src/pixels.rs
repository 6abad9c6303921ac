//! Pixel canonicalization. The pipeline's canonical channel order is
//! B,G,R,A with the alpha byte forced fully opaque, because capture alpha
//! is unreliable on some backends.

use vstd::prelude::*;
use vstd::arithmetic::mul::lemma_mul_inequality;
use vstd::arithmetic::div_mod::lemma_fundamental_div_mod_converse;
use crate::error::Error;

verus! {

/// The canonical form of an R,G,B,A byte sequence: each complete group of
/// four is reordered to B,G,R and its alpha byte replaced by 255; a
/// trailing fragment shorter than one pixel is left unchanged.
pub open spec fn spec_rgba_to_bgra_opaque(src: Seq<u8>) -> Seq<u8> {
    Seq::new(
        src.len(),
        |i: int|
            if 4 * (i / 4) + 4 <= src.len() {
                if i % 4 == 0 {
                    src[i + 2]
                } else if i % 4 == 2 {
                    src[i - 2]
                } else if i % 4 == 3 {
                    255u8
                } else {
                    src[i]
                }
            } else {
                src[i]
            },
    )
}

/// A B,G,R,A byte sequence with every complete pixel's alpha byte forced
/// fully opaque and all colour bytes unchanged.
pub open spec fn spec_force_opaque(src: Seq<u8>) -> Seq<u8> {
    Seq::new(src.len(), |i: int| if i % 4 == 3 { 255u8 } else { src[i] })
}

/// Reorder R,G,B,A pixels to the canonical B,G,R,A order and force the
/// alpha channel opaque.
pub fn rgba_to_bgra_opaque(src: &Vec<u8>) -> (out: Vec<u8>)
    ensures
        out@ == spec_rgba_to_bgra_opaque(src@),
{
    let n: usize = src.len() / 4;
    let mut out: Vec<u8> = Vec::new();
    let mut c: usize = 0;
    while c < n
        invariant
            n == src.len() / 4,
            c <= n,
            out@ == spec_rgba_to_bgra_opaque(src@).take(4 * c as int),
        decreases n - c,
    {
        let base: usize = 4 * c;
        out.push(src[base + 2]);
        out.push(src[base + 1]);
        out.push(src[base]);
        out.push(255);
        proof {
            assert(out@ =~= spec_rgba_to_bgra_opaque(src@).take(4 * (c + 1) as int));
        }
        c = c + 1;
    }
    let mut t: usize = 4 * n;
    while t < src.len()
        invariant
            n == src.len() / 4,
            4 * n <= t <= src.len(),
            out@ == spec_rgba_to_bgra_opaque(src@).take(t as int),
        decreases src.len() - t,
    {
        out.push(src[t]);
        proof {
            assert(out@ =~= spec_rgba_to_bgra_opaque(src@).take(t + 1));
        }
        t = t + 1;
    }
    proof {
        assert(out@ =~= spec_rgba_to_bgra_opaque(src@));
    }
    out
}

/// Force the alpha byte of every complete B,G,R,A pixel fully opaque.
pub fn force_opaque_bgra(src: &Vec<u8>) -> (out: Vec<u8>)
    ensures
        out@ == spec_force_opaque(src@),
{
    let mut out: Vec<u8> = Vec::new();
    let mut i: usize = 0;
    while i < src.len()
        invariant
            i <= src.len(),
            out@ == spec_force_opaque(src@).take(i as int),
        decreases src.len() - i,
    {
        if i % 4 == 3 {
            out.push(255);
        } else {
            out.push(src[i]);
        }
        proof {
            assert(out@ =~= spec_force_opaque(src@).take(i + 1));
        }
        i = i + 1;
    }
    proof {
        assert(out@ =~= spec_force_opaque(src@));
    }
    out
}

/// Whether a raw capture surface can be repacked: a positive extent, a row
/// stride of at least one row of pixels, and a buffer that covers every row.
pub open spec fn spec_repack_valid(width: u32, height: u32, bytes_per_row: usize, data: Seq<u8>) -> bool {
    &&& width > 0
    &&& height > 0
    &&& bytes_per_row >= 4 * width
    &&& data.len() >= bytes_per_row * height
}

/// The repacked surface: `height` rows of exactly `4 * width` bytes taken
/// from the start of each stride-separated source row, with every pixel's
/// alpha byte forced opaque.
pub open spec fn spec_repacked(width: u32, height: u32, bytes_per_row: usize, data: Seq<u8>) -> Seq<u8> {
    Seq::new(
        (height * (4 * width)) as nat,
        |i: int|
            if i % (4 * width) % 4 == 3 {
                255u8
            } else {
                data[(i / (4 * width)) * bytes_per_row + i % (4 * width)]
            },
    )
}

/// Extract a tightly packed, opaque B,G,R,A buffer from one display's raw
/// capture surface, which may carry per-row padding. Rejects a zero extent,
/// a stride shorter than a row, and an undersized buffer.
pub fn repack_display_rows(width: u32, height: u32, bytes_per_row: usize, data: &Vec<u8>) -> (out: Result<
    Vec<u8>,
    Error,
>)
    ensures
        out is Ok <==> spec_repack_valid(width, height, bytes_per_row, data@),
        out is Ok ==> out->Ok_0@ == spec_repacked(width, height, bytes_per_row, data@),
        out is Err ==> out->Err_0 is EncodingInvariantViolation,
{
    if width == 0 || height == 0 {
        return Err(Error::EncodingInvariantViolation);
    }
    if (bytes_per_row as u64) < 4 * (width as u64) {
        return Err(Error::EncodingInvariantViolation);
    }
    let row_len: usize = 4 * (width as usize);
    proof {
        assert(forall|a: u128, b: u128|
            a <= u64::MAX && b <= u32::MAX ==> #[trigger] (a * b) <= (u64::MAX as u128) * (
            u32::MAX as u128)) by (nonlinear_arith);
    }
    if (data.len() as u128) < (bytes_per_row as u128) * (height as u128) {
        return Err(Error::EncodingInvariantViolation);
    }
    let ghost target = spec_repacked(width, height, bytes_per_row, data@);
    let mut out: Vec<u8> = Vec::new();
    let mut r: usize = 0;
    while r < height as usize
        invariant
            spec_repack_valid(width, height, bytes_per_row, data@),
            row_len == 4 * width,
            bytes_per_row * height <= data@.len(),
            data@.len() <= usize::MAX,
            r <= height,
            target == spec_repacked(width, height, bytes_per_row, data@),
            out@ == target.take(r * row_len as int),
        decreases height - r,
    {
        proof {
            lemma_mul_inequality(r as int + 1, height as int, bytes_per_row as int);
            assert((height as int) * (bytes_per_row as int) == (bytes_per_row as int) * (height
                as int)) by (nonlinear_arith);
            assert((r as int + 1) * (bytes_per_row as int) == (r as int) * (bytes_per_row as int)
                + bytes_per_row as int) by (nonlinear_arith);
        }
        let row_start: usize = r * bytes_per_row;
        let mut c: usize = 0;
        while c < row_len
            invariant
                spec_repack_valid(width, height, bytes_per_row, data@),
                row_len == 4 * width,
                r < height,
                c <= row_len,
                row_start == r * bytes_per_row,
                row_start + bytes_per_row <= data@.len(),
                data@.len() <= usize::MAX,
                target == spec_repacked(width, height, bytes_per_row, data@),
                out@ == target.take(r * row_len as int + c),
            decreases row_len - c,
        {
            let ghost i: int = r * row_len as int + c;
            proof {
                lemma_fundamental_div_mod_converse(i, row_len as int, r as int, c as int);
                lemma_mul_inequality(r as int + 1, height as int, row_len as int);
                assert((r as int + 1) * (row_len as int) == (r as int) * (row_len as int)
                    + row_len as int) by (nonlinear_arith);
                assert((height as int) * (row_len as int) == (row_len as int) * (height as int))
                    by (nonlinear_arith);
            }
            if c % 4 == 3 {
                out.push(255);
            } else {
                out.push(data[row_start + c]);
            }
            proof {
                assert(out@ =~= target.take(i + 1));
            }
            c = c + 1;
        }
        r = r + 1;
        proof {
            assert((r as int) * (row_len as int) == (r as int - 1) * (row_len as int) + row_len
                as int) by (nonlinear_arith);
        }
    }
    proof {
        assert(out@ =~= target);
    }
    Ok(out)
}

} // verus!
