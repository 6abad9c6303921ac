//! The raster container: a minimal, self-contained, bottom-up bitmap file
//! holding 32-bit B,G,R,A pixels with a negated height that marks top-down
//! row order. Byte-exact layout: a 14-byte file header, a 40-byte format
//! header, then the raw pixel bytes, row-major, without padding.

use vstd::prelude::*;
use vstd::bytes::{
    spec_u16_to_le_bytes, spec_u32_to_le_bytes, spec_u32_from_le_bytes, u16_to_le_bytes,
    u32_to_le_bytes, lemma_auto_spec_u16_to_from_le_bytes, lemma_auto_spec_u32_to_from_le_bytes,
};
use crate::error::Error;

verus! {

/// Valid encoder input: positive extent, exactly four bytes per pixel, and
/// a total file size that fits the container's 32-bit size field.
pub open spec fn spec_bmp_valid(width: u32, height: u32, pixels: Seq<u8>) -> bool {
    &&& width > 0
    &&& height > 0
    &&& 54 + 4 * ((width as int) * (height as int)) <= u32::MAX
    &&& pixels.len() == 4 * ((width as int) * (height as int))
}

/// Total size of the encoded file: both headers plus the pixel bytes.
pub open spec fn spec_bmp_file_size(width: u32, height: u32) -> int {
    54 + 4 * ((width as int) * (height as int))
}

/// Two's-complement bit pattern of the negated height; storing it in the
/// height field marks the pixel rows as running top-down.
pub open spec fn spec_neg_height_bits(height: u32) -> u32
    recommends
        height > 0,
{
    (0x1_0000_0000 - height) as u32
}

/// The 54 header bytes that precede the pixel data.
pub open spec fn spec_bmp_header(width: u32, height: u32) -> Seq<u8> {
    seq![66u8, 77u8]  // the two signature bytes, "BM"
    + spec_u32_to_le_bytes(spec_bmp_file_size(width, height) as u32) + seq![0u8, 0u8, 0u8, 0u8]
        + spec_u32_to_le_bytes(54u32)  // offset of the pixel data
    + spec_u32_to_le_bytes(40u32)  // size of the format header
    + spec_u32_to_le_bytes(width) + spec_u32_to_le_bytes(spec_neg_height_bits(height))
        + spec_u16_to_le_bytes(1u16)  // colour planes
    + spec_u16_to_le_bytes(32u16)  // bits per pixel
    + spec_u32_to_le_bytes(0u32)  // no compression
    + spec_u32_to_le_bytes((4 * ((width as int) * (height as int))) as u32) + Seq::new(
        16,
        |i: int| 0u8,
    )
}

/// The whole encoded file.
pub open spec fn spec_bmp_bytes(width: u32, height: u32, pixels: Seq<u8>) -> Seq<u8> {
    spec_bmp_header(width, height) + pixels
}

/// Encode canonical B,G,R,A pixels as a self-contained bitmap file.
/// Rejects a zero extent, an extent whose file size would not fit the
/// 32-bit size field, and a pixel buffer of the wrong length.
pub fn encode_bmp(width: u32, height: u32, pixels: &Vec<u8>) -> (out: Result<Vec<u8>, Error>)
    ensures
        out is Ok <==> spec_bmp_valid(width, height, pixels@),
        out is Ok ==> out->Ok_0@ == spec_bmp_bytes(width, height, pixels@),
        out is Err ==> out->Err_0 is EncodingInvariantViolation,
{
    if width == 0 || height == 0 {
        return Err(Error::EncodingInvariantViolation);
    }
    proof {
        assert(forall|a: u64, b: u64|
            a <= u32::MAX && b <= u32::MAX ==> #[trigger] (a * b) <= (u32::MAX as u64) * (
            u32::MAX as u64)) by (nonlinear_arith);
    }
    let count: u64 = (width as u64) * (height as u64);
    if count > ((u32::MAX as u64) - 54) / 4 {
        return Err(Error::EncodingInvariantViolation);
    }
    let pixel_bytes: u32 = (4 * count) as u32;
    let file_size: u32 = 54 + pixel_bytes;
    if (pixels.len() as u64) != pixel_bytes as u64 {
        return Err(Error::EncodingInvariantViolation);
    }
    let neg_height: u32 = (0x1_0000_0000u64 - (height as u64)) as u32;
    let mut out: Vec<u8> = Vec::new();
    out.push(66);
    out.push(77);
    let mut part = u32_to_le_bytes(file_size);
    out.append(&mut part);
    out.push(0);
    out.push(0);
    out.push(0);
    out.push(0);
    let mut part = u32_to_le_bytes(54);
    out.append(&mut part);
    let mut part = u32_to_le_bytes(40);
    out.append(&mut part);
    let mut part = u32_to_le_bytes(width);
    out.append(&mut part);
    let mut part = u32_to_le_bytes(neg_height);
    out.append(&mut part);
    let mut part = u16_to_le_bytes(1);
    out.append(&mut part);
    let mut part = u16_to_le_bytes(32);
    out.append(&mut part);
    let mut part = u32_to_le_bytes(0);
    out.append(&mut part);
    let mut part = u32_to_le_bytes(pixel_bytes);
    out.append(&mut part);
    let mut z: usize = 0;
    while z < 16
        invariant
            z <= 16,
            out@ == spec_bmp_header(width, height).take(38 + z),
        decreases 16 - z,
    {
        out.push(0);
        proof {
            lemma_auto_spec_u16_to_from_le_bytes();
            lemma_auto_spec_u32_to_from_le_bytes();
            assert(out@ =~= spec_bmp_header(width, height).take(38 + z + 1));
        }
        z = z + 1;
    }
    proof {
        assert(out@ =~= spec_bmp_header(width, height));
    }
    let mut i: usize = 0;
    while i < pixels.len()
        invariant
            i <= pixels@.len(),
            out@ == spec_bmp_header(width, height) + pixels@.take(i as int),
        decreases pixels.len() - i,
    {
        out.push(pixels[i]);
        proof {
            assert(out@ =~= spec_bmp_header(width, height) + pixels@.take(i + 1));
        }
        i = i + 1;
    }
    proof {
        assert(out@ =~= spec_bmp_bytes(width, height, pixels@));
    }
    Ok(out)
}

/// What a standard reader finds in an encoded file's size field.
pub open spec fn spec_bmp_stored_file_size(file: Seq<u8>) -> u32 {
    spec_u32_from_le_bytes(file.subrange(2, 6))
}

/// Where a standard reader finds the pixel data.
pub open spec fn spec_bmp_stored_pixel_offset(file: Seq<u8>) -> u32 {
    spec_u32_from_le_bytes(file.subrange(10, 14))
}

pub open spec fn spec_bmp_stored_width(file: Seq<u8>) -> u32 {
    spec_u32_from_le_bytes(file.subrange(18, 22))
}

/// The raw bit pattern of the stored (negated) height field.
pub open spec fn spec_bmp_stored_height_bits(file: Seq<u8>) -> u32 {
    spec_u32_from_le_bytes(file.subrange(22, 26))
}

pub open spec fn spec_bmp_stored_compression(file: Seq<u8>) -> u32 {
    spec_u32_from_le_bytes(file.subrange(30, 34))
}

pub open spec fn spec_bmp_stored_pixel_byte_count(file: Seq<u8>) -> u32 {
    spec_u32_from_le_bytes(file.subrange(34, 38))
}

/// The pixel bytes a standard reader extracts: everything from the stored
/// pixel-data offset to the end of the file.
pub open spec fn spec_bmp_stored_pixels(file: Seq<u8>) -> Seq<u8>
    recommends
        spec_bmp_stored_pixel_offset(file) <= file.len(),
{
    file.subrange(spec_bmp_stored_pixel_offset(file) as int, file.len() as int)
}

/// Round-trip law: a reader that follows the stored offset of an encoded
/// file recovers exactly the pixel bytes that were encoded, and the stored
/// geometry fields describe them exactly — width, negated height (top-down
/// order), 32 bits per pixel, no compression, and a size field that equals
/// the file's true length.
pub proof fn lemma_bmp_round_trip(width: u32, height: u32, pixels: Seq<u8>)
    requires
        spec_bmp_valid(width, height, pixels),
    ensures
        ({
            let file = spec_bmp_bytes(width, height, pixels);
            &&& file.len() == spec_bmp_file_size(width, height)
            &&& spec_bmp_stored_file_size(file) == file.len()
            &&& spec_bmp_stored_pixel_offset(file) == 54
            &&& spec_bmp_stored_width(file) == width
            &&& spec_bmp_stored_height_bits(file) == spec_neg_height_bits(height)
            &&& 0x1_0000_0000 - spec_bmp_stored_height_bits(file) == height
            &&& spec_bmp_stored_compression(file) == 0
            &&& spec_bmp_stored_pixel_byte_count(file) == pixels.len()
            &&& spec_bmp_stored_pixels(file) == pixels
        }),
{
    lemma_auto_spec_u16_to_from_le_bytes();
    lemma_auto_spec_u32_to_from_le_bytes();
    let file = spec_bmp_bytes(width, height, pixels);
    let header = spec_bmp_header(width, height);
    assert(header.len() == 54);
    assert(file.subrange(2, 6) =~= spec_u32_to_le_bytes(spec_bmp_file_size(width, height) as u32));
    assert(file.subrange(10, 14) =~= spec_u32_to_le_bytes(54u32));
    assert(file.subrange(18, 22) =~= spec_u32_to_le_bytes(width));
    assert(file.subrange(22, 26) =~= spec_u32_to_le_bytes(spec_neg_height_bits(height)));
    assert(file.subrange(30, 34) =~= spec_u32_to_le_bytes(0u32));
    assert(file.subrange(34, 38) =~= spec_u32_to_le_bytes(
        (4 * ((width as int) * (height as int))) as u32,
    ));
    assert(spec_bmp_stored_pixels(file) =~= pixels);
}

} // verus!
