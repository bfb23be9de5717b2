//! Plain conversions between RGBA and RGB buffers, and decoding of indexed
//! images through a lookup table.

use vstd::prelude::*;

verus! {

/// The red, green and blue bytes of each pixel of an RGBA buffer, in order.
pub open spec fn strip_alpha_spec(rgba: Seq<u8>) -> Seq<u8> {
    Seq::new((rgba.len() / 4 * 3) as nat, |i: int| rgba[i / 3 * 4 + i % 3])
}

/// The pixels of an RGB buffer as RGBA, each with full opacity.
pub open spec fn opaque_pixels_spec(rgb: Seq<u8>) -> Seq<u8> {
    Seq::new(
        (rgb.len() / 3 * 4) as nat,
        |i: int|
            if i % 4 == 3 {
                255u8
            } else {
                rgb[i / 4 * 3 + i % 4]
            },
    )
}

/// The image that `encoded` stands for: for each of its bytes the RGBA
/// entry of the lookup table at that index.
pub open spec fn decode_pixels_spec(lookup_table: Seq<u8>, encoded: Seq<u8>) -> Seq<u8> {
    Seq::new(
        (encoded.len() * 4) as nat,
        |i: int| lookup_table[encoded[i / 4] as int * 4 + i % 4],
    )
}

/// Drops the alpha channel: turns a buffer of RGBA pixels into one of RGB
/// pixels.
pub fn strip_alpha(pixel_data: &[u8]) -> (rgb: Vec<u8>)
    requires
        pixel_data@.len() % 4 == 0,
    ensures
        rgb@ == strip_alpha_spec(pixel_data@),
{
    let pixels: usize = pixel_data.len() / 4;
    let mut rgb: Vec<u8> = Vec::new();
    let mut i: usize = 0;
    while i < pixels
        invariant
            i <= pixels,
            pixels == pixel_data@.len() / 4,
            pixel_data@.len() <= usize::MAX,
            rgb@.len() == 3 * i,
            forall|k: int| 0 <= k < 3 * i ==> rgb@[k] == #[trigger] strip_alpha_spec(pixel_data@)[k],
        decreases pixels - i,
    {
        rgb.push(pixel_data[i * 4]);
        rgb.push(pixel_data[i * 4 + 1]);
        rgb.push(pixel_data[i * 4 + 2]);
        i = i + 1;
    }
    proof {
        assert(rgb@ =~= strip_alpha_spec(pixel_data@));
    }
    rgb
}

/// Adds full opacity: turns a buffer of RGB pixels into one of RGBA pixels
/// whose alpha is 255.
pub fn opaque_pixels(rgb: &[u8]) -> (rgba: Vec<u8>)
    requires
        rgb@.len() % 3 == 0,
    ensures
        rgba@ == opaque_pixels_spec(rgb@),
{
    let pixels: usize = rgb.len() / 3;
    let mut rgba: Vec<u8> = Vec::new();
    let mut i: usize = 0;
    while i < pixels
        invariant
            i <= pixels,
            pixels == rgb@.len() / 3,
            rgb@.len() <= usize::MAX,
            rgba@.len() == 4 * i,
            forall|k: int| 0 <= k < 4 * i ==> rgba@[k] == #[trigger] opaque_pixels_spec(rgb@)[k],
        decreases pixels - i,
    {
        rgba.push(rgb[i * 3]);
        rgba.push(rgb[i * 3 + 1]);
        rgba.push(rgb[i * 3 + 2]);
        rgba.push(255);
        i = i + 1;
    }
    proof {
        assert(rgba@ =~= opaque_pixels_spec(rgb@));
    }
    rgba
}

/// Decodes an indexed image: each byte of `encoded_img` selects one of the
/// 256 RGBA entries of `lookup_table`, and the entries are written out in
/// order.
pub fn decode_pixels(lookup_table: &[u8], encoded_img: &[u8]) -> (decoded: Vec<u8>)
    requires
        lookup_table@.len() == 1024,
    ensures
        decoded@ == decode_pixels_spec(lookup_table@, encoded_img@),
{
    let mut decoded: Vec<u8> = Vec::new();
    let mut i: usize = 0;
    while i < encoded_img.len()
        invariant
            i <= encoded_img@.len(),
            lookup_table@.len() == 1024,
            decoded@.len() == 4 * i,
            forall|k: int|
                0 <= k < 4 * i ==> decoded@[k] == #[trigger] decode_pixels_spec(
                    lookup_table@,
                    encoded_img@,
                )[k],
        decreases encoded_img@.len() - i,
    {
        let slot: usize = encoded_img[i] as usize * 4;
        decoded.push(lookup_table[slot]);
        decoded.push(lookup_table[slot + 1]);
        decoded.push(lookup_table[slot + 2]);
        decoded.push(lookup_table[slot + 3]);
        i = i + 1;
    }
    proof {
        assert(decoded@ =~= decode_pixels_spec(lookup_table@, encoded_img@));
    }
    decoded
}

} // verus!
