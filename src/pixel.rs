//! Packed 24-bit pixel values: red in bits 16-23, green in bits 8-15, blue in
//! bits 0-7; the top byte is unused.

use vstd::prelude::*;

verus! {

/// The packed value of three 8-bit channels.
pub open spec fn packed(red: u8, green: u8, blue: u8) -> u32 {
    (red as int * 0x10000 + green as int * 0x100 + blue as int) as u32
}

/// The three channels read back from a packed value, red first.
pub open spec fn channels(color: u32) -> Seq<u8> {
    seq![(color / 0x10000 % 0x100) as u8, (color / 0x100 % 0x100) as u8, (color % 0x100) as u8]
}

/// Splits a packed pixel into its red, green and blue bytes.
pub fn to_rgb(color: u32) -> (r: [u8; 3])
    ensures
        r@ == channels(color),
{
    let hi = (color >> 16) & 0xff;
    let mid = (color >> 8) & 0xff;
    let lo = color & 0xff;
    assert(hi == color / 0x10000 % 0x100 && mid == color / 0x100 % 0x100 && lo == color % 0x100)
        by (bit_vector)
        requires
            hi == (color >> 16) & 0xff,
            mid == (color >> 8) & 0xff,
            lo == color & 0xff,
    ;
    let red = hi as u8;
    let green = mid as u8;
    let blue = lo as u8;
    let r = [red, green, blue];
    assert(r@ =~= channels(color));
    r
}

/// Packs three 8-bit channels into one pixel value.
pub fn pack_rgb(red: u8, green: u8, blue: u8) -> (r: u32)
    ensures
        r == packed(red, green, blue),
        r < 0x100_0000,
{
    let v = ((red as u32) << 16) | ((green as u32) << 8) | (blue as u32);
    assert(v == (red as u32) * 0x10000 + (green as u32) * 0x100 + (blue as u32)) by (bit_vector)
        requires
            v == ((red as u32) << 16) | ((green as u32) << 8) | (blue as u32),
    ;
    v
}

/// A quantized channel as a byte: values above 255 are held at 255.
pub fn channel_byte(q: u32) -> (r: u8)
    ensures
        r as u32 == if q < 255 { q } else { 255 },
{
    if q < 255 {
        q as u8
    } else {
        255
    }
}

/// Unpacking a packed pixel gives back the channels it was packed from.
pub proof fn lemma_channels_of_packed(red: u8, green: u8, blue: u8)
    ensures
        channels(packed(red, green, blue)) == seq![red, green, blue],
{
    let c = packed(red, green, blue);
    assert(c as int == red as int * 0x10000 + green as int * 0x100 + blue as int);
    assert(c / 0x10000 % 0x100 == red as u32) by (nonlinear_arith)
        requires
            c as int == red as int * 0x10000 + green as int * 0x100 + blue as int,
            red < 0x100,
            green < 0x100,
            blue < 0x100,
    ;
    assert(c / 0x100 % 0x100 == green as u32) by (nonlinear_arith)
        requires
            c as int == red as int * 0x10000 + green as int * 0x100 + blue as int,
            red < 0x100,
            green < 0x100,
            blue < 0x100,
    ;
    assert(c % 0x100 == blue as u32) by (nonlinear_arith)
        requires
            c as int == red as int * 0x10000 + green as int * 0x100 + blue as int,
            red < 0x100,
            green < 0x100,
            blue < 0x100,
    ;
    assert(channels(c) =~= seq![red, green, blue]);
}

/// Packing the channels of a pixel gives it back without its unused top byte.
pub proof fn lemma_packed_of_channels(color: u32)
    ensures
        packed(channels(color)[0], channels(color)[1], channels(color)[2]) == color % 0x100_0000,
{
    let s = channels(color);
    assert(s[0] as int == color / 0x10000 % 0x100);
    assert(s[1] as int == color / 0x100 % 0x100);
    assert(s[2] as int == color % 0x100);
    assert((color / 0x10000 % 0x100) * 0x10000 + (color / 0x100 % 0x100) * 0x100 + color % 0x100
        == color % 0x100_0000) by (bit_vector);
}

/// A black pixel packs to zero and unpacks to three zero bytes.
pub proof fn lemma_black_pixel()
    ensures
        packed(0, 0, 0) == 0,
        channels(packed(0, 0, 0)) == seq![0u8, 0u8, 0u8],
{
    lemma_channels_of_packed(0, 0, 0);
}

} // verus!
