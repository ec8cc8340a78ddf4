//! Pixel-buffer construction for the device's little RGB565 framebuffer.
//! Writing the bytes to the framebuffer device is the binary's job.

use vstd::prelude::*;
use vstd::bytes::{spec_u16_to_le_bytes, u16_to_le_bytes};

verus! {

/// Width and height of a framebuffer, in pixels.
#[derive(Clone, Copy, Debug, PartialEq, Eq, Structural)]
pub struct Dimensions {
    pub height: u32,
    pub width: u32,
}

/// The display of the supported hotspot hardware: a fixed 128×128 panel.
#[derive(Clone, Copy, Debug, PartialEq, Eq, Structural)]
pub struct OrbicFramebuffer {
    pub dimensions: Dimensions,
}

impl OrbicFramebuffer {
    pub fn new() -> (r: Self)
        ensures
            r.dimensions == (Dimensions { height: 128, width: 128 }),
    {
        OrbicFramebuffer { dimensions: Dimensions { height: 128, width: 128 } }
    }

    pub fn dimensions(&self) -> (r: Dimensions)
        ensures
            r == self.dimensions,
    {
        self.dimensions
    }
}

/// The RGB565 encoding of one RGB pixel: five bits of red, six of green,
/// five of blue.
pub open spec fn spec_rgb565(p: (u8, u8, u8)) -> u16 {
    (((p.0 & 0xf8) as u16) << 8) | (((p.1 & 0xfc) as u16) << 3) | ((p.2 as u16) >> 3)
}

/// The little-endian RGB565 byte stream for a pixel buffer.
pub open spec fn spec_rgb565_bytes(pixels: Seq<(u8, u8, u8)>) -> Seq<u8>
    decreases pixels.len(),
{
    if pixels.len() == 0 {
        Seq::empty()
    } else {
        spec_u16_to_le_bytes(spec_rgb565(pixels[0])) + spec_rgb565_bytes(pixels.skip(1))
    }
}

proof fn lemma_rgb565_bytes_snoc(pixels: Seq<(u8, u8, u8)>, p: (u8, u8, u8))
    ensures
        spec_rgb565_bytes(pixels.push(p)) == spec_rgb565_bytes(pixels) + spec_u16_to_le_bytes(
            spec_rgb565(p),
        ),
    decreases pixels.len(),
{
    reveal_with_fuel(spec_rgb565_bytes, 2);
    if pixels.len() == 0 {
        assert(pixels.push(p)[0] == p);
        assert(pixels.push(p).skip(1) =~= Seq::<(u8, u8, u8)>::empty());
        assert(spec_rgb565_bytes(pixels.push(p)) =~= spec_rgb565_bytes(pixels)
            + spec_u16_to_le_bytes(spec_rgb565(p)));
    } else {
        assert(pixels.push(p)[0] == pixels[0]);
        assert(pixels.push(p).skip(1) =~= pixels.skip(1).push(p));
        lemma_rgb565_bytes_snoc(pixels.skip(1), p);
        assert(spec_rgb565_bytes(pixels.push(p)) =~= spec_rgb565_bytes(pixels)
            + spec_u16_to_le_bytes(spec_rgb565(p)));
    }
}

/// Encodes a pixel buffer as the little-endian RGB565 byte stream the
/// framebuffer device takes.
pub fn rgb565_bytes(pixels: &Vec<(u8, u8, u8)>) -> (r: Vec<u8>)
    ensures
        r@ == spec_rgb565_bytes(pixels@),
        r@.len() == 2 * pixels@.len(),
{
    let mut out: Vec<u8> = Vec::new();
    let mut i: usize = 0;
    while i < pixels.len()
        invariant
            i <= pixels@.len(),
            out@ == spec_rgb565_bytes(pixels@.take(i as int)),
            out@.len() == 2 * i,
        decreases pixels@.len() - i,
    {
        let p = pixels[i];
        let rgb565: u16 = (((p.0 & 0xf8) as u16) << 8) | (((p.1 & 0xfc) as u16) << 3) | ((
        p.2 as u16) >> 3);
        let mut word = u16_to_le_bytes(rgb565);
        proof {
            assert(pixels@.take(i + 1) =~= pixels@.take(i as int).push(pixels@[i as int]));
            lemma_rgb565_bytes_snoc(pixels@.take(i as int), pixels@[i as int]);
            vstd::bytes::lemma_auto_spec_u16_to_from_le_bytes();
        }
        out.append(&mut word);
        i = i + 1;
    }
    proof {
        assert(pixels@.take(pixels@.len() as int) =~= pixels@);
    }
    out
}

/// A buffer of one solid color covering a whole panel, as used to clear
/// the display.
pub fn solid_color_buffer(dimensions: Dimensions, color: (u8, u8, u8)) -> (r: Vec<(u8, u8, u8)>)
    requires
        dimensions.width * dimensions.height <= usize::MAX,
    ensures
        r@.len() == dimensions.width * dimensions.height,
        forall|i: int| 0 <= i < r@.len() ==> r@[i] == color,
{
    let total: usize = (dimensions.width as usize) * (dimensions.height as usize);
    let mut out: Vec<(u8, u8, u8)> = Vec::new();
    while out.len() < total
        invariant
            out@.len() <= total,
            total == dimensions.width * dimensions.height,
            forall|i: int| 0 <= i < out@.len() ==> out@[i] == color,
        decreases total - out@.len(),
    {
        out.push(color);
    }
    out
}

} // verus!
