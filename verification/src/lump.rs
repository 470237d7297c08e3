//! The two lump decoders: the colour palette and the indexed picture.

use crate::binary::{le_i32, read_i32_le};
use crate::error::ReadError;
use crate::utils::LengthLimitedReader;
use vstd::prelude::*;
use vstd::slice::slice_subrange;

verus! {

/// The number of bytes of a palette lump: 256 entries of three bytes.
pub const PALETTE_BYTES: usize = 768;

/// One colour of three 8-bit channels as one number: red in bits 16 to 23,
/// green in bits 8 to 15, blue in bits 0 to 7. The highest byte is zero: the
/// format stores no alpha channel.
pub open spec fn pack_rgb(r: u8, g: u8, b: u8) -> u32 {
    (r as int * 65536 + g as int * 256 + b as int) as u32
}

/// The 256 colours that the first 768 bytes of `raw` hold, three bytes each.
pub open spec fn decode_palette(raw: Seq<u8>) -> Seq<u32>
    recommends
        raw.len() >= 768,
{
    Seq::new(256, |i: int| pack_rgb(raw[3 * i], raw[3 * i + 1], raw[3 * i + 2]))
}

/// Palette for color lookup from 8bit color index to 32bit RGBA.
pub struct Palette {
    palette: [u32; 256],
}

impl Palette {
    /// The 256 colours, by index.
    pub closed spec fn colors(&self) -> Seq<u32> {
        self.palette@
    }

    /// A palette holds exactly 256 colours.
    pub proof fn lemma_color_count(&self)
        ensures
            self.colors().len() == 256,
    {
    }

    /// Reads a palette of 256 RGB colors: 768 bytes from where `reader`
    /// stands. Where fewer can be read the input is malformed, and the
    /// reader is left behind the last byte it could read.
    pub fn read(reader: &mut LengthLimitedReader) -> (r: Result<Palette, ReadError>)
        ensures
            match r {
                Ok(pal) => {
                    &&& old(reader).rest().len() >= 768
                    &&& pal.colors() == decode_palette(old(reader).rest())
                    &&& old(reader).moved_to(final(reader), old(reader).cursor() + 768)
                },
                Err(e) => {
                    &&& e is ParseError
                    &&& old(reader).rest().len() < 768
                    &&& old(reader).moved_to(
                        final(reader),
                        old(reader).cursor() + old(reader).rest().len(),
                    )
                },
            },
    {
        let pal = reader.read(PALETTE_BYTES);
        if pal.len() < PALETTE_BYTES {
            return Err(ReadError::ParseError);
        }
        let mut pal32: [u32; 256] = [0u32; 256];
        let mut i: usize = 0;
        while i < 256
            invariant
                i <= 256,
                pal@.len() == 768,
                forall|j: int|
                    0 <= j < i ==> pal32@[j] == pack_rgb(
                        pal@[3 * j],
                        pal@[3 * j + 1],
                        pal@[3 * j + 2],
                    ),
            decreases 256 - i,
        {
            let mut value: u32 = pal[3 * i] as u32;
            value = value * 256 + pal[3 * i + 1] as u32;
            value = value * 256 + pal[3 * i + 2] as u32;
            pal32[i] = value;
            i = i + 1;
        }
        assert(pal32@ =~= decode_palette(old(reader).rest()));
        Ok(Palette { palette: pal32 })
    }

    /// The colour at `index`.
    pub fn palette_lookup(&self, index: u8) -> (color: u32)
        ensures
            color == self.colors()[index as int],
    {
        self.palette[index as usize]
    }
}

/// What a picture lump decodes to: width, height and the colours of its
/// pixels in row-major order. `None` where the lump is malformed: it is
/// shorter than its header of two numbers, a dimension is not positive,
/// the product of the two does not fit an `i32`, or fewer index bytes follow
/// the header than that product.
pub open spec fn decode_picture(lump: Seq<u8>, colors: Seq<u32>) -> Option<(int, int, Seq<u32>)> {
    if lump.len() < 8 {
        None
    } else {
        let width = le_i32(lump.subrange(0, 4));
        let height = le_i32(lump.subrange(4, 8));
        if width <= 0 || height <= 0 || width * height > i32::MAX || lump.len() - 8 < width
            * height {
            None
        } else {
            Some(
                (
                    width,
                    height,
                    Seq::new((width * height) as nat, |i: int| colors[lump[8 + i] as int]),
                ),
            )
        }
    }
}

/// The number of bytes of a picture lump that its decoder takes: header and
/// pixels of one that is well formed; of one that is not, the header where
/// that can be read and names an impossible size, and all there is where
/// the lump ends too early.
pub open spec fn picture_consumed(lump: Seq<u8>) -> int {
    if lump.len() < 8 {
        lump.len() as int
    } else {
        let width = le_i32(lump.subrange(0, 4));
        let height = le_i32(lump.subrange(4, 8));
        if width <= 0 || height <= 0 || width * height > i32::MAX {
            8
        } else if lump.len() - 8 < width * height {
            lump.len() as int
        } else {
            8 + width * height
        }
    }
}

/// Lump picture data.
pub struct Picture {
    /// Width of the bitmap.
    pub width: i32,
    /// Height of the bitmap.
    pub height: i32,
    /// Bitmap content.
    pub bitmap: Vec<u32>,
}

impl Picture {
    /// Reads a picture lmp (lump) file and converts it to RGBA using a palette.
    pub fn read(reader: &mut LengthLimitedReader, pal: &Palette) -> (r: Result<Picture, ReadError>)
        ensures
            old(reader).moved_to(
                final(reader),
                old(reader).cursor() + picture_consumed(old(reader).rest()),
            ),
            match r {
                Ok(pic) => {
                    &&& decode_picture(old(reader).rest(), pal.colors()) == Some(
                        (pic.width as int, pic.height as int, pic.bitmap@),
                    )
                    &&& pic.width > 0
                    &&& pic.height > 0
                    &&& pic.bitmap@.len() == pic.width * pic.height
                },
                Err(e) => {
                    &&& e is ParseError
                    &&& decode_picture(old(reader).rest(), pal.colors()) is None
                },
            },
    {
        let ghost lump = reader.rest();
        let header = reader.read(8);
        if header.len() < 8 {
            return Err(ReadError::ParseError);
        }
        assert(header@ == lump.subrange(0, 8));
        let width: i32 = match read_i32_le(slice_subrange(header, 0, 4)) {
            Some(value) => value,
            None => {
                return Err(ReadError::ParseError);
            },
        };
        let height: i32 = match read_i32_le(slice_subrange(header, 4, 8)) {
            Some(value) => value,
            None => {
                return Err(ReadError::ParseError);
            },
        };
        assert(header@.subrange(0, 4) == lump.subrange(0, 4));
        assert(header@.subrange(4, 8) == lump.subrange(4, 8));
        if width <= 0 || height <= 0 {
            return Err(ReadError::ParseError);
        }
        let count: usize = match width.checked_mul(height) {
            Some(product) => product as usize,
            None => {
                return Err(ReadError::ParseError);
            },
        };
        let buffer = reader.read(count);
        if buffer.len() < count {
            return Err(ReadError::ParseError);
        }
        assert(buffer@ == lump.subrange(8, 8 + count));
        let mut bitmap: Vec<u32> = Vec::with_capacity(count);
        let mut i: usize = 0;
        while i < count
            invariant
                i <= count,
                buffer@.len() == count,
                bitmap@.len() == i,
                forall|j: int| 0 <= j < i ==> bitmap@[j] == pal.colors()[buffer@[j] as int],
            decreases count - i,
        {
            bitmap.push(pal.palette_lookup(buffer[i]));
            i = i + 1;
        }
        assert(bitmap@ =~= decode_picture(lump, pal.colors()).unwrap().2);
        Ok(Picture { width, height, bitmap })
    }
}

} // verus!
