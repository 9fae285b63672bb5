use vstd::prelude::*;
use crate::codec::le16;
use crate::error::Error;
use crate::graphics::color::RgbColorCode;

verus! {

pub const MAGIC: [u8; 3] = [0x47, 0x49, 0x46];
pub const IMAGE_BLOCK_MAGIC: u8 = 0x2c;
pub const EXT_BLOCK_MAGIC: u8 = 0x21;
pub const GRAPHIC_CTRL_EXT_MAGIC: u8 = 0xf9;
pub const COMMENT_EXT_MAGIC: u8 = 0xfe;
pub const PLAIN_TEXT_EXT_MAGIC: u8 = 0x01;
pub const APPLICATION_EXT_MAGIC: u8 = 0xff;

/// Size in bytes of the GIF header (logical screen descriptor included).
pub const HEADER_SIZE: usize = 13;

/// Size in bytes of one color table entry.
pub const RGB_SIZE: usize = 3;

/// The GIF header and logical screen descriptor.
#[derive(Debug, Clone, Copy)]
pub struct Header {
    pub magic: [u8; 3],
    pub version: [u8; 3],
    pub width: u16,
    pub height: u16,
    /// GCTF(1), CR(3), SF(1), SGCT(3)
    pub flags: u8,
    pub bg_color_index: u8,
    pub pixel_aspect_ratio: u8,
}

/// Entries in the global color table: 2 to the power (SGCT + 1).
pub open spec fn color_table_size(flags: u8) -> nat {
    vstd::arithmetic::power2::pow2(((flags % 8) + 1) as nat)
}

impl Header {
    pub fn global_color_table_flag(&self) -> (res: bool)
        ensures
            res == (self.flags >= 0x80),
    {
        (self.flags / 0x80) % 2 != 0
    }

    /// The color resolution field (bits 4 to 6).
    pub fn color_res(&self) -> (res: u8)
        ensures
            res == (self.flags / 16) % 8,
    {
        (self.flags / 16) % 8
    }

    pub fn sort_flag(&self) -> (res: bool)
        ensures
            res == ((self.flags / 8) % 2 == 1),
    {
        (self.flags / 8) % 2 != 0
    }

    pub fn global_color_table_size(&self) -> (res: usize)
        ensures
            res == color_table_size(self.flags),
            2 <= res <= 256,
    {
        let n = (self.flags % 8) + 1;
        let mut size: usize = 1;
        let mut i: u8 = 0;
        proof {
            vstd::arithmetic::power2::lemma2_to64();
        }
        while i < n
            invariant
                i <= n <= 8,
                size == vstd::arithmetic::power2::pow2(i as nat),
                size <= 256,
            decreases n - i,
        {
            proof {
                vstd::arithmetic::power2::lemma_pow2_unfold((i + 1) as nat);
                vstd::arithmetic::power2::lemma2_to64();
                if i + 1 < 8 {
                    vstd::arithmetic::power2::lemma_pow2_strictly_increases((i + 1) as nat, 8);
                }
            }
            size = size * 2;
            i = i + 1;
        }
        proof {
            vstd::arithmetic::power2::lemma2_to64();
            vstd::arithmetic::power2::lemma_pow2_strictly_increases(0, n as nat);
        }
        size
    }
}

/// The kinds of GIF blocks.
#[derive(Debug, Clone, Copy, PartialEq, Eq, Structural)]
pub enum Block {
    Image,
    GraphicControlExtension,
    CommentExtension,
    PlainTextExtension,
    ApplicationExtension,
}

/// An image block (not decoded).
pub struct ImageBlock {}

/// The block that starts with bytes `a`, `b`, if any.
pub open spec fn block_of(a: u8, b: u8) -> Option<Block> {
    if a == IMAGE_BLOCK_MAGIC {
        Some(Block::Image)
    } else if a == EXT_BLOCK_MAGIC && b == GRAPHIC_CTRL_EXT_MAGIC {
        Some(Block::GraphicControlExtension)
    } else if a == EXT_BLOCK_MAGIC && b == COMMENT_EXT_MAGIC {
        Some(Block::CommentExtension)
    } else if a == EXT_BLOCK_MAGIC && b == PLAIN_TEXT_EXT_MAGIC {
        Some(Block::PlainTextExtension)
    } else if a == EXT_BLOCK_MAGIC && b == APPLICATION_EXT_MAGIC {
        Some(Block::ApplicationExtension)
    } else {
        None
    }
}

/// A GIF image over its file bytes.
pub struct GifImage<'a> {
    pub data: &'a [u8],
}

impl<'a> GifImage<'a> {
    pub fn new(data: &'a [u8]) -> (res: Self)
        ensures
            res.data@ == data@,
    {
        GifImage { data }
    }

    /// The header read from the first 13 bytes (widths little-endian).
    pub fn header(&self) -> (res: Header)
        requires
            self.data@.len() >= 13,
        ensures
            res.magic@ == self.data@.subrange(0, 3),
            res.version@ == self.data@.subrange(3, 6),
            res.width == le16(self.data@[6], self.data@[7]),
            res.height == le16(self.data@[8], self.data@[9]),
            res.flags == self.data@[10],
            res.bg_color_index == self.data@[11],
            res.pixel_aspect_ratio == self.data@[12],
    {
        let d = self.data;
        let h = Header {
            magic: [d[0], d[1], d[2]],
            version: [d[3], d[4], d[5]],
            width: (d[6] as u16) + (d[7] as u16) * 256,
            height: (d[8] as u16) + (d[9] as u16) * 256,
            flags: d[10],
            bg_color_index: d[11],
            pixel_aspect_ratio: d[12],
        };
        assert(h.magic@ =~= self.data@.subrange(0, 3));
        assert(h.version@ =~= self.data@.subrange(3, 6));
        h
    }

    /// Whether the file starts with "GIF".
    pub fn is_valid(&self) -> (res: bool)
        requires
            self.data@.len() >= 13,
        ensures
            res == (self.data@.subrange(0, 3) == seq![0x47u8, 0x49u8, 0x46u8]),
    {
        let header = self.header();
        let r = header.magic[0] == 0x47 && header.magic[1] == 0x49 && header.magic[2] == 0x46;
        if r {
            assert(self.data@.subrange(0, 3) =~= seq![0x47u8, 0x49u8, 0x46u8]);
        } else {
            assert(header.magic@ != seq![0x47u8, 0x49u8, 0x46u8]);
        }
        r
    }

    /// The global color table that follows the header.
    pub fn global_color_table(&self) -> (res: Vec<RgbColorCode>)
        requires
            self.data@.len() >= 13 + 3 * color_table_size(self.data@[10]),
        ensures
            res@.len() == color_table_size(self.data@[10]),
            forall|i: int|
                0 <= i < res@.len() ==> #[trigger] res@[i] == (RgbColorCode {
                    r: self.data@[13 + i * 3],
                    g: self.data@[13 + i * 3 + 1],
                    b: self.data@[13 + i * 3 + 2],
                }),
    {
        let header = self.header();
        let size = header.global_color_table_size();
        let mut buf: Vec<RgbColorCode> = Vec::new();
        let mut i: usize = 0;
        while i < size
            invariant
                i <= size,
                size == color_table_size(self.data@[10]),
                size <= 256,
                self.data@.len() >= 13 + 3 * size,
                buf@.len() == i,
                forall|j: int|
                    0 <= j < i ==> #[trigger] buf@[j] == (RgbColorCode {
                        r: self.data@[13 + j * 3],
                        g: self.data@[13 + j * 3 + 1],
                        b: self.data@[13 + j * 3 + 2],
                    }),
            decreases size - i,
        {
            let r = self.data[HEADER_SIZE + i * RGB_SIZE];
            let g = self.data[HEADER_SIZE + i * RGB_SIZE + 1];
            let b = self.data[HEADER_SIZE + i * RGB_SIZE + 2];
            buf.push(RgbColorCode::new(r, g, b));
            i = i + 1;
        }
        buf
    }

    /// The blocks after the global color table. Only the first block is
    /// recognized for now: the list holds at most one block.
    pub fn blocks(&self) -> (res: Result<Vec<Block>, Error>)
        requires
            self.data@.len() >= 13,
            13 + 3 * color_table_size(self.data@[10]) < self.data@.len() ==> 13 + 3
                * color_table_size(self.data@[10]) + 1 < self.data@.len(),
        ensures
            res matches Ok(v) && ({
                let off = 13 + 3 * color_table_size(self.data@[10]);
                if off >= self.data@.len() {
                    v@ == Seq::<Block>::empty()
                } else {
                    match block_of(self.data@[off as int], self.data@[(off + 1) as int]) {
                        Some(b) => v@ == seq![b],
                        None => v@ == Seq::<Block>::empty(),
                    }
                }
            }),
    {
        let header = self.header();
        let offset = HEADER_SIZE + RGB_SIZE * header.global_color_table_size();
        let mut blocks: Vec<Block> = Vec::new();
        if offset < self.data.len() {
            let a = self.data[offset];
            let b = self.data[offset + 1];
            if a == IMAGE_BLOCK_MAGIC {
                blocks.push(Block::Image);
            } else if a == EXT_BLOCK_MAGIC && b == GRAPHIC_CTRL_EXT_MAGIC {
                blocks.push(Block::GraphicControlExtension);
            } else if a == EXT_BLOCK_MAGIC && b == COMMENT_EXT_MAGIC {
                blocks.push(Block::CommentExtension);
            } else if a == EXT_BLOCK_MAGIC && b == PLAIN_TEXT_EXT_MAGIC {
                blocks.push(Block::PlainTextExtension);
            } else if a == EXT_BLOCK_MAGIC && b == APPLICATION_EXT_MAGIC {
                blocks.push(Block::ApplicationExtension);
            }
        }
        Ok(blocks)
    }
}

} // verus!
