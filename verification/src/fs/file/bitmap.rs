use vstd::prelude::*;
use crate::codec::{le16, le32};
use crate::graphics::color::ColorCode;

verus! {

pub const MAGIC: [u8; 2] = [0x42, 0x4d];

/// Size in bytes of the file header.
pub const IMAGE_HEADER_SIZE: usize = 14;

/// The BMP file header.
#[derive(Debug, Clone, Copy)]
pub struct ImageHeader {
    pub magic: [u8; 2],
    pub file_size: u32,
    pub reserved: [u16; 2],
    pub offset: u32,
}

/// The BMP information header (BITMAPINFOHEADER).
#[derive(Debug, Clone, Copy)]
pub struct InfoHeader {
    pub header_size: u32,
    pub width: i32,
    pub height: i32,
    pub planes: u16,
    pub bits_per_pixel: u16,
    pub compression: u32,
    pub image_size: u32,
    pub x_pixels_per_meter: i32,
    pub y_pixels_per_meter: i32,
    pub colors_used: u32,
    pub colors_important: u32,
}

/// The signed value of a 32-bit two's complement pattern.
pub open spec fn signed32(u: u32) -> int {
    if u < 0x8000_0000 {
        u as int
    } else {
        u - 0x1_0000_0000
    }
}

fn u32_at(d: &[u8], i: usize) -> (res: u32)
    requires
        i + 4 <= d@.len(),
    ensures
        res == le32(d@[i as int], d@[i + 1], d@[i + 2], d@[i + 3]),
{
    let _n = d.len();
    crate::codec::from_be_u32(d[i + 3], d[i + 2], d[i + 1], d[i])
}

fn u16_at(d: &[u8], i: usize) -> (res: u16)
    requires
        i + 2 <= d@.len(),
    ensures
        res == le16(d@[i as int], d@[i + 1]),
{
    let _n = d.len();
    crate::codec::from_be_u16(d[i + 1], d[i])
}

fn i32_at(d: &[u8], i: usize) -> (res: i32)
    requires
        i + 4 <= d@.len(),
    ensures
        res as int == signed32(le32(d@[i as int], d@[i + 1], d@[i + 2], d@[i + 3])),
{
    let u = u32_at(d, i);
    if u < 0x8000_0000 {
        u as i32
    } else {
        ((u as i64) - 0x1_0000_0000) as i32
    }
}

/// The byte offset of pixel (`x`, `y`) in the pixel array: rows are stored
/// bottom-up, each padded to a multiple of four bytes.
pub open spec fn pixel_offset(width: nat, height: nat, bpp: nat, x: nat, y: nat) -> int {
    let padding = (4 - (width * bpp) % 4) % 4;
    (height - y - 1) * (width * bpp + padding) + x * bpp
}

pub open spec fn abs32(v: i32) -> nat {
    if v < 0 {
        (-v) as nat
    } else {
        v as nat
    }
}

/// A 24-bit BMP image over its file bytes.
pub struct BitmapImage<'a> {
    pub data: &'a [u8],
}

impl<'a> BitmapImage<'a> {
    pub fn new(data: &'a [u8]) -> (res: Self)
        ensures
            res.data@ == data@,
    {
        BitmapImage { data }
    }

    /// The file header from the first 14 bytes (fields little-endian).
    pub fn header(&self) -> (res: ImageHeader)
        requires
            self.data@.len() >= 14,
        ensures
            res.magic@ == self.data@.subrange(0, 2),
            res.file_size == le32(self.data@[2], self.data@[3], self.data@[4], self.data@[5]),
            res.offset == le32(self.data@[10], self.data@[11], self.data@[12], self.data@[13]),
    {
        let d = self.data;
        let h = ImageHeader {
            magic: [d[0], d[1]],
            file_size: u32_at(d, 2),
            reserved: [u16_at(d, 6), u16_at(d, 8)],
            offset: u32_at(d, 10),
        };
        assert(h.magic@ =~= self.data@.subrange(0, 2));
        h
    }

    /// The information header from the 40 bytes after the file header.
    pub fn info_header(&self) -> (res: InfoHeader)
        requires
            self.data@.len() >= 54,
        ensures
            res.width as int == signed32(le32(self.data@[18], self.data@[19], self.data@[20], self.data@[21])),
            res.height as int == signed32(le32(self.data@[22], self.data@[23], self.data@[24], self.data@[25])),
            res.bits_per_pixel == le16(self.data@[28], self.data@[29]),
    {
        let d = self.data;
        InfoHeader {
            header_size: u32_at(d, 14),
            width: i32_at(d, 18),
            height: i32_at(d, 22),
            planes: u16_at(d, 26),
            bits_per_pixel: u16_at(d, 28),
            compression: u32_at(d, 30),
            image_size: u32_at(d, 34),
            x_pixels_per_meter: i32_at(d, 38),
            y_pixels_per_meter: i32_at(d, 42),
            colors_used: u32_at(d, 46),
            colors_important: u32_at(d, 50),
        }
    }

    /// Whether the file starts with "BM".
    pub fn is_valid(&self) -> (res: bool)
        requires
            self.data@.len() >= 14,
        ensures
            res == (self.data@[0] == 0x42 && self.data@[1] == 0x4d),
    {
        let h = self.header();
        h.magic[0] == 0x42 && h.magic[1] == 0x4d
    }

    /// The pixel array: the bytes from the offset the header gives.
    pub fn bitmap(&self) -> (res: &'a [u8])
        requires
            self.data@.len() >= 14,
            le32(self.data@[10], self.data@[11], self.data@[12], self.data@[13]) <= self.data@.len(),
        ensures
            res@ == self.data@.skip(
                le32(self.data@[10], self.data@[11], self.data@[12], self.data@[13]) as int,
            ),
    {
        let offset = self.header().offset as usize;
        let (_, tail) = self.data.split_at(offset);
        tail
    }

    /// The pixels, top row first, as colors read from blue, green and red
    /// bytes.
    pub fn bitmap_to_rgb_color_code(&self) -> (res: Vec<ColorCode>)
        requires
            self.data@.len() >= 54,
            le32(self.data@[10], self.data@[11], self.data@[12], self.data@[13]) <= self.data@.len(),
            self.info_header_width() != i32::MIN,
            self.info_header_height() != i32::MIN,
            abs32(self.info_header_width()) * (self.bpp_bytes() as nat) + 3 <= usize::MAX,
            forall|x: nat, y: nat|
                x < abs32(self.info_header_width()) && y < abs32(self.info_header_height())
                    ==> #[trigger] pixel_offset(
                    abs32(self.info_header_width()),
                    abs32(self.info_header_height()),
                    self.bpp_bytes() as nat,
                    x,
                    y,
                ) + 2 < self.pixels().len(),
        ensures
            res@.len() == abs32(self.info_header_width()) * abs32(self.info_header_height()),
            forall|y: nat, x: nat|
                y < abs32(self.info_header_height()) && x < abs32(self.info_header_width()) ==> {
                    let o = pixel_offset(
                        abs32(self.info_header_width()),
                        abs32(self.info_header_height()),
                        self.bpp_bytes() as nat,
                        x,
                        y,
                    );
                    #[trigger] res@[(y * abs32(self.info_header_width()) + x) as int] == (ColorCode {
                        r: self.pixels()[o + 2],
                        g: self.pixels()[o + 1],
                        b: self.pixels()[o],
                        a: 0,
                    })
                },
    {
        let bitmap = self.bitmap();
        let info_header = self.info_header();
        let width: usize = if info_header.width < 0 { (-info_header.width) as usize } else { info_header.width as usize };
        let height: usize = if info_header.height < 0 { (-info_header.height) as usize } else { info_header.height as usize };
        let bits_per_pixel = info_header.bits_per_pixel as usize / 8;
        let padding = (4 - (width * bits_per_pixel) % 4) % 4;
        let mut data: Vec<ColorCode> = Vec::new();
        let blen = bitmap.len();
        let ghost w = width as nat;
        let ghost h = height as nat;
        let ghost bpp = bits_per_pixel as nat;
        let mut y: usize = 0;
        while y < height
            invariant
                w == width,
                h == height,
                bpp == bits_per_pixel,
                bpp == self.bpp_bytes(),
                w == abs32(self.info_header_width()),
                h == abs32(self.info_header_height()),
                bitmap@ == self.pixels(),
                blen == bitmap@.len(),
                padding == (4 - (w * bpp) % 4) % 4,
                width * bits_per_pixel + 3 <= usize::MAX,
                y <= height,
                data@.len() == y * w,
                forall|x: nat, yy: nat|
                    x < w && yy < h ==> #[trigger] pixel_offset(w, h, bpp, x, yy) + 2 < bitmap@.len(),
                forall|yy: nat, x: nat|
                    yy < y && x < w ==> {
                        let o = pixel_offset(w, h, bpp, x, yy);
                        #[trigger] data@[(yy * w + x) as int] == (ColorCode {
                            r: bitmap@[o + 2],
                            g: bitmap@[o + 1],
                            b: bitmap@[o],
                            a: 0,
                        })
                    },
            decreases height - y,
        {
            let mut x: usize = 0;
            while x < width
                invariant
                    w == width,
                    h == height,
                    bpp == bits_per_pixel,
                    padding == (4 - (w * bpp) % 4) % 4,
                    blen == bitmap@.len(),
                    width * bits_per_pixel + 3 <= usize::MAX,
                    y < height,
                    x <= width,
                    data@.len() == y * w + x,
                    forall|xx: nat, yy: nat|
                        xx < w && yy < h ==> #[trigger] pixel_offset(w, h, bpp, xx, yy) + 2 < bitmap@.len(),
                    forall|yy: nat, xx: nat|
                        (yy < y && xx < w) || (yy == y && xx < x) ==> {
                            let o = pixel_offset(w, h, bpp, xx, yy);
                            #[trigger] data@[(yy * w + xx) as int] == (ColorCode {
                                r: bitmap@[o + 2],
                                g: bitmap@[o + 1],
                                b: bitmap@[o],
                                a: 0,
                            })
                        },
                decreases width - x,
            {
                let ghost o = pixel_offset(w, h, bpp, x as nat, y as nat);
                assert(o + 2 < bitmap@.len());
                proof {
                    lemma_offset_parts(w, h, bpp, x as nat, y as nat, padding as nat);
                }
                let row = width * bits_per_pixel + padding;
                let offset = (height - y - 1) * row + x * bits_per_pixel;
                assert(offset == o);
                let b = bitmap[offset];
                let g = bitmap[offset + 1];
                let r = bitmap[offset + 2];
                let ghost before = data@;
                data.push(ColorCode::new_rgb(r, g, b));
                proof {
                    lemma_row_index(w, y as nat, x as nat);
                    assert forall|yy: nat, xx: nat|
                        (yy < y && xx < w) || (yy == y && xx < x + 1) implies {
                            let o2 = pixel_offset(w, h, bpp, xx, yy);
                            #[trigger] data@[(yy * w + xx) as int] == (ColorCode {
                                r: bitmap@[o2 + 2],
                                g: bitmap@[o2 + 1],
                                b: bitmap@[o2],
                                a: 0,
                            })
                        } by {
                        lemma_row_index(w, yy, xx);
                        if yy == y && xx == x {
                        } else {
                            lemma_index_before(w, y as nat, x as nat, yy, xx);
                            assert(data@[(yy * w + xx) as int] == before[(yy * w + xx) as int]);
                        }
                    }
                }
                x = x + 1;
            }
            proof {
                assert(data@.len() == (y + 1) * w) by (nonlinear_arith)
                    requires
                        data@.len() == y * w + w,
                ;
            }
            y = y + 1;
        }
        proof {
            assert(data@.len() == w * h) by (nonlinear_arith)
                requires
                    data@.len() == y * w,
                    y == h,
            ;
        }
        data
    }

    pub open spec fn info_header_width(&self) -> i32 {
        signed32(le32(self.data@[18], self.data@[19], self.data@[20], self.data@[21])) as i32
    }

    pub open spec fn info_header_height(&self) -> i32 {
        signed32(le32(self.data@[22], self.data@[23], self.data@[24], self.data@[25])) as i32
    }

    pub open spec fn bpp_bytes(&self) -> u16 {
        le16(self.data@[28], self.data@[29]) / 8
    }

    /// The color of pixel (`x`, `y`), top row first: blue, green and red
    /// bytes of the pixel array.
    pub open spec fn pixel_color(&self, x: nat, y: nat) -> crate::graphics::color::ColorCode {
        let o = pixel_offset(
            abs32(self.info_header_width()),
            abs32(self.info_header_height()),
            self.bpp_bytes() as nat,
            x,
            y,
        );
        crate::graphics::color::ColorCode { r: self.pixels()[o + 2], g: self.pixels()[o + 1], b: self.pixels()[o], a: 0 }
    }

    pub open spec fn pixels(&self) -> Seq<u8> {
        self.data@.skip(le32(self.data@[10], self.data@[11], self.data@[12], self.data@[13]) as int)
    }
}

proof fn lemma_offset_parts(w: nat, h: nat, bpp: nat, x: nat, y: nat, padding: nat)
    requires
        x < w,
        y < h,
        padding == (4 - (w * bpp) % 4) % 4,
        pixel_offset(w, h, bpp, x, y) + 2 < usize::MAX,
    ensures
        (h - y - 1) * (w * bpp + padding) <= pixel_offset(w, h, bpp, x, y),
        x * bpp <= pixel_offset(w, h, bpp, x, y),
        pixel_offset(w, h, bpp, x, y) == (h - y - 1) * (w * bpp + padding) + x * bpp,
        h - y - 1 > 0 ==> w * bpp + padding <= pixel_offset(w, h, bpp, x, y),
{
    assert((h - y - 1) * (w * bpp + padding) >= 0) by (nonlinear_arith)
        requires
            h - y - 1 >= 0,
    ;
    assert(x * bpp >= 0) by (nonlinear_arith);
    assert(h - y - 1 > 0 ==> w * bpp + padding <= (h - y - 1) * (w * bpp + padding)) by (nonlinear_arith);
}

proof fn lemma_row_index(w: nat, y: nat, x: nat)
    requires
        x < w,
    ensures
        y * w + x < (y + 1) * w,
        y * w + x >= 0,
{
    assert(y * w + x < (y + 1) * w) by (nonlinear_arith)
        requires
            x < w,
    ;
}

proof fn lemma_index_before(w: nat, y: nat, x: nat, yy: nat, xx: nat)
    requires
        x < w,
        xx < w,
        (yy < y) || (yy == y && xx < x),
    ensures
        yy * w + xx < y * w + x,
{
    if yy < y {
        assert(yy * w + xx < y * w + x) by (nonlinear_arith)
            requires
                yy < y,
                xx < w,
        ;
    }
}

} // verus!
