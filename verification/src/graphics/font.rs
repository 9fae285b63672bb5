use vstd::prelude::*;
use crate::codec::le32;
use crate::error::Error;

verus! {

/// The magic number that starts a PSF version 2 font.
pub const FONT_MAGIC_NUM: u32 = 0x864ab572;

/// Ends the list of characters of one glyph in the unicode table.
pub const UNICODE_TABLE_SEPARATOR: u8 = 0xff;

/// The little-endian 32-bit header field at byte `o`.
pub open spec fn field(b: Seq<u8>, o: int) -> u32 {
    le32(b[o], b[o + 1], b[o + 2], b[o + 3])
}

/// A PSF2 header the terminal can use: the magic number, glyphs at most 8
/// pixels wide and 16 high, and a glyph area whose end is representable.
pub open spec fn psf_header_ok(b: Seq<u8>) -> bool {
    &&& b.len() >= 32
    &&& field(b, 0) == FONT_MAGIC_NUM
    &&& field(b, 24) <= 16
    &&& field(b, 28) <= 8
    &&& field(b, 8) + field(b, 20) * field(b, 16) <= usize::MAX
}

/// A PSF2 font: its header fields, its bytes, and the cache of glyph indices
/// of the first 256 characters.
pub struct PsfFont {
    pub binary: Vec<u8>,
    pub binary_len: usize,
    pub wh: (usize, usize),
    pub glyphs_len: usize,
    pub glyph_size: usize,
    pub has_unicode_table: bool,
    pub header_size: usize,
    pub unicode_table_offset: usize,
    pub glyph_cache: Vec<u16>,
    pub cache_initialized: bool,
}

fn read_le32(b: &[u8], o: usize) -> (res: u32)
    requires
        o <= 28,
        o + 4 <= b@.len(),
    ensures
        res == field(b@, o as int),
{
    crate::codec::from_be_u32(b[o + 3], b[o + 2], b[o + 1], b[o])
}

/// The cache after reading the unicode table from `start` up to `end`: the
/// glyph index reached (one more at each separator) and, for each byte
/// value, the glyph it was last listed under (taken to 16 bits).
pub open spec fn table_cache(b: Seq<u8>, start: int, end: int, init: Seq<u16>) -> (nat, Seq<u16>)
    decreases end - start,
{
    if end <= start {
        (0, init)
    } else {
        let (g, c) = table_cache(b, start, end - 1, init);
        let byte = b[end - 1];
        if byte == UNICODE_TABLE_SEPARATOR {
            (g + 1, c)
        } else {
            (g, c.update(byte as int, g as u16))
        }
    }
}

/// The glyph index found by scanning the unicode table from `i` for the
/// byte `u`: the separators passed before it.
pub open spec fn scan_index(b: Seq<u8>, u: u8, i: int, end: int) -> nat
    decreases end - i,
{
    if i >= end {
        0
    } else if b[i] == u {
        0
    } else {
        (if b[i] == UNICODE_TABLE_SEPARATOR {
            1nat
        } else {
            0nat
        }) + scan_index(b, u, i + 1, end)
    }
}

/// The glyph index of a character: from the cache when it holds one, its
/// code point in a font without a unicode table, or by scanning the table.
pub open spec fn glyph_index(f: PsfFont, c: char) -> nat {
    let cp = c as u32 as nat;
    if cp < 256 && f.cache_initialized && f.glyph_cache@[cp as int] != u16::MAX {
        f.glyph_cache@[cp as int] as nat
    } else if !f.has_unicode_table {
        cp
    } else {
        scan_index(f.binary@, c as u8, f.unicode_table_offset as int, f.binary_len as int)
    }
}

pub open spec fn font_wf(f: PsfFont) -> bool {
    &&& psf_header_ok(f.binary@)
    &&& f.binary_len == f.binary@.len()
    &&& f.glyph_cache@.len() == 256
    &&& f.header_size == field(f.binary@, 8)
    &&& f.glyph_size == field(f.binary@, 20)
    &&& f.glyphs_len == field(f.binary@, 16)
    &&& f.unicode_table_offset == f.header_size + f.glyph_size * f.glyphs_len
    &&& f.wh == (field(f.binary@, 28) as usize, field(f.binary@, 24) as usize)
    &&& f.has_unicode_table == (field(f.binary@, 12) == 1)
}

impl PsfFont {
    /// Whether the bytes hold a header this font reader takes.
    pub fn header_ok(binary: &[u8]) -> (res: bool)
        ensures
            res == psf_header_ok(binary@),
    {
        if binary.len() < 32 {
            return false;
        }
        let magic = read_le32(binary, 0);
        let height = read_le32(binary, 24);
        let width = read_le32(binary, 28);
        let header_size = read_le32(binary, 8);
        let glyphs_len = read_le32(binary, 16);
        let glyph_size = read_le32(binary, 20);
        if magic != FONT_MAGIC_NUM || height > 16 || width > 8 {
            return false;
        }
        proof {
            assert((glyph_size as int) * (glyphs_len as int) <= 0xffff_ffff * 0xffff_ffff) by (nonlinear_arith)
                requires
                    glyph_size <= 0xffff_ffff,
                    glyphs_len <= 0xffff_ffff,
            ;
        }
        let prod = (glyph_size as u128) * (glyphs_len as u128);
        (header_size as u128) + prod <= usize::MAX as u128
    }

    /// Reads the header of a PSF2 font.
    pub fn new(binary: Vec<u8>) -> (res: Self)
        requires
            psf_header_ok(binary@),
        ensures
            font_wf(res),
            res.binary@ == binary@,
            !res.cache_initialized,
            forall|i: int| 0 <= i < 256 ==> #[trigger] res.glyph_cache@[i] == u16::MAX,
    {
        let height = read_le32(binary.as_slice(), 24) as usize;
        let width = read_le32(binary.as_slice(), 28) as usize;
        let glyphs_len = read_le32(binary.as_slice(), 16) as usize;
        let glyph_size = read_le32(binary.as_slice(), 20) as usize;
        let flags = read_le32(binary.as_slice(), 12);
        let header_size = read_le32(binary.as_slice(), 8) as usize;
        proof {
            assert(glyph_size * glyphs_len <= usize::MAX);
        }
        let unicode_table_offset = header_size + glyph_size * glyphs_len;
        let mut cache: Vec<u16> = Vec::new();
        let mut i: usize = 0;
        while i < 256
            invariant
                i <= 256,
                cache@.len() == i,
                forall|j: int| 0 <= j < i ==> #[trigger] cache@[j] == u16::MAX,
            decreases 256 - i,
        {
            cache.push(u16::MAX);
            i = i + 1;
        }
        let binary_len = binary.len();
        PsfFont {
            binary,
            binary_len,
            wh: (width, height),
            glyphs_len,
            glyph_size,
            has_unicode_table: flags == 1,
            header_size,
            unicode_table_offset,
            glyph_cache: cache,
            cache_initialized: false,
        }
    }

    pub fn wh(&self) -> (res: (usize, usize))
        ensures
            res == self.wh,
    {
        self.wh
    }

    /// Fills the cache once: each of the first 256 characters maps to its
    /// own index in a font without a unicode table, or to the glyph it is
    /// last listed under in the table.
    pub fn init_cache(&mut self)
        requires
            font_wf(*old(self)),
        ensures
            font_wf(*final(self)),
            final(self).binary == old(self).binary,
            final(self).cache_initialized,
            old(self).cache_initialized ==> final(self).glyph_cache == old(self).glyph_cache,
            !old(self).cache_initialized && !old(self).has_unicode_table ==> forall|i: int|
                0 <= i < 256 ==> #[trigger] final(self).glyph_cache@[i] == i,
            !old(self).cache_initialized && old(self).has_unicode_table ==> final(self).glyph_cache@
                == table_cache(
                old(self).binary@,
                old(self).unicode_table_offset as int,
                old(self).binary_len as int,
                old(self).glyph_cache@,
            ).1,
    {
        if self.cache_initialized {
            return;
        }
        if !self.has_unicode_table {
            let mut i: usize = 0;
            while i < 256
                invariant
                    i <= 256,
                    self.glyph_cache@.len() == 256,
                    font_wf(*self),
                    self.binary == old(self).binary,
                    !self.cache_initialized,
                    forall|j: int| 0 <= j < i ==> #[trigger] self.glyph_cache@[j] == j,
                decreases 256 - i,
            {
                self.glyph_cache.set(i, i as u16);
                i = i + 1;
            }
        } else {
            let start = self.unicode_table_offset;
            let end = self.binary_len;
            let mut glyph_index: usize = 0;
            let mut i: usize = start;
            if start < end {
                while i < end
                    invariant
                        start <= i <= end,
                        end == self.binary@.len(),
                        start == self.unicode_table_offset,
                        self.glyph_cache@.len() == 256,
                        font_wf(*self),
                        self.binary == old(self).binary,
                        !self.cache_initialized,
                        glyph_index <= i - start,
                        (glyph_index as nat, self.glyph_cache@) == table_cache(
                            old(self).binary@,
                            start as int,
                            i as int,
                            old(self).glyph_cache@,
                        ),
                    decreases end - i,
                {
                    let byte = self.binary[i];
                    if byte == UNICODE_TABLE_SEPARATOR {
                        glyph_index = glyph_index + 1;
                    } else {
                        self.glyph_cache.set(byte as usize, glyph_index as u16);
                    }
                    i = i + 1;
                }
            } else {
                assert(table_cache(old(self).binary@, start as int, end as int, old(self).glyph_cache@) == (
                0nat, old(self).glyph_cache@));
            }
        }
        self.cache_initialized = true;
    }

    /// The glyph index of a character.
    pub fn unicode_char_to_glyph_index(&self, c: char) -> (res: usize)
        requires
            font_wf(*self),
        ensures
            res == glyph_index(*self, c),
    {
        let code_point = c as u32 as usize;
        if code_point < 256 && self.cache_initialized {
            let idx = self.glyph_cache[code_point];
            if idx != u16::MAX {
                return idx as usize;
            }
        }
        if !self.has_unicode_table {
            return code_point;
        }
        let code_point_u8 = c as u8;
        let mut index: usize = 0;
        let mut i: usize = self.unicode_table_offset;
        let end = self.binary_len;
        if i >= end {
            return 0;
        }
        #[verifier::loop_isolation(false)]
        while i < end
            invariant
                self.unicode_table_offset <= i <= end,
                end == self.binary@.len(),
                index <= i - self.unicode_table_offset,
                index + scan_index(self.binary@, code_point_u8, i as int, end as int) == scan_index(
                    self.binary@,
                    code_point_u8,
                    self.unicode_table_offset as int,
                    end as int,
                ),
            decreases end - i,
        {
            if code_point_u8 == self.binary[i] {
                return index;
            }
            if self.binary[i] == UNICODE_TABLE_SEPARATOR {
                index = index + 1;
            }
            i = i + 1;
        }
        index
    }

    /// The bytes of a character's glyph; an index past the last glyph is
    /// refused.
    pub fn glyph(&self, c: char) -> (res: Result<&[u8], Error>)
        requires
            font_wf(*self),
            glyph_index(*self, c) == self.glyphs_len ==> self.unicode_table_offset + self.glyph_size
                <= self.binary@.len(),
            self.unicode_table_offset <= self.binary@.len(),
        ensures
            glyph_index(*self, c) > self.glyphs_len ==> res == Err::<&[u8], Error>(
                Error::IndexOutOfBounds {
                    index: glyph_index(*self, c) as usize,
                    len: Some(self.glyphs_len),
                },
            ),
            glyph_index(*self, c) <= self.glyphs_len ==> (res matches Ok(g) && g@ == self.binary@.subrange(
                self.header_size + self.glyph_size * glyph_index(*self, c),
                self.header_size + self.glyph_size * glyph_index(*self, c) + self.glyph_size,
            )),
    {
        let index = self.unicode_char_to_glyph_index(c);
        if index > self.glyphs_len {
            return Err(Error::IndexOutOfBounds { index, len: Some(self.glyphs_len) });
        }
        proof {
            assert(self.glyph_size * index <= self.glyph_size * self.glyphs_len) by (nonlinear_arith)
                requires
                    index <= self.glyphs_len,
            ;
            if index < self.glyphs_len {
                assert(self.glyph_size * index + self.glyph_size <= self.glyph_size * self.glyphs_len)
                    by (nonlinear_arith)
                    requires
                        index < self.glyphs_len,
                ;
            } else {
                assert(self.glyph_size * index == self.glyph_size * self.glyphs_len);
            }
        }
        let offset = self.header_size + self.glyph_size * index;
        let s = self.binary.as_slice();
        let (_, tail) = s.split_at(offset);
        let (g, _) = tail.split_at(self.glyph_size);
        assert(g@ =~= self.binary@.subrange(offset as int, offset + self.glyph_size));
        Ok(g)
    }
}

} // verus!
