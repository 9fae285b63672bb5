use vstd::prelude::*;

verus! {

/// Number of entries in one page table.
pub const PAGE_TABLE_ENTRY_LEN: usize = 512;

/// The R/W bit of an entry.
#[derive(Debug, Clone, Copy, PartialEq, Eq, Structural)]
pub enum ReadWrite {
    Read,
    Write,
}

/// The U/S bit of an entry.
#[derive(Debug, Clone, Copy, PartialEq, Eq, Structural)]
pub enum EntryMode {
    Supervisor,
    User,
}

/// The PWT bit of an entry.
#[derive(Debug, Clone, Copy, PartialEq, Eq, Structural)]
pub enum PageWriteThroughLevel {
    WriteBack,
    WriteThrough,
}

pub open spec fn rw_bit(rw: ReadWrite) -> u64 {
    match rw {
        ReadWrite::Read => 0,
        ReadWrite::Write => 1,
    }
}

pub open spec fn us_bit(us: EntryMode) -> u64 {
    match us {
        EntryMode::Supervisor => 0,
        EntryMode::User => 1,
    }
}

pub open spec fn pwt_bit(pwt: PageWriteThroughLevel) -> u64 {
    match pwt {
        PageWriteThroughLevel::WriteBack => 0,
        PageWriteThroughLevel::WriteThrough => 1,
    }
}

/// The value (0 or 1) of bit `n` of `e`.
pub open spec fn bit_of(e: u64, n: u64) -> u64 {
    (e >> n) & 1
}

/// `a` and `b` agree on every bit outside `mask`.
pub open spec fn same_outside(a: u64, b: u64, mask: u64) -> bool {
    a & !mask == b & !mask
}

/// The physical address field of an entry (bits 12 to 62).
pub const ADDR_MASK: u64 = 0x7fff_ffff_ffff_f000;

/// The bits that `set_addr` keeps of its argument.
pub const ADDR_ARG_MASK: u64 = 0x7_ffff_ffff_ffff;

proof fn lemma_set_bit(x: u64, n: u64, v: u64)
    requires
        n < 64,
        v <= 1,
    ensures
        (((x & !(1u64 << n)) | (v << n)) >> n) & 1 == v,
        ((x & !(1u64 << n)) | (v << n)) & !(1u64 << n) == x & !(1u64 << n),
{
    assert((((x & !(1u64 << n)) | (v << n)) >> n) & 1 == v) by (bit_vector)
        requires
            n < 64,
            v <= 1,
    ;
    assert(((x & !(1u64 << n)) | (v << n)) & !(1u64 << n) == x & !(1u64 << n)) by (bit_vector)
        requires
            n < 64,
            v <= 1,
    ;
}

proof fn lemma_bit_of_bound(x: u64, n: u64)
    ensures
        bit_of(x, n) <= 1,
{
    assert((x >> n) & 1 <= 1) by (bit_vector);
}

proof fn lemma_same_outside_trans(a: u64, b: u64, c: u64, m1: u64, m2: u64)
    requires
        same_outside(a, b, m1),
        same_outside(b, c, m2),
    ensures
        same_outside(a, c, m1 | m2),
{
    assert((a & !m1 == b & !m1 && b & !m2 == c & !m2) ==> a & !(m1 | m2) == c & !(m1 | m2))
        by (bit_vector);
}

proof fn lemma_same_outside_bit(a: u64, b: u64, m: u64, n: u64)
    requires
        same_outside(a, b, m),
        n < 64,
        m & (1u64 << n) == 0,
    ensures
        bit_of(a, n) == bit_of(b, n),
{
    assert((a & !m == b & !m && n < 64 && m & (1u64 << n) == 0) ==> (a >> n) & 1 == (b >> n) & 1)
        by (bit_vector);
}

proof fn lemma_set_addr(x: u64, addr: u64)
    ensures
        ((x & !ADDR_MASK) | (addr & ADDR_ARG_MASK)) & !ADDR_MASK == (x & !ADDR_MASK) | (addr
            & ADDR_ARG_MASK & 0xfff),
        (addr % 4096 == 0 && addr < 0x8_0000_0000_0000) ==> ((x & !ADDR_MASK) | (addr
            & ADDR_ARG_MASK)) & ADDR_MASK == addr,
        (addr % 4096 == 0) ==> same_outside((x & !ADDR_MASK) | (addr & ADDR_ARG_MASK), x, ADDR_MASK),
{
    assert(((x & !0x7fff_ffff_ffff_f000u64) | (addr & 0x7_ffff_ffff_ffffu64)) & !0x7fff_ffff_ffff_f000u64
        == (x & !0x7fff_ffff_ffff_f000u64) | (addr & 0x7_ffff_ffff_ffffu64 & 0xfff)) by (bit_vector);
    assert((addr % 4096 == 0 && addr < 0x8_0000_0000_0000) ==> ((x & !0x7fff_ffff_ffff_f000u64) | (
    addr & 0x7_ffff_ffff_ffffu64)) & 0x7fff_ffff_ffff_f000u64 == addr) by (bit_vector);
    assert((addr % 4096 == 0) ==> ((x & !0x7fff_ffff_ffff_f000u64) | (addr & 0x7_ffff_ffff_ffffu64))
        & !0x7fff_ffff_ffff_f000u64 == x & !0x7fff_ffff_ffff_f000u64) by (bit_vector);
}

/// A 64-bit x86_64 paging-structure entry.
#[derive(Debug, Clone, Copy, PartialEq, Eq, Structural)]
pub struct PageTableEntry(pub u64);

impl PageTableEntry {
    /// The present bit (0).
    pub fn set_p(&mut self, value: bool)
        ensures
            bit_of(final(self).0, 0) == (if value { 1u64 } else { 0u64 }),
            same_outside(final(self).0, old(self).0, 1u64 << 0u64),
    {
        let v: u64 = if value { 1 } else { 0 };
        proof {
            lemma_set_bit(self.0, 0, v);
        }
        self.0 = (self.0 & !(1u64 << 0u64)) | (v << 0u64);
    }

    pub fn p(&self) -> (res: bool)
        ensures
            res == (bit_of(self.0, 0) == 1),
    {
        (self.0 >> 0u64) & 1 == 1
    }

    /// The read/write bit (1).
    pub fn set_rw(&mut self, rw: ReadWrite)
        ensures
            bit_of(final(self).0, 1) == rw_bit(rw),
            same_outside(final(self).0, old(self).0, 1u64 << 1u64),
    {
        let v: u64 = match rw {
            ReadWrite::Read => 0,
            ReadWrite::Write => 1,
        };
        proof {
            lemma_set_bit(self.0, 1, v);
        }
        self.0 = (self.0 & !(1u64 << 1u64)) | (v << 1u64);
    }

    pub fn rw(&self) -> (res: ReadWrite)
        ensures
            rw_bit(res) == bit_of(self.0, 1),
    {
        proof {
            lemma_bit_of_bound(self.0, 1);
        }
        if (self.0 >> 1u64) & 1 == 1 {
            ReadWrite::Write
        } else {
            ReadWrite::Read
        }
    }

    /// The user/supervisor bit (2).
    pub fn set_us(&mut self, us: EntryMode)
        ensures
            bit_of(final(self).0, 2) == us_bit(us),
            same_outside(final(self).0, old(self).0, 1u64 << 2u64),
    {
        let v: u64 = match us {
            EntryMode::Supervisor => 0,
            EntryMode::User => 1,
        };
        proof {
            lemma_set_bit(self.0, 2, v);
        }
        self.0 = (self.0 & !(1u64 << 2u64)) | (v << 2u64);
    }

    pub fn us(&self) -> (res: EntryMode)
        ensures
            us_bit(res) == bit_of(self.0, 2),
    {
        proof {
            lemma_bit_of_bound(self.0, 2);
        }
        if (self.0 >> 2u64) & 1 == 1 {
            EntryMode::User
        } else {
            EntryMode::Supervisor
        }
    }

    /// The page-level write-through bit (3).
    pub fn set_pwt(&mut self, pwt: PageWriteThroughLevel)
        ensures
            bit_of(final(self).0, 3) == pwt_bit(pwt),
            same_outside(final(self).0, old(self).0, 1u64 << 3u64),
    {
        let v: u64 = match pwt {
            PageWriteThroughLevel::WriteBack => 0,
            PageWriteThroughLevel::WriteThrough => 1,
        };
        proof {
            lemma_set_bit(self.0, 3, v);
        }
        self.0 = (self.0 & !(1u64 << 3u64)) | (v << 3u64);
    }

    /// The page-level cache-disable bit (4).
    pub fn set_disable_page_cache(&mut self, value: bool)
        ensures
            bit_of(final(self).0, 4) == (if value { 1u64 } else { 0u64 }),
            same_outside(final(self).0, old(self).0, 1u64 << 4u64),
    {
        let v: u64 = if value { 1 } else { 0 };
        proof {
            lemma_set_bit(self.0, 4, v);
        }
        self.0 = (self.0 & !(1u64 << 4u64)) | (v << 4u64);
    }

    /// The accessed bit (5).
    pub fn set_accessed(&mut self, value: bool)
        ensures
            bit_of(final(self).0, 5) == (if value { 1u64 } else { 0u64 }),
            same_outside(final(self).0, old(self).0, 1u64 << 5u64),
    {
        let v: u64 = if value { 1 } else { 0 };
        proof {
            lemma_set_bit(self.0, 5, v);
        }
        self.0 = (self.0 & !(1u64 << 5u64)) | (v << 5u64);
    }

    /// The page-size bit (7): the entry maps a page rather than a table.
    pub fn set_is_page(&mut self, value: bool)
        ensures
            bit_of(final(self).0, 7) == (if value { 1u64 } else { 0u64 }),
            same_outside(final(self).0, old(self).0, 1u64 << 7u64),
    {
        let v: u64 = if value { 1 } else { 0 };
        proof {
            lemma_set_bit(self.0, 7, v);
        }
        self.0 = (self.0 & !(1u64 << 7u64)) | (v << 7u64);
    }

    pub fn is_page(&self) -> (res: bool)
        ensures
            res == (bit_of(self.0, 7) == 1),
    {
        (self.0 >> 7u64) & 1 == 1
    }

    /// The restart bit (11).
    pub fn set_restart(&mut self, value: bool)
        ensures
            bit_of(final(self).0, 11) == (if value { 1u64 } else { 0u64 }),
            same_outside(final(self).0, old(self).0, 1u64 << 11u64),
    {
        let v: u64 = if value { 1 } else { 0 };
        proof {
            lemma_set_bit(self.0, 11, v);
        }
        self.0 = (self.0 & !(1u64 << 11u64)) | (v << 11u64);
    }

    /// Writes the address field: the argument's low 51 bits are or-ed into
    /// the entry after its bits 12 to 62 are cleared.
    pub fn set_addr(&mut self, addr: u64)
        ensures
            final(self).0 == (old(self).0 & !ADDR_MASK) | (addr & ADDR_ARG_MASK),
            (addr % 4096 == 0 && addr < 0x8_0000_0000_0000) ==> final(self).0 & ADDR_MASK == addr,
            addr % 4096 == 0 ==> same_outside(final(self).0, old(self).0, ADDR_MASK),
    {
        proof {
            lemma_set_addr(self.0, addr);
        }
        let addr = addr & ADDR_ARG_MASK;
        self.0 = (self.0 & !ADDR_MASK) | addr;
    }

    pub fn addr(&self) -> (res: u64)
        ensures
            res == self.0 & ADDR_MASK,
    {
        self.0 & ADDR_MASK
    }

    /// The execute-disable bit (63).
    pub fn set_disable_execute(&mut self, value: bool)
        ensures
            bit_of(final(self).0, 63) == (if value { 1u64 } else { 0u64 }),
            same_outside(final(self).0, old(self).0, 1u64 << 63u64),
    {
        let v: u64 = if value { 1 } else { 0 };
        proof {
            lemma_set_bit(self.0, 63, v);
        }
        self.0 = (self.0 & !(1u64 << 63u64)) | (v << 63u64);
    }

    /// Fills in a present, accessed, cacheable, executable entry.
    pub fn set_entry(
        &mut self,
        addr: u64,
        is_page_table_addr: bool,
        rw: ReadWrite,
        mode: EntryMode,
        write_through_level: PageWriteThroughLevel,
    )
        ensures
            final(self).0 & ADDR_MASK == addr & 0x7_ffff_ffff_f000,
            final(self).0 & 0xfff == entry_flags(
                old(self).0,
                rw_bit(rw),
                us_bit(mode),
                pwt_bit(write_through_level),
                if is_page_table_addr { 0u64 } else { 1u64 },
            ) | (addr & 0xfff),
            bit_of(final(self).0, 63) == 0,
            addr % 4096 == 0 ==> {
                &&& bit_of(final(self).0, 0) == 1
                &&& bit_of(final(self).0, 1) == rw_bit(rw)
                &&& bit_of(final(self).0, 2) == us_bit(mode)
                &&& bit_of(final(self).0, 3) == pwt_bit(write_through_level)
                &&& bit_of(final(self).0, 4) == 0
                &&& bit_of(final(self).0, 5) == 1
                &&& bit_of(final(self).0, 7) == (if is_page_table_addr { 0u64 } else { 1u64 })
                &&& bit_of(final(self).0, 11) == 0
                &&& same_outside(final(self).0, old(self).0, SET_ENTRY_MASK)
            },
            (addr % 4096 == 0 && addr < 0x8_0000_0000_0000) ==> final(self).0 & ADDR_MASK == addr,
    {
        let ghost e0 = self.0;
        self.set_p(true);
        let ghost e1 = self.0;
        self.set_rw(rw);
        let ghost e2 = self.0;
        self.set_us(mode);
        let ghost e3 = self.0;
        self.set_pwt(write_through_level);
        let ghost e4 = self.0;
        self.set_disable_page_cache(false);
        let ghost e5 = self.0;
        self.set_accessed(true);
        let ghost e6 = self.0;
        self.set_is_page(!is_page_table_addr);
        let ghost e7 = self.0;
        self.set_restart(false);
        let ghost e8 = self.0;
        self.set_addr(addr);
        let ghost e9 = self.0;
        self.set_disable_execute(false);
        let ghost e10 = self.0;
        proof {
            if addr % 4096 == 0 {
                lemma_set_entry_bits(e0, e1, e2, e3, e4, e5, e6, e7, e8, e9, e10);
            }
            lemma_set_entry_low(
                e0,
                e1,
                e2,
                e3,
                e4,
                e5,
                e6,
                e7,
                e8,
                e9,
                e10,
                addr,
                rw_bit(rw),
                us_bit(mode),
                pwt_bit(write_through_level),
                if is_page_table_addr { 0u64 } else { 1u64 },
            );
        }
    }
}

/// The low 12 bits that `set_entry` leaves in an entry `e` before the
/// address is or-ed in: present, accessed and the given read/write,
/// user, write-through and page-size bits set, cache-disable and restart
/// cleared, the other low bits kept.
pub open spec fn entry_flags(e: u64, rw: u64, us: u64, pwt: u64, ps: u64) -> u64 {
    (e & 0x740) | 1 | (rw << 1u64) | (us << 2u64) | (pwt << 3u64) | 0x20 | (ps << 7u64)
}

proof fn lemma_set_entry_low(
    e0: u64,
    e1: u64,
    e2: u64,
    e3: u64,
    e4: u64,
    e5: u64,
    e6: u64,
    e7: u64,
    e8: u64,
    e9: u64,
    e10: u64,
    addr: u64,
    rw: u64,
    us: u64,
    pwt: u64,
    ps: u64,
)
    requires
        rw <= 1 && us <= 1 && pwt <= 1 && ps <= 1,
        same_outside(e1, e0, 1u64 << 0u64) && bit_of(e1, 0) == 1,
        same_outside(e2, e1, 1u64 << 1u64) && bit_of(e2, 1) == rw,
        same_outside(e3, e2, 1u64 << 2u64) && bit_of(e3, 2) == us,
        same_outside(e4, e3, 1u64 << 3u64) && bit_of(e4, 3) == pwt,
        same_outside(e5, e4, 1u64 << 4u64) && bit_of(e5, 4) == 0,
        same_outside(e6, e5, 1u64 << 5u64) && bit_of(e6, 5) == 1,
        same_outside(e7, e6, 1u64 << 7u64) && bit_of(e7, 7) == ps,
        same_outside(e8, e7, 1u64 << 11u64) && bit_of(e8, 11) == 0,
        e9 == (e8 & !ADDR_MASK) | (addr & ADDR_ARG_MASK),
        same_outside(e10, e9, 1u64 << 63u64) && bit_of(e10, 63) == 0,
    ensures
        e10 & ADDR_MASK == addr & 0x7_ffff_ffff_f000,
        e10 & 0xfff == entry_flags(e0, rw, us, pwt, ps) | (addr & 0xfff),
{
    assert(1u64 << 0u64 == 1u64 && 1u64 << 1u64 == 2u64 && 1u64 << 2u64 == 4u64 && 1u64 << 3u64
        == 8u64 && 1u64 << 4u64 == 16u64 && 1u64 << 5u64 == 32u64 && 1u64 << 7u64 == 128u64 && 1u64
        << 11u64 == 2048u64 && 1u64 << 63u64 == 0x8000_0000_0000_0000u64) by (bit_vector);
    assert(
        (rw <= 1 && us <= 1 && pwt <= 1 && ps <= 1 && e1 & !1u64 == e0 & !1u64 && (e1 >> 0u64) & 1 == 1
            && e2 & !2u64 == e1 & !2u64 && (e2 >> 1u64) & 1 == rw && e3 & !4u64 == e2 & !4u64 && (e3
            >> 2u64) & 1 == us && e4 & !8u64 == e3 & !8u64 && (e4 >> 3u64) & 1 == pwt && e5 & !16u64
            == e4 & !16u64 && (e5 >> 4u64) & 1 == 0 && e6 & !32u64 == e5 & !32u64 && (e6 >> 5u64) & 1
            == 1 && e7 & !128u64 == e6 & !128u64 && (e7 >> 7u64) & 1 == ps && e8 & !2048u64 == e7
            & !2048u64 && (e8 >> 11u64) & 1 == 0) ==> e8 & 0xfff == (e0 & 0x740) | 1 | (rw << 1u64) | (
        us << 2u64) | (pwt << 3u64) | 0x20 | (ps << 7u64)) by (bit_vector);
    assert(
        (e9 == (e8 & !0x7fff_ffff_ffff_f000u64) | (addr & 0x7_ffff_ffff_ffffu64) && e10
            & !0x8000_0000_0000_0000u64 == e9 & !0x8000_0000_0000_0000u64) ==> (e10
            & 0x7fff_ffff_ffff_f000u64 == addr & 0x7_ffff_ffff_f000u64 && e10 & 0xfff == (e8 & 0xfff)
            | (addr & 0xfff))) by (bit_vector);
}

/// The bits that `set_entry` writes.
pub const SET_ENTRY_MASK: u64 = 0xffff_ffff_ffff_f8bf;

proof fn lemma_set_entry_bits(
    e0: u64,
    e1: u64,
    e2: u64,
    e3: u64,
    e4: u64,
    e5: u64,
    e6: u64,
    e7: u64,
    e8: u64,
    e9: u64,
    e10: u64,
)
    requires
        same_outside(e1, e0, 1u64 << 0u64),
        same_outside(e2, e1, 1u64 << 1u64),
        same_outside(e3, e2, 1u64 << 2u64),
        same_outside(e4, e3, 1u64 << 3u64),
        same_outside(e5, e4, 1u64 << 4u64),
        same_outside(e6, e5, 1u64 << 5u64),
        same_outside(e7, e6, 1u64 << 7u64),
        same_outside(e8, e7, 1u64 << 11u64),
        same_outside(e9, e8, ADDR_MASK),
        same_outside(e10, e9, 1u64 << 63u64),
    ensures
        same_outside(e10, e0, SET_ENTRY_MASK),
        bit_of(e10, 0) == bit_of(e1, 0),
        bit_of(e10, 1) == bit_of(e2, 1),
        bit_of(e10, 2) == bit_of(e3, 2),
        bit_of(e10, 3) == bit_of(e4, 3),
        bit_of(e10, 4) == bit_of(e5, 4),
        bit_of(e10, 5) == bit_of(e6, 5),
        bit_of(e10, 7) == bit_of(e7, 7),
        bit_of(e10, 11) == bit_of(e8, 11),
        e10 & ADDR_MASK == e9 & ADDR_MASK,
{
    assert(
        (e1 & !1u64 == e0 & !1u64 && e2 & !2u64 == e1 & !2u64 && e3 & !4u64 == e2 & !4u64 && e4 & !8u64
            == e3 & !8u64 && e5 & !16u64 == e4 & !16u64 && e6 & !32u64 == e5 & !32u64 && e7
            & !128u64 == e6 & !128u64 && e8 & !2048u64 == e7 & !2048u64 && e9
            & !0x7fff_ffff_ffff_f000u64 == e8 & !0x7fff_ffff_ffff_f000u64 && e10
            & !0x8000_0000_0000_0000u64 == e9 & !0x8000_0000_0000_0000u64) ==> (e10
            & !0xffff_ffff_ffff_f8bfu64 == e0 & !0xffff_ffff_ffff_f8bfu64 && (e10 >> 0u64) & 1 == (e1
            >> 0u64) & 1 && (e10 >> 1u64) & 1 == (e2 >> 1u64) & 1 && (e10 >> 2u64) & 1 == (e3
            >> 2u64) & 1 && (e10 >> 3u64) & 1 == (e4 >> 3u64) & 1 && (e10 >> 4u64) & 1 == (e5
            >> 4u64) & 1 && (e10 >> 5u64) & 1 == (e6 >> 5u64) & 1 && (e10 >> 7u64) & 1 == (e7
            >> 7u64) & 1 && (e10 >> 11u64) & 1 == (e8 >> 11u64) & 1 && e10
            & 0x7fff_ffff_ffff_f000u64 == e9 & 0x7fff_ffff_ffff_f000u64)) by (bit_vector);
    assert(1u64 << 0u64 == 1u64 && 1u64 << 1u64 == 2u64 && 1u64 << 2u64 == 4u64 && 1u64 << 3u64
        == 8u64 && 1u64 << 4u64 == 16u64 && 1u64 << 5u64 == 32u64 && 1u64 << 7u64 == 128u64 && 1u64
        << 11u64 == 2048u64 && 1u64 << 63u64 == 0x8000_0000_0000_0000u64) by (bit_vector);
}

/// One page table: 512 entries.
#[derive(Debug)]
pub struct PageTable {
    pub entries: [PageTableEntry; PAGE_TABLE_ENTRY_LEN],
}

} // verus!
