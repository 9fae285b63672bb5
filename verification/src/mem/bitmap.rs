use vstd::prelude::*;
use crate::error::Error;

verus! {

/// The size of a page and of a memory frame.
pub const PAGE_SIZE: usize = 4096;

/// Whether bit `j` of `b` is set.
pub open spec fn bit(b: u8, j: u8) -> bool {
    (b >> j) & 1u8 == 1u8
}

/// `b` with bit `j` set to `v`.
pub open spec fn with_bit(b: u8, j: u8, v: bool) -> u8 {
    (b & !(1u8 << j)) | ((if v { 1u8 } else { 0u8 }) << j)
}

/// Setting one bit changes that bit only.
proof fn lemma_with_bit(b: u8, j: u8, v: bool)
    requires
        j < 8,
    ensures
        bit(with_bit(b, j, v), j) == v,
        forall|k: u8| k < 8 && k != j ==> bit(with_bit(b, j, v), k) == bit(b, k),
{
    let x: u8 = if v { 1u8 } else { 0u8 };
    assert(((b & !(1u8 << j)) | (x << j)) >> j & 1u8 == x) by (bit_vector)
        requires
            j < 8,
            x == 0 || x == 1,
    ;
    assert(forall|k: u8| k < 8 && k != j ==> ((b & !(1u8 << j)) | (x << j)) >> k & 1u8 == (b >> k) & 1u8)
        by (bit_vector)
        requires
            j < 8,
            x == 0 || x == 1,
    ;
}

proof fn lemma_full_and_empty(b: u8)
    ensures
        b == 0xff ==> forall|k: u8| k < 8 ==> bit(b, k),
        b == 0 ==> forall|k: u8| k < 8 ==> !bit(b, k),
        b != 0xff ==> !bit(b, 0) || !bit(b, 1) || !bit(b, 2) || !bit(b, 3) || !bit(b, 4) || !bit(b, 5)
            || !bit(b, 6) || !bit(b, 7),
{
    assert(b == 0xff ==> forall|k: u8| k < 8 ==> (b >> k) & 1u8 == 1u8) by (bit_vector);
    assert(b == 0 ==> forall|k: u8| k < 8 ==> (b >> k) & 1u8 != 1u8) by (bit_vector);
    assert(b != 0xff ==> (b >> 0u8) & 1u8 != 1u8 || (b >> 1u8) & 1u8 != 1u8 || (b >> 2u8) & 1u8 != 1u8 || (b
        >> 3u8) & 1u8 != 1u8 || (b >> 4u8) & 1u8 != 1u8 || (b >> 5u8) & 1u8 != 1u8 || (b >> 6u8) & 1u8
        != 1u8 || (b >> 7u8) & 1u8 != 1u8) by (bit_vector);
}

/// Flipping one bit of a byte changes its count of clear bits by one.
proof fn lemma_zeros8_flip(b: u8, j: u8, v: bool)
    requires
        j < 8,
        bit(b, j) == !v,
    ensures
        v ==> zeros8(with_bit(b, j, v)) + 1 == zeros8(b),
        !v ==> zeros8(with_bit(b, j, v)) == zeros8(b) + 1,
{
    let x = with_bit(b, j, v);
    lemma_with_bit(b, j, v);
    if j == 0 {
        assert(bit(x, 0) == v);
        assert(bit(x, 1) == bit(b, 1));
        assert(bit(x, 2) == bit(b, 2));
        assert(bit(x, 3) == bit(b, 3));
        assert(bit(x, 4) == bit(b, 4));
        assert(bit(x, 5) == bit(b, 5));
        assert(bit(x, 6) == bit(b, 6));
        assert(bit(x, 7) == bit(b, 7));
    } else if j == 1 {
        assert(bit(x, 0) == bit(b, 0));
        assert(bit(x, 1) == v);
        assert(bit(x, 2) == bit(b, 2));
        assert(bit(x, 3) == bit(b, 3));
        assert(bit(x, 4) == bit(b, 4));
        assert(bit(x, 5) == bit(b, 5));
        assert(bit(x, 6) == bit(b, 6));
        assert(bit(x, 7) == bit(b, 7));
    } else if j == 2 {
        assert(bit(x, 0) == bit(b, 0));
        assert(bit(x, 1) == bit(b, 1));
        assert(bit(x, 2) == v);
        assert(bit(x, 3) == bit(b, 3));
        assert(bit(x, 4) == bit(b, 4));
        assert(bit(x, 5) == bit(b, 5));
        assert(bit(x, 6) == bit(b, 6));
        assert(bit(x, 7) == bit(b, 7));
    } else if j == 3 {
        assert(bit(x, 0) == bit(b, 0));
        assert(bit(x, 1) == bit(b, 1));
        assert(bit(x, 2) == bit(b, 2));
        assert(bit(x, 3) == v);
        assert(bit(x, 4) == bit(b, 4));
        assert(bit(x, 5) == bit(b, 5));
        assert(bit(x, 6) == bit(b, 6));
        assert(bit(x, 7) == bit(b, 7));
    } else if j == 4 {
        assert(bit(x, 0) == bit(b, 0));
        assert(bit(x, 1) == bit(b, 1));
        assert(bit(x, 2) == bit(b, 2));
        assert(bit(x, 3) == bit(b, 3));
        assert(bit(x, 4) == v);
        assert(bit(x, 5) == bit(b, 5));
        assert(bit(x, 6) == bit(b, 6));
        assert(bit(x, 7) == bit(b, 7));
    } else if j == 5 {
        assert(bit(x, 0) == bit(b, 0));
        assert(bit(x, 1) == bit(b, 1));
        assert(bit(x, 2) == bit(b, 2));
        assert(bit(x, 3) == bit(b, 3));
        assert(bit(x, 4) == bit(b, 4));
        assert(bit(x, 5) == v);
        assert(bit(x, 6) == bit(b, 6));
        assert(bit(x, 7) == bit(b, 7));
    } else if j == 6 {
        assert(bit(x, 0) == bit(b, 0));
        assert(bit(x, 1) == bit(b, 1));
        assert(bit(x, 2) == bit(b, 2));
        assert(bit(x, 3) == bit(b, 3));
        assert(bit(x, 4) == bit(b, 4));
        assert(bit(x, 5) == bit(b, 5));
        assert(bit(x, 6) == v);
        assert(bit(x, 7) == bit(b, 7));
    } else if j == 7 {
        assert(bit(x, 0) == bit(b, 0));
        assert(bit(x, 1) == bit(b, 1));
        assert(bit(x, 2) == bit(b, 2));
        assert(bit(x, 3) == bit(b, 3));
        assert(bit(x, 4) == bit(b, 4));
        assert(bit(x, 5) == bit(b, 5));
        assert(bit(x, 6) == bit(b, 6));
        assert(bit(x, 7) == v);
    }
}

/// Flipping one bit of a bitmap changes its count of clear bits by one.
proof fn lemma_flip(s: Seq<u8>, k: int, j: u8, v: bool)
    requires
        0 <= k < s.len(),
        j < 8,
        bit(s[k], j) == !v,
    ensures
        v ==> zeros(s) >= 1 && zeros(s.update(k, with_bit(s[k], j, v))) + 1 == zeros(s),
        !v ==> zeros(s) + 1 <= 8 * s.len() && zeros(s.update(k, with_bit(s[k], j, v))) == zeros(s) + 1,
{
    let x = with_bit(s[k], j, v);
    lemma_zeros8_flip(s[k], j, v);
    lemma_zeros_update(s, k, x);
    lemma_zeros_pos(s, k);
}

/// The number of clear bits of a byte.
pub open spec fn zeros8(b: u8) -> nat {
    (if bit(b, 0) { 0nat } else { 1nat }) + (if bit(b, 1) { 0nat } else { 1nat }) + (if bit(b, 2) {
        0nat
    } else {
        1nat
    }) + (if bit(b, 3) { 0nat } else { 1nat }) + (if bit(b, 4) { 0nat } else { 1nat }) + (if bit(b, 5) {
        0nat
    } else {
        1nat
    }) + (if bit(b, 6) { 0nat } else { 1nat }) + (if bit(b, 7) { 0nat } else { 1nat })
}

/// The number of clear bits of a bitmap: its free frames.
pub open spec fn zeros(s: Seq<u8>) -> nat
    decreases s.len(),
{
    if s.len() == 0 {
        0
    } else {
        zeros(s.drop_last()) + zeros8(s.last())
    }
}

proof fn lemma_zeros_update(s: Seq<u8>, k: int, x: u8)
    requires
        0 <= k < s.len(),
    ensures
        zeros(s.update(k, x)) + zeros8(s[k]) == zeros(s) + zeros8(x),
    decreases s.len(),
{
    if k < s.len() - 1 {
        assert(s.update(k, x).drop_last() =~= s.drop_last().update(k, x));
        lemma_zeros_update(s.drop_last(), k, x);
    } else {
        assert(s.update(k, x).drop_last() =~= s.drop_last());
    }
}

proof fn lemma_zeros_bound(s: Seq<u8>)
    ensures
        zeros(s) <= 8 * s.len(),
    decreases s.len(),
{
    if s.len() > 0 {
        lemma_zeros_bound(s.drop_last());
    }
}

proof fn lemma_zeros_pos(s: Seq<u8>, k: int)
    requires
        0 <= k < s.len(),
    ensures
        zeros(s) >= zeros8(s[k]),
        zeros(s) + 8 - zeros8(s[k]) <= 8 * s.len(),
    decreases s.len(),
{
    lemma_zeros_bound(s.drop_last());
    if k < s.len() - 1 {
        lemma_zeros_pos(s.drop_last(), k);
    }
}

proof fn lemma_zeros_full(n: nat)
    ensures
        zeros(Seq::new(n, |i: int| 0xffu8)) == 0,
    decreases n,
{
    lemma_full_and_empty(0xff);
    if n > 0 {
        assert(Seq::new(n, |i: int| 0xffu8).drop_last() =~= Seq::new((n - 1) as nat, |i: int| 0xffu8));
        lemma_zeros_full((n - 1) as nat);
    }
}

/// Eight frames' allocation bits.
#[derive(Debug, Clone, Copy, PartialEq, Eq, Structural)]
pub struct Bitmap(pub u8);

impl Bitmap {
    pub const BITMAP_SIZE: usize = 8;

    pub fn get(&self, index: usize) -> (res: Result<bool, Error>)
        ensures
            index >= 8 ==> res == Err::<bool, Error>(Error::IndexOutOfBoundsError(index)),
            index < 8 ==> res == Ok::<bool, Error>(bit(self.0, index as u8)),
    {
        if index >= 8 {
            return Err(Error::IndexOutOfBoundsError(index));
        }
        let j = index as u8;
        Ok(((self.0 >> j) & 1) == 1)
    }

    pub fn set(&mut self, index: usize, value: bool) -> (res: Result<(), Error>)
        ensures
            index >= 8 ==> res == Err::<(), Error>(Error::IndexOutOfBoundsError(index)) && *final(self)
                == *old(self),
            index < 8 ==> res is Ok && final(self).0 == with_bit(old(self).0, index as u8, value),
    {
        if index >= 8 {
            return Err(Error::IndexOutOfBoundsError(index));
        }
        let j = index as u8;
        let x: u8 = if value { 1 } else { 0 };
        self.0 = (self.0 & !(1u8 << j)) | (x << j);
        Ok(())
    }

    pub fn fill(&mut self, value: bool)
        ensures
            final(self).0 == if value { 0xffu8 } else { 0u8 },
    {
        self.0 = if value { 0xff } else { 0 };
    }

    pub fn is_allocated_all(&self) -> (res: bool)
        ensures
            res == (self.0 == 0xff),
    {
        self.0 == 0xff
    }

    pub fn is_free_all(&self) -> (res: bool)
        ensures
            res == (self.0 == 0),
    {
        self.0 == 0
    }
}

/// Errors of the frame allocator.
#[derive(Debug, Clone, Copy, PartialEq, Eq, Structural)]
pub enum BitmapMemoryManagerError {
    FreeMemoryFrameWasNotFoundError,
    /// memory frame index
    MemoryFrameWasAlreadyAllocatedError(usize),
    /// memory frame index
    MemoryFrameWasAlreadyDeallocatedError(usize),
    /// memory frame length
    InvalidMemoryFrameLengthError(usize),
}

/// A run of memory frames.
#[derive(Debug, Clone, Copy, PartialEq, Eq, Structural)]
pub struct MemoryFrameInfo {
    pub frame_start_phys_addr: u64,
    /// a multiple of the page size
    pub frame_size: usize,
    pub frame_index: usize,
    pub is_allocated: bool,
}

/// A region of the firmware's memory map: where it starts, how many pages
/// it spans, and whether it is memory the kernel may use.
#[derive(Debug, Clone, Copy, PartialEq, Eq, Structural)]
pub struct MemoryDescriptor {
    pub phys_start: u64,
    pub page_cnt: u64,
    pub available: bool,
}

/// Regions whose pages are handed out: usable, not at address 0, and page
/// aligned.
pub open spec fn counted(d: MemoryDescriptor) -> bool {
    d.available && d.phys_start != 0 && d.phys_start % 4096 == 0
}

/// The pages of the counted regions from `k` on.
pub open spec fn counted_pages(m: Seq<MemoryDescriptor>, k: int) -> nat
    decreases m.len() - k,
{
    if k < 0 || k >= m.len() {
        0
    } else {
        (if counted(m[k]) { m[k].page_cnt as nat } else { 0nat }) + counted_pages(m, k + 1)
    }
}

/// The address just past a region.
pub open spec fn desc_end(d: MemoryDescriptor) -> int {
    d.phys_start + d.page_cnt * 4096
}

/// Every region of the map ends a page short of the top of the address
/// space, so that frame numbers and addresses fit in a `usize`.
pub open spec fn map_fits(m: Seq<MemoryDescriptor>) -> bool {
    forall|k: int| 0 <= k < m.len() ==> #[trigger] desc_end(m[k]) + 4096 <= usize::MAX
}

/// The highest end among the regions `m[k..]`, or 0.
pub open spec fn max_end(m: Seq<MemoryDescriptor>, k: int) -> int
    decreases m.len() - k,
{
    if k < 0 || k >= m.len() {
        0
    } else if desc_end(m[k]) > max_end(m, k + 1) {
        desc_end(m[k])
    } else {
        max_end(m, k + 1)
    }
}

proof fn lemma_max_end_fits(m: Seq<MemoryDescriptor>, k: int)
    requires
        map_fits(m),
    ensures
        0 <= max_end(m, k),
        max_end(m, k) + 4096 <= usize::MAX,
    decreases m.len() - k,
{
    if 0 <= k < m.len() {
        assert(desc_end(m[k]) + 4096 <= usize::MAX);
        lemma_max_end_fits(m, k + 1);
    }
}

/// The number of frames that the map spans, at least one.
pub open spec fn frame_count(m: Seq<MemoryDescriptor>) -> int {
    let n = (max_end(m, 0) + 4096) / 4096;
    if n < 1 {
        1
    } else {
        n
    }
}

/// A region that can hold the bitmap of `n` frames.
pub open spec fn holds_bitmap(d: MemoryDescriptor, n: int) -> bool {
    counted(d) && d.page_cnt * 4096 >= n / 8
}

/// The first region from `k` on that can hold the bitmap of `n` frames.
pub open spec fn bitmap_area(m: Seq<MemoryDescriptor>, n: int, k: int) -> Option<int>
    decreases m.len() - k,
{
    if k < 0 || k >= m.len() {
        None
    } else if holds_bitmap(m[k], n) {
        Some(k)
    } else {
        bitmap_area(m, n, k + 1)
    }
}

proof fn lemma_bitmap_area(m: Seq<MemoryDescriptor>, n: int, k: int)
    ensures
        bitmap_area(m, n, k) matches Some(j) ==> 0 <= j < m.len() && holds_bitmap(m[j], n),
    decreases m.len() - k,
{
    if 0 <= k < m.len() && !holds_bitmap(m[k], n) {
        lemma_bitmap_area(m, n, k + 1);
    }
}

/// The first frame of a region and the frame just past it.
pub open spec fn region_frames(d: MemoryDescriptor) -> (int, int) {
    ((d.phys_start / 4096) as int, d.phys_start / 4096 + d.page_cnt)
}

/// `bm` with each frame of `lo..hi` that it covers cleared, in turn.
pub open spec fn cleared(bm: Seq<u8>, lo: int, hi: int) -> Seq<u8>
    decreases hi - lo,
{
    if hi <= lo {
        bm
    } else {
        let c = cleared(bm, lo, hi - 1);
        let f = hi - 1;
        if 0 <= f / 8 < c.len() {
            c.update(f / 8, with_bit(c[f / 8], (f % 8) as u8, false))
        } else {
            c
        }
    }
}

/// `bm` with each free frame of `lo..hi` that it covers marked used, in turn.
pub open spec fn marked(bm: Seq<u8>, lo: int, hi: int) -> Seq<u8>
    decreases hi - lo,
{
    if hi <= lo {
        bm
    } else {
        let c = marked(bm, lo, hi - 1);
        let f = hi - 1;
        if 0 <= f / 8 < c.len() && !bit(c[f / 8], (f % 8) as u8) {
            c.update(f / 8, with_bit(c[f / 8], (f % 8) as u8, true))
        } else {
            c
        }
    }
}

/// The error met at frame `b` of a run being freed: past the bitmap, or
/// already free.
pub open spec fn free_error(bm: Seq<u8>, b: int) -> Error {
    if b / 8 >= bm.len() {
        Error::IndexOutOfBoundsError((b / 8) as usize)
    } else {
        Error::BitmapMemoryManager(BitmapMemoryManagerError::MemoryFrameWasAlreadyDeallocatedError(b as usize))
    }
}

/// Freeing the frames of the counted regions `m[k..]` in order, starting
/// from `bm`: the bitmap reached, and the error that stopped it, if any.
pub open spec fn released(m: Seq<MemoryDescriptor>, k: int, bm: Seq<u8>) -> (Seq<u8>, Option<Error>)
    decreases m.len() - k,
{
    if k < 0 || k >= m.len() {
        (bm, None)
    } else if !counted(m[k]) {
        released(m, k + 1, bm)
    } else {
        let (lo, hi) = region_frames(m[k]);
        match first_bad(bm, lo, hi) {
            None => released(m, k + 1, cleared(bm, lo, hi)),
            Some(b) => (cleared(bm, lo, b), Some(free_error(bm, b))),
        }
    }
}

/// Clearing frames one after another sets exactly those frames to free.
proof fn lemma_cleared(bm: Seq<u8>, lo: int, hi: int)
    requires
        0 <= lo <= hi,
    ensures
        frames_set(bm, cleared(bm, lo, hi), lo, hi, false),
    decreases hi - lo,
{
    if hi > lo {
        lemma_cleared(bm, lo, hi - 1);
        let c = cleared(bm, lo, hi - 1);
        let f = hi - 1;
        if f / 8 < c.len() {
            lemma_frame_bits(c, f, false);
        }
    }
}

/// The first free frame at or after `f`, among the frames of `bm`.
pub open spec fn first_free_from(bm: Seq<u8>, f: int) -> Option<int>
    decreases 8 * bm.len() - f,
{
    if f < 0 || f >= 8 * bm.len() {
        None
    } else if !bit(bm[f / 8], (f % 8) as u8) {
        Some(f)
    } else {
        first_free_from(bm, f + 1)
    }
}

/// The run that the search for `len` frames settles on, scanning frames
/// from `f` with the run `(start, end)` found so far: a wholly free byte
/// when 8 frames are asked for, else the first run of `len + 1` free frames
/// (the end is checked before each frame), or the run open at the end.
pub open spec fn multi_scan(bm: Seq<u8>, len: int, f: int, start: Option<int>, end: Option<int>) -> (Option<int>, Option<int>)
    decreases 8 * bm.len() - f,
{
    if f < 0 || f >= 8 * bm.len() {
        (start, end)
    } else if f % 8 == 0 && len == 8 && bm[f / 8] == 0 {
        (Some(f), Some(f + 7))
    } else if start is Some && end is Some && end.unwrap() == start.unwrap() + len {
        (start, end)
    } else if !bit(bm[f / 8], (f % 8) as u8) {
        match start {
            Some(s) => multi_scan(
                bm,
                len,
                f + 1,
                start,
                Some(
                    match end {
                        Some(e) => e + 1,
                        None => s + 1,
                    },
                ),
            ),
            None => multi_scan(bm, len, f + 1, Some(f), end),
        }
    } else {
        multi_scan(bm, len, f + 1, None, None)
    }
}

/// The frames `s` to `e` are all free.
pub open spec fn run_free(bm: Seq<u8>, s: int, e: int) -> bool {
    forall|g: int| s <= g <= e ==> 0 <= g < 8 * bm.len() && !#[trigger] bit(bm[g / 8], (g % 8) as u8)
}

/// Setting the bit of frame `f` changes that frame only.
proof fn lemma_frame_bits(bm: Seq<u8>, f: int, v: bool)
    requires
        0 <= f < 8 * bm.len(),
    ensures
        forall|g: int|
            0 <= g < 8 * bm.len() ==> #[trigger] bit(
                bm.update(f / 8, with_bit(bm[f / 8], (f % 8) as u8, v))[g / 8],
                (g % 8) as u8,
            ) == if g == f {
                v
            } else {
                bit(bm[g / 8], (g % 8) as u8)
            },
{
    lemma_with_bit(bm[f / 8], (f % 8) as u8, v);
    assert forall|g: int| 0 <= g < 8 * bm.len() implies #[trigger] bit(
        bm.update(f / 8, with_bit(bm[f / 8], (f % 8) as u8, v))[g / 8],
        (g % 8) as u8,
    ) == if g == f {
        v
    } else {
        bit(bm[g / 8], (g % 8) as u8)
    } by {
        if g / 8 == f / 8 && g != f {
            assert((g % 8) as u8 != (f % 8) as u8);
        }
    }
}

/// The first frame of the run that `alloc_multi_mem_frame` hands out for
/// `len` frames, or `None` where it fails.
pub open spec fn alloc_start(bmm: BitmapMemoryManager, len: int) -> Option<int> {
    if len == 1 && bmm.free_frame_len > 0 {
        first_free_from(bmm.bitmap@, 1)
    } else if len > 1 && len <= bmm.free_frame_len {
        match multi_scan(bmm.bitmap@, len, 0, None, None) {
            (Some(s), Some(_)) => Some(s),
            _ => None,
        }
    } else {
        None
    }
}

/// The error that `alloc_multi_mem_frame` gives where it fails for `len`
/// frames.
pub open spec fn alloc_error(len: int) -> Error {
    if len == 0 {
        Error::BitmapMemoryManager(BitmapMemoryManagerError::InvalidMemoryFrameLengthError(0))
    } else {
        Error::BitmapMemoryManager(BitmapMemoryManagerError::FreeMemoryFrameWasNotFoundError)
    }
}

/// A frame run starting at frame `f`: its address, size and index.
pub open spec fn frame_info(f: int, len: int) -> MemoryFrameInfo {
    MemoryFrameInfo {
        frame_start_phys_addr: (f * 4096) as u64,
        frame_size: (4096 * len) as usize,
        frame_index: f as usize,
        is_allocated: true,
    }
}

/// A search past a wholly used byte goes on at the next byte.
proof fn lemma_skip_full(bm: Seq<u8>, f: int, next: int)
    requires
        0 <= f < 8 * bm.len(),
        next == (f / 8 + 1) * 8,
        forall|k: u8| k < 8 ==> #[trigger] bit(bm[f / 8], k),
    ensures
        first_free_from(bm, f) == first_free_from(bm, next),
    decreases next - f,
{
    if f + 1 < next {
        assert((f + 1) / 8 == f / 8);
        assert(bit(bm[f / 8], (f % 8) as u8));
        lemma_skip_full(bm, f + 1, next);
    } else {
        assert(bit(bm[f / 8], (f % 8) as u8));
    }
}

/// What the search finds is a free frame at or after where it started.
proof fn lemma_first_free(bm: Seq<u8>, f: int)
    ensures
        first_free_from(bm, f) matches Some(g) ==> f <= g < 8 * bm.len() && !bit(bm[g / 8], (g % 8) as u8),
    decreases 8 * bm.len() - f,
{
    if 0 <= f < 8 * bm.len() && bit(bm[f / 8], (f % 8) as u8) {
        lemma_first_free(bm, f + 1);
    }
}

pub open spec fn opt_int(o: Option<usize>) -> Option<int> {
    match o {
        Some(v) => Some(v as int),
        None => None,
    }
}

/// The first frame from `f` before `end` that is past the bitmap or free.
pub open spec fn first_bad(bm: Seq<u8>, f: int, end: int) -> Option<int>
    decreases end - f,
{
    if f >= end {
        None
    } else if f / 8 >= bm.len() || !bit(bm[f / 8], (f % 8) as u8) {
        Some(f)
    } else {
        first_bad(bm, f + 1, end)
    }
}

/// Bits of distinct frames set or cleared: frame `g` of `after` is frame `g`
/// of `before` except in `[lo, hi)`, where it is `v`.
pub open spec fn frames_set(before: Seq<u8>, after: Seq<u8>, lo: int, hi: int, v: bool) -> bool {
    &&& after.len() == before.len()
    &&& forall|g: int|
        0 <= g < 8 * before.len() ==> #[trigger] bit(after[g / 8], (g % 8) as u8) == if lo <= g < hi {
            v
        } else {
            bit(before[g / 8], (g % 8) as u8)
        }
}

/// Setting a clear bit and clearing it again gives the byte back.
pub proof fn lemma_set_clear_bit(b: u8, j: u8)
    requires
        j < 8,
        !bit(b, j),
    ensures
        with_bit(with_bit(b, j, true), j, false) == b,
{
    assert((b >> j) & 1u8 != 1u8 ==> ((((b & !(1u8 << j)) | (1u8 << j)) & !(1u8 << j)) | (0u8 << j)) == b)
        by (bit_vector)
        requires
            j < 8,
    ;
}

/// Bytes with the same eight bits are the same byte.
proof fn lemma_bits_determine(x: u8, y: u8)
    requires
        bit(x, 0) == bit(y, 0),
        bit(x, 1) == bit(y, 1),
        bit(x, 2) == bit(y, 2),
        bit(x, 3) == bit(y, 3),
        bit(x, 4) == bit(y, 4),
        bit(x, 5) == bit(y, 5),
        bit(x, 6) == bit(y, 6),
        bit(x, 7) == bit(y, 7),
    ensures
        x == y,
{
    assert(((x >> 0u8) & 1u8 == 1u8) == ((y >> 0u8) & 1u8 == 1u8) && ((x >> 1u8) & 1u8 == 1u8) == ((y
        >> 1u8) & 1u8 == 1u8) && ((x >> 2u8) & 1u8 == 1u8) == ((y >> 2u8) & 1u8 == 1u8) && ((x >> 3u8)
        & 1u8 == 1u8) == ((y >> 3u8) & 1u8 == 1u8) && ((x >> 4u8) & 1u8 == 1u8) == ((y >> 4u8) & 1u8
        == 1u8) && ((x >> 5u8) & 1u8 == 1u8) == ((y >> 5u8) & 1u8 == 1u8) && ((x >> 6u8) & 1u8 == 1u8)
        == ((y >> 6u8) & 1u8 == 1u8) && ((x >> 7u8) & 1u8 == 1u8) == ((y >> 7u8) & 1u8 == 1u8) ==> x
        == y) by (bit_vector);
}

/// Bitmaps whose frames agree are equal.
pub proof fn lemma_frames_determine(a: Seq<u8>, b: Seq<u8>)
    requires
        a.len() == b.len(),
        forall|g: int| 0 <= g < 8 * a.len() ==> #[trigger] bit(a[g / 8], (g % 8) as u8) == bit(b[g / 8], (g % 8) as u8),
    ensures
        a == b,
{
    assert forall|k: int| 0 <= k < a.len() implies a[k] == b[k] by {
        assert(bit(a[(8 * k + 0) / 8], ((8 * k + 0) % 8) as u8) == bit(b[(8 * k + 0) / 8], ((8 * k + 0) % 8) as u8));
        assert(bit(a[(8 * k + 1) / 8], ((8 * k + 1) % 8) as u8) == bit(b[(8 * k + 1) / 8], ((8 * k + 1) % 8) as u8));
        assert(bit(a[(8 * k + 2) / 8], ((8 * k + 2) % 8) as u8) == bit(b[(8 * k + 2) / 8], ((8 * k + 2) % 8) as u8));
        assert(bit(a[(8 * k + 3) / 8], ((8 * k + 3) % 8) as u8) == bit(b[(8 * k + 3) / 8], ((8 * k + 3) % 8) as u8));
        assert(bit(a[(8 * k + 4) / 8], ((8 * k + 4) % 8) as u8) == bit(b[(8 * k + 4) / 8], ((8 * k + 4) % 8) as u8));
        assert(bit(a[(8 * k + 5) / 8], ((8 * k + 5) % 8) as u8) == bit(b[(8 * k + 5) / 8], ((8 * k + 5) % 8) as u8));
        assert(bit(a[(8 * k + 6) / 8], ((8 * k + 6) % 8) as u8) == bit(b[(8 * k + 6) / 8], ((8 * k + 6) % 8) as u8));
        assert(bit(a[(8 * k + 7) / 8], ((8 * k + 7) % 8) as u8) == bit(b[(8 * k + 7) / 8], ((8 * k + 7) % 8) as u8));
        lemma_bits_determine(a[k], b[k]);
    }
    assert(a =~= b);
}

/// The frame allocator: one bit per frame, set when the frame is in use.
pub struct BitmapMemoryManager {
    pub bitmap: Vec<u8>,
    pub bitmap_phys_addr: Option<u64>,
    pub total_frame_len: usize,
    pub allocated_frame_len: usize,
    pub free_frame_len: usize,
    pub allocated_frame_len_in_available_mem: usize,
    pub total_available_mem_size: usize,
}

impl BitmapMemoryManager {
    /// The bitmap covers whole bytes of frames; the counts agree with it.
    pub open spec fn wf(&self) -> bool {
        &&& self.bitmap@.len() == self.total_frame_len / 8
        &&& self.free_frame_len == zeros(self.bitmap@)
        &&& self.allocated_frame_len + self.free_frame_len == self.total_frame_len
        &&& self.allocated_frame_len_in_available_mem + self.free_frame_len == self.total_available_mem_size
            / 4096
        &&& self.total_frame_len <= usize::MAX / 4096
    }

    pub open spec fn is_allocated(&self, frame_index: int) -> bool {
        bit(self.bitmap@[frame_index / 8], (frame_index % 8) as u8)
    }

    pub fn new() -> (res: Self)
        ensures
            res.wf(),
            res.bitmap_phys_addr is None,
            res.total_frame_len == 0,
            res.bitmap@.len() == 0,
            res.allocated_frame_len == 0,
            res.free_frame_len == 0,
            res.allocated_frame_len_in_available_mem == 0,
            res.total_available_mem_size == 0,
    {
        BitmapMemoryManager {
            bitmap: Vec::new(),
            bitmap_phys_addr: None,
            total_frame_len: 0,
            allocated_frame_len: 0,
            free_frame_len: 0,
            allocated_frame_len_in_available_mem: 0,
            total_available_mem_size: 0,
        }
    }

    /// Sizes the allocator from the firmware's memory map: every frame up to
    /// the highest region end, all marked used, with the bitmap placed in
    /// the first usable region that can hold it.
    pub fn init(&mut self, mem_map: &[MemoryDescriptor]) -> (res: Result<(), Error>)
        requires
            mem_map@.len() > 0,
            map_fits(mem_map@),
            4096 * counted_pages(mem_map@, 0) <= usize::MAX,
            bitmap_area(mem_map@, frame_count(mem_map@), 0) is Some,
        ensures
            res is Ok,
            final(self).wf(),
            final(self).total_frame_len == frame_count(mem_map@),
            final(self).bitmap@ == Seq::new((frame_count(mem_map@) / 8) as nat, |i: int| 0xffu8),
            final(self).bitmap_phys_addr == Some(
                mem_map@[bitmap_area(mem_map@, frame_count(mem_map@), 0).unwrap()].phys_start,
            ),
            final(self).total_available_mem_size == 4096 * counted_pages(mem_map@, 0),
            final(self).allocated_frame_len == frame_count(mem_map@),
            final(self).free_frame_len == 0,
            final(self).allocated_frame_len_in_available_mem == counted_pages(mem_map@, 0),
    {
        let ghost m = mem_map@;
        let mut max_phys_addr: u64 = 0;
        let mut k: usize = mem_map.len();
        while k > 0
            invariant
                k <= m.len(),
                m == mem_map@,
                map_fits(m),
                max_phys_addr == max_end(m, k as int),
            decreases k,
        {
            k = k - 1;
            let d = mem_map[k];
            proof {
                assert(desc_end(m[k as int]) + 4096 <= usize::MAX);
            }
            let end = d.phys_start + d.page_cnt * PAGE_SIZE as u64;
            if end > max_phys_addr {
                max_phys_addr = end;
            }
        }
        proof {
            lemma_max_end_fits(m, 0);
        }
        let n = (max_phys_addr as usize + PAGE_SIZE) / PAGE_SIZE;
        let total_frame_len = if n < 1 {
            1
        } else {
            n
        };

        let mut area: Option<u64> = None;
        let mut k: usize = 0;
        while k < mem_map.len() && area.is_none()
            invariant
                k <= m.len(),
                m == mem_map@,
                map_fits(m),
                total_frame_len == frame_count(m),
                area is None ==> bitmap_area(m, total_frame_len as int, 0) == bitmap_area(
                    m,
                    total_frame_len as int,
                    k as int,
                ),
                area matches Some(a) ==> bitmap_area(m, total_frame_len as int, 0) matches Some(j) && a
                    == m[j].phys_start,
            decreases m.len() - k, if area is None { 1int } else { 0int },
        {
            let d = mem_map[k];
            proof {
                assert(desc_end(m[k as int]) + 4096 <= usize::MAX);
            }
            if d.available && d.phys_start != 0 && d.phys_start % PAGE_SIZE as u64 == 0 && (d.page_cnt as usize)
                * PAGE_SIZE >= total_frame_len / Bitmap::BITMAP_SIZE {
                area = Some(d.phys_start);
            } else {
                k = k + 1;
            }
        }
        let bitmap_phys_addr = match area {
            Some(a) => a,
            None => {
                proof {
                    assert(false);
                }
                0
            },
        };

        let mut total_available_mem_size: usize = 0;
        let mut k: usize = 0;
        while k < mem_map.len()
            invariant
                k <= m.len(),
                m == mem_map@,
                map_fits(m),
                4096 * counted_pages(m, 0) <= usize::MAX,
                total_available_mem_size + 4096 * counted_pages(m, k as int) == 4096 * counted_pages(m, 0),
            decreases m.len() - k,
        {
            let d = mem_map[k];
            proof {
                assert(desc_end(m[k as int]) + 4096 <= usize::MAX);
            }
            if d.available && d.phys_start != 0 && d.phys_start % PAGE_SIZE as u64 == 0 {
                total_available_mem_size = total_available_mem_size + d.page_cnt as usize * PAGE_SIZE;
            }
            k = k + 1;
        }

        let len = total_frame_len / Bitmap::BITMAP_SIZE;
        let mut bitmap: Vec<u8> = Vec::new();
        while bitmap.len() < len
            invariant
                bitmap.len() <= len,
                bitmap@ == Seq::new(bitmap@.len(), |i: int| 0xffu8),
            decreases len - bitmap.len(),
        {
            bitmap.push(0xff);
            assert(bitmap@ =~= Seq::new(bitmap@.len(), |i: int| 0xffu8));
        }
        proof {
            lemma_zeros_full(len as nat);
        }
        self.bitmap = bitmap;
        self.bitmap_phys_addr = Some(bitmap_phys_addr);
        self.total_frame_len = total_frame_len;
        self.allocated_frame_len = total_frame_len;
        self.free_frame_len = 0;
        self.allocated_frame_len_in_available_mem = total_available_mem_size / PAGE_SIZE;
        self.total_available_mem_size = total_available_mem_size;
        Ok(())
    }

    /// Builds the bitmap from the memory map: every frame marked used, then
    /// the frames of each usable region freed in order (stopping at the first
    /// frame past the bitmap or freed twice), then the frames that the bitmap
    /// itself occupies marked used again.
    pub fn init2(&mut self, mem_map: &[MemoryDescriptor]) -> (res: Result<(), Error>)
        requires
            old(self).wf(),
            map_fits(mem_map@),
            old(self).total_available_mem_size == 4096 * counted_pages(mem_map@, 0),
            old(self).bitmap_phys_addr matches Some(a) ==> a + old(self).total_frame_len / 8 < usize::MAX,
        ensures
            final(self).wf(),
            final(self).total_frame_len == old(self).total_frame_len,
            final(self).total_available_mem_size == old(self).total_available_mem_size,
            final(self).bitmap_phys_addr == old(self).bitmap_phys_addr,
            ({
                let full = Seq::new(old(self).bitmap@.len(), |i: int| 0xffu8);
                let (bm, err) = released(mem_map@, 0, full);
                match err {
                    Some(e) => res == Err::<(), Error>(e) && final(self).bitmap@ == bm,
                    None => match old(self).bitmap_phys_addr {
                        None => res == Err::<(), Error>(Error::NotInitialized) && final(self).bitmap@ == bm,
                        Some(a) => res is Ok && final(self).bitmap@ == marked(
                            bm,
                            (a / 4096) as int,
                            (a + old(self).total_frame_len / 8) / 4096 + 1,
                        ),
                    },
                }
            }),
    {
        let ghost m = mem_map@;
        let ghost full = Seq::new(self.bitmap@.len(), |i: int| 0xffu8);
        let mut i: usize = 0;
        while i < self.bitmap.len()
            invariant
                i <= self.bitmap@.len(),
                self.bitmap@.len() == old(self).bitmap@.len(),
                forall|j: int| 0 <= j < i ==> self.bitmap@[j] == 0xffu8,
                old(self).wf(),
                self.total_frame_len == old(self).total_frame_len,
                self.total_available_mem_size == old(self).total_available_mem_size,
                self.bitmap_phys_addr == old(self).bitmap_phys_addr,
            decreases self.bitmap@.len() - i,
        {
            let mut b = Bitmap(self.bitmap[i]);
            b.fill(true);
            self.bitmap.set(i, b.0);
            i = i + 1;
        }
        proof {
            assert(self.bitmap@ =~= full);
            lemma_zeros_full(full.len());
        }
        self.allocated_frame_len = self.total_frame_len;
        self.free_frame_len = 0;
        self.allocated_frame_len_in_available_mem = self.total_available_mem_size / PAGE_SIZE;

        let mut failure: Option<Error> = None;
        let mut k: usize = 0;
        while k < mem_map.len() && failure.is_none()
            invariant
                k <= m.len(),
                m == mem_map@,
                map_fits(m),
                self.wf(),
                self.total_frame_len == old(self).total_frame_len,
                self.total_available_mem_size == old(self).total_available_mem_size,
                self.bitmap_phys_addr == old(self).bitmap_phys_addr,
                full.len() == self.bitmap@.len(),
                failure is None ==> released(m, 0, full) == released(m, k as int, self.bitmap@),
                failure is None ==> self.allocated_frame_len_in_available_mem == counted_pages(m, k as int),
                failure matches Some(e) ==> released(m, 0, full) == (self.bitmap@, Some(e)),
            decreases m.len() - k, if failure is None { 1int } else { 0int },
        {
            let d = mem_map[k];
            proof {
                assert(desc_end(m[k as int]) + 4096 <= usize::MAX);
            }
            if d.available && d.phys_start != 0 && d.phys_start % PAGE_SIZE as u64 == 0 {
                let lo = (d.phys_start / PAGE_SIZE as u64) as usize;
                let ghost hi = lo + d.page_cnt;
                let ghost start = self.bitmap@;
                let mut j: u64 = 0;
                while j < d.page_cnt && failure.is_none()
                    invariant
                        j <= d.page_cnt,
                        k < m.len(),
                        m == mem_map@,
                        d == m[k as int],
                        counted(d),
                        (lo as int, hi) == region_frames(d),
                        hi + 4096 <= usize::MAX,
                        self.wf(),
                        self.total_frame_len == old(self).total_frame_len,
                        self.total_available_mem_size == old(self).total_available_mem_size,
                        self.bitmap_phys_addr == old(self).bitmap_phys_addr,
                        start.len() == self.bitmap@.len(),
                        failure is None ==> self.bitmap@ == cleared(start, lo as int, lo + j),
                        failure is None ==> first_bad(start, lo as int, hi) == first_bad(start, lo + j, hi),
                        failure is None ==> self.allocated_frame_len_in_available_mem + j == counted_pages(m, k as int),
                        failure matches Some(e) ==> first_bad(start, lo as int, hi) == Some(lo + j) && e == free_error(start, lo + j)
                            && self.bitmap@ == cleared(start, lo as int, lo + j),
                    decreases d.page_cnt - j, if failure is None { 1int } else { 0int },
                {
                    let f = lo + j as usize;
                    proof {
                        assert(counted_pages(m, k as int) == d.page_cnt + counted_pages(m, k + 1));
                        lemma_cleared(start, lo as int, f as int);
                        assert(f / 8 < self.bitmap@.len() ==> bit(self.bitmap@[f as int / 8], (f as int % 8) as u8)
                            == bit(start[f as int / 8], (f as int % 8) as u8));
                    }
                    match self.dealloc_frame(f) {
                        Ok(()) => {
                            j = j + 1;
                        },
                        Err(e) => {
                            failure = Some(e);
                        },
                    }
                }
            }
            if failure.is_none() {
                k = k + 1;
            }
        }
        match failure {
            Some(e) => return Err(e),
            None => {},
        }
        let bitmap_phys_addr = match self.bitmap_phys_addr {
            Some(a) => a,
            None => return Err(Error::NotInitialized),
        };
        let start = bitmap_phys_addr as usize / PAGE_SIZE;
        let end = (bitmap_phys_addr as usize + self.bitmap_len()) / PAGE_SIZE;
        let ghost bm = self.bitmap@;
        let mut i: usize = start;
        while i <= end
            invariant
                start <= i <= end + 1,
                end < usize::MAX,
                self.wf(),
                self.total_frame_len == old(self).total_frame_len,
                self.total_available_mem_size == old(self).total_available_mem_size,
                self.bitmap_phys_addr == old(self).bitmap_phys_addr,
                self.bitmap@ == marked(bm, start as int, i as int),
            decreases end + 1 - i,
        {
            let _ = self.alloc_frame(i);
            i = i + 1;
        }
        Ok(())
    }

    pub fn bitmap_len(&self) -> (res: usize)
        ensures
            res == self.total_frame_len / 8,
    {
        self.total_frame_len / 8
    }

    /// The first free frame at or after `start`.
    pub fn find_free_from(&self, start: usize) -> (res: Option<usize>)
        requires
            self.wf(),
        ensures
            match first_free_from(self.bitmap@, start as int) {
                Some(f) => res == Some(f as usize),
                None => res is None,
            },
    {
        let n = self.bitmap.len() * 8;
        let mut f: usize = start;
        while f < n
            invariant
                n == 8 * self.bitmap@.len(),
                self.wf(),
                start <= f,
                first_free_from(self.bitmap@, start as int) == first_free_from(self.bitmap@, f as int),
            decreases n - f,
        {
            let byte = self.bitmap[f / 8];
            if byte == 0xff {
                let next = (f / 8 + 1) * 8;
                proof {
                    lemma_full_and_empty(byte);
                    lemma_skip_full(self.bitmap@, f as int, next as int);
                }
                f = next;
            } else {
                let b = Bitmap(byte);
                let used = match b.get(f % 8) {
                    Ok(v) => v,
                    Err(_) => true,
                };
                if !used {
                    return Some(f);
                }
                f = f + 1;
            }
        }
        None
    }

    /// Allocates the first free frame other than frame 0.
    pub fn alloc_single_mem_frame(&mut self) -> (res: Result<MemoryFrameInfo, Error>)
        requires
            old(self).wf(),
            old(self).free_frame_len > 0 ==> first_free_from(old(self).bitmap@, 1) is Some,
        ensures
            final(self).wf(),
            final(self).total_frame_len == old(self).total_frame_len,
            final(self).total_available_mem_size == old(self).total_available_mem_size,
            final(self).bitmap_phys_addr == old(self).bitmap_phys_addr,
            old(self).free_frame_len == 0 ==> res == Err::<MemoryFrameInfo, Error>(
                Error::BitmapMemoryManager(BitmapMemoryManagerError::FreeMemoryFrameWasNotFoundError),
            ) && *final(self) == *old(self),
            old(self).free_frame_len > 0 ==> ({
                let f = first_free_from(old(self).bitmap@, 1).unwrap();
                &&& res == Ok::<MemoryFrameInfo, Error>(frame_info(f, 1))
                &&& final(self).bitmap@ == old(self).bitmap@.update(
                    f / 8,
                    with_bit(old(self).bitmap@[f / 8], (f % 8) as u8, true),
                )
            }),
    {
        if self.free_frame_len == 0 {
            return Err(
                Error::BitmapMemoryManager(BitmapMemoryManagerError::FreeMemoryFrameWasNotFoundError),
            );
        }
        let found = match self.find_free_from(1) {
            Some(f) => f,
            None => {
                proof {
                    assert(false);
                }
                return Err(
                    Error::BitmapMemoryManager(BitmapMemoryManagerError::FreeMemoryFrameWasNotFoundError),
                );
            },
        };
        proof {
            lemma_first_free(self.bitmap@, 1);
            assert(found < 8 * self.bitmap@.len());
            assert(8 * self.bitmap@.len() <= self.total_frame_len);
        }
        match self.alloc_frame(found) {
            Ok(()) => {},
            Err(e) => {
                proof {
                    assert(false);
                }
                return Err(e);
            },
        }
        Ok(MemoryFrameInfo {
            frame_start_phys_addr: (found * PAGE_SIZE) as u64,
            frame_size: PAGE_SIZE,
            frame_index: found,
            is_allocated: true,
        })
    }

    /// The run that the search for `len` frames settles on.
    fn scan_run(&self, len: usize) -> (res: (Option<usize>, Option<usize>))
        requires
            self.wf(),
            len <= self.total_frame_len,
        ensures
            (opt_int(res.0), opt_int(res.1)) == multi_scan(self.bitmap@, len as int, 0, None, None),
            res.1 is Some ==> res.0 is Some,
            res.0 matches Some(s) ==> (res.1 matches Some(e) ==> s <= e && run_free(self.bitmap@, s as int, e as int)),
    {
        let n = self.bitmap.len() * 8;
        let mut f: usize = 0;
        let mut start: Option<usize> = None;
        let mut end: Option<usize> = None;
        let mut stop = false;
        while f < n && !stop
            invariant
                n == 8 * self.bitmap@.len(),
                self.wf(),
                len <= self.total_frame_len,
                f <= n,
                stop ==> (opt_int(start), opt_int(end)) == multi_scan(self.bitmap@, len as int, 0, None, None),
                !stop ==> multi_scan(self.bitmap@, len as int, 0, None, None) == multi_scan(
                    self.bitmap@,
                    len as int,
                    f as int,
                    opt_int(start),
                    opt_int(end),
                ),
                end is Some ==> start is Some,
                start matches Some(s) ==> (end matches Some(e) ==> s <= e && run_free(self.bitmap@, s as int, e as int)),
                start matches Some(s) ==> (end is None ==> run_free(self.bitmap@, s as int, s as int)),
                !stop ==> (start matches Some(s) ==> (end matches Some(e) ==> e + 1 == f) && (end is None
                    ==> s + 1 == f)),
            decreases n - f, if stop { 0int } else { 1int },
        {
            if f % 8 == 0 && len == 8 && self.bitmap[f / 8] == 0 {
                proof {
                    lemma_full_and_empty(0);
                    assert(8 * self.bitmap@.len() <= self.total_frame_len);
                    assert forall|g: int| f <= g <= f + 7 implies 0 <= g < 8 * self.bitmap@.len() && !#[trigger] bit(
                        self.bitmap@[g / 8],
                        (g % 8) as u8,
                    ) by {
                        assert(g / 8 == f / 8);
                    }
                }
                start = Some(f);
                end = Some(f + 7);
                stop = true;
            } else if start.is_some() && end.is_some() && end.unwrap() == start.unwrap() + len {
                stop = true;
            } else {
                let byte = self.bitmap[f / 8];
                let used = match Bitmap(byte).get(f % 8) {
                    Ok(v) => v,
                    Err(_) => true,
                };
                if !used {
                    match start {
                        Some(s) => {
                            end = Some(
                                match end {
                                    Some(e) => e + 1,
                                    None => s + 1,
                                },
                            );
                        },
                        None => {
                            start = Some(f);
                        },
                    }
                } else {
                    start = None;
                    end = None;
                }
                f = f + 1;
            }
        }
        (start, end)
    }

    /// Allocates `len` frames: one frame as `alloc_single_mem_frame` does;
    /// more from the run the search settles on, all of whose frames become
    /// used.
    pub fn alloc_multi_mem_frame(&mut self, len: usize) -> (res: Result<MemoryFrameInfo, Error>)
        requires
            old(self).wf(),
            len == 1 && old(self).free_frame_len > 0 ==> first_free_from(old(self).bitmap@, 1) is Some,
        ensures
            final(self).wf(),
            final(self).total_frame_len == old(self).total_frame_len,
            final(self).total_available_mem_size == old(self).total_available_mem_size,
            final(self).bitmap_phys_addr == old(self).bitmap_phys_addr,
            len == 0 ==> res == Err::<MemoryFrameInfo, Error>(
                Error::BitmapMemoryManager(BitmapMemoryManagerError::InvalidMemoryFrameLengthError(0)),
            ) && *final(self) == *old(self),
            len == 1 && old(self).free_frame_len == 0 ==> res == Err::<MemoryFrameInfo, Error>(
                Error::BitmapMemoryManager(BitmapMemoryManagerError::FreeMemoryFrameWasNotFoundError),
            ) && *final(self) == *old(self),
            len == 1 && old(self).free_frame_len > 0 ==> ({
                let f = first_free_from(old(self).bitmap@, 1).unwrap();
                &&& res == Ok::<MemoryFrameInfo, Error>(frame_info(f, 1))
                &&& frames_set(old(self).bitmap@, final(self).bitmap@, f, f + 1, true)
            }),
            len > 1 && len > old(self).free_frame_len ==> res == Err::<MemoryFrameInfo, Error>(
                Error::BitmapMemoryManager(BitmapMemoryManagerError::FreeMemoryFrameWasNotFoundError),
            ) && *final(self) == *old(self),
            len > 1 && len <= old(self).free_frame_len ==> match multi_scan(
                old(self).bitmap@,
                len as int,
                0,
                None,
                None,
            ) {
                (Some(s), Some(e)) => res == Ok::<MemoryFrameInfo, Error>(frame_info(s, len as int))
                    && frames_set(old(self).bitmap@, final(self).bitmap@, s, e + 1, true),
                _ => res == Err::<MemoryFrameInfo, Error>(
                    Error::BitmapMemoryManager(BitmapMemoryManagerError::FreeMemoryFrameWasNotFoundError),
                ) && *final(self) == *old(self),
            },
    {
        if len == 0 {
            return Err(
                Error::BitmapMemoryManager(BitmapMemoryManagerError::InvalidMemoryFrameLengthError(len)),
            );
        }
        if len == 1 {
            let r = self.alloc_single_mem_frame();
            proof {
                if old(self).free_frame_len > 0 {
                    let f = first_free_from(old(self).bitmap@, 1).unwrap();
                    lemma_first_free(old(self).bitmap@, 1);
                    lemma_frame_bits(old(self).bitmap@, f, true);
                }
            }
            return r;
        }
        if len > self.free_frame_len {
            return Err(
                Error::BitmapMemoryManager(BitmapMemoryManagerError::FreeMemoryFrameWasNotFoundError),
            );
        }
        proof {
            lemma_zeros_bound(self.bitmap@);
        }
        let (start, end) = self.scan_run(len);
        let s = match start {
            Some(s) => s,
            None => {
                return Err(
                    Error::BitmapMemoryManager(BitmapMemoryManagerError::FreeMemoryFrameWasNotFoundError),
                )
            },
        };
        let e = match end {
            Some(e) => e,
            None => {
                return Err(
                    Error::BitmapMemoryManager(BitmapMemoryManagerError::FreeMemoryFrameWasNotFoundError),
                )
            },
        };
        let ghost orig = self.bitmap@;
        proof {
            assert(!bit(orig[e as int / 8], (e as int % 8) as u8));
        }
        let mut i: usize = s;
        while i <= e
            invariant
                s <= i <= e + 1,
                e < 8 * orig.len(),
                self.wf(),
                run_free(orig, s as int, e as int),
                frames_set(orig, self.bitmap@, s as int, i as int, true),
                self.total_frame_len == old(self).total_frame_len,
                self.total_available_mem_size == old(self).total_available_mem_size,
                self.bitmap_phys_addr == old(self).bitmap_phys_addr,
            decreases e + 1 - i,
        {
            proof {
                assert(!bit(orig[i as int / 8], (i as int % 8) as u8));
                assert(!bit(self.bitmap@[i as int / 8], (i as int % 8) as u8));
                lemma_frame_bits(self.bitmap@, i as int, true);
            }
            match self.alloc_frame(i) {
                Ok(()) => {},
                Err(err) => {
                    proof {
                        assert(false);
                    }
                    return Err(err);
                },
            }
            i = i + 1;
        }
        proof {
            assert(8 * orig.len() <= self.total_frame_len);
            lemma_zeros_bound(orig);
        }
        Ok(MemoryFrameInfo {
            frame_start_phys_addr: (s * PAGE_SIZE) as u64,
            frame_size: PAGE_SIZE * len,
            frame_index: s,
            is_allocated: true,
        })
    }

    /// Frees the frames of a run, stopping at the first frame that is past
    /// the bitmap or already free.
    pub fn dealloc_mem_frame(&mut self, info: MemoryFrameInfo) -> (res: Result<(), Error>)
        requires
            old(self).wf(),
            info.frame_index + info.frame_size / 4096 <= usize::MAX,
            old(self).allocated_frame_len_in_available_mem >= info.frame_size / 4096,
        ensures
            final(self).wf(),
            final(self).total_frame_len == old(self).total_frame_len,
            final(self).total_available_mem_size == old(self).total_available_mem_size,
            final(self).bitmap_phys_addr == old(self).bitmap_phys_addr,
            ({
                let lo = info.frame_index as int;
                let hi = info.frame_index + info.frame_size / 4096;
                match first_bad(old(self).bitmap@, lo, hi) {
                    None => res is Ok && frames_set(old(self).bitmap@, final(self).bitmap@, lo, hi, false),
                    Some(b) => frames_set(old(self).bitmap@, final(self).bitmap@, lo, b, false) && if b / 8
                        >= old(self).bitmap@.len() {
                        res == Err::<(), Error>(Error::IndexOutOfBoundsError((b / 8) as usize))
                    } else {
                        res == Err::<(), Error>(
                            Error::BitmapMemoryManager(
                                BitmapMemoryManagerError::MemoryFrameWasAlreadyDeallocatedError(b as usize),
                            ),
                        )
                    },
                }
            }),
    {
        let lo = info.frame_index;
        let hi = info.frame_index + info.frame_size / PAGE_SIZE;
        let ghost orig = self.bitmap@;
        let mut i: usize = lo;
        let mut failure: Option<Error> = None;
        while i < hi && failure.is_none()
            invariant
                lo <= i <= hi,
                self.wf(),
                orig == old(self).bitmap@,
                self.allocated_frame_len_in_available_mem >= hi - i,
                first_bad(orig, lo as int, hi as int) == first_bad(orig, i as int, hi as int),
                frames_set(orig, self.bitmap@, lo as int, i as int, false),
                self.total_frame_len == old(self).total_frame_len,
                self.total_available_mem_size == old(self).total_available_mem_size,
                self.bitmap_phys_addr == old(self).bitmap_phys_addr,
                failure matches Some(e) ==> i < hi && first_bad(orig, i as int, hi as int) == Some(i as int) && if i
                    / 8 >= orig.len() {
                    e == Error::IndexOutOfBoundsError(i / 8)
                } else {
                    e == Error::BitmapMemoryManager(
                        BitmapMemoryManagerError::MemoryFrameWasAlreadyDeallocatedError(i),
                    )
                },
            decreases hi - i, if failure is None { 1int } else { 0int },
        {
            proof {
                if i / 8 < self.bitmap@.len() {
                    lemma_frame_bits(self.bitmap@, i as int, false);
                    assert(bit(self.bitmap@[i as int / 8], (i as int % 8) as u8) == bit(orig[i as int / 8], (i as int % 8) as u8));
                }
            }
            match self.dealloc_frame(i) {
                Ok(()) => {
                    i = i + 1;
                },
                Err(e) => {
                    failure = Some(e);
                },
            }
        }
        match failure {
            Some(e) => Err(e),
            None => Ok(()),
        }
    }

    /// The state of one frame, if the bitmap covers it.
    pub fn get_mem_frame(&self, frame_index: usize) -> (res: Option<MemoryFrameInfo>)
        requires
            self.wf(),
        ensures
            frame_index / 8 >= self.bitmap@.len() ==> res is None,
            frame_index / 8 < self.bitmap@.len() ==> res == Some(
                MemoryFrameInfo {
                    frame_start_phys_addr: (frame_index * 4096) as u64,
                    frame_size: PAGE_SIZE,
                    frame_index,
                    is_allocated: self.is_allocated(frame_index as int),
                },
            ),
    {
        let offset = frame_index / 8;
        if offset >= self.bitmap.len() {
            return None;
        }
        proof {
            assert(8 * self.bitmap@.len() <= self.total_frame_len);
        }
        let b = Bitmap(self.bitmap[offset]);
        let allocated = match b.get(frame_index % 8) {
            Ok(v) => v,
            Err(_) => false,
        };
        Some(MemoryFrameInfo {
            frame_start_phys_addr: (frame_index * PAGE_SIZE) as u64,
            frame_size: PAGE_SIZE,
            frame_index,
            is_allocated: allocated,
        })
    }

    /// The size of all memory the bitmap covers, in bytes.
    pub fn get_total_mem_size(&self) -> (res: usize)
        requires
            self.wf(),
        ensures
            res == self.total_frame_len * 4096,
    {
        self.total_frame_len * PAGE_SIZE
    }

    /// The bytes in use of the usable memory, and the usable memory's size.
    pub fn get_mem_size(&self) -> (res: (usize, usize))
        requires
            self.allocated_frame_len_in_available_mem <= usize::MAX / 4096,
        ensures
            res.0 == self.allocated_frame_len_in_available_mem * 4096,
            res.1 == self.total_available_mem_size,
    {
        (self.allocated_frame_len_in_available_mem * PAGE_SIZE, self.total_available_mem_size)
    }

    /// Marks a free frame as used.
    pub fn alloc_frame(&mut self, frame_index: usize) -> (res: Result<(), Error>)
        requires
            old(self).wf(),
        ensures
            final(self).wf(),
            final(self).bitmap_phys_addr == old(self).bitmap_phys_addr,
            final(self).total_frame_len == old(self).total_frame_len,
            final(self).total_available_mem_size == old(self).total_available_mem_size,
            frame_index / 8 >= old(self).bitmap@.len() ==> res == Err::<(), Error>(
                Error::IndexOutOfBoundsError(frame_index / 8),
            ) && final(self).bitmap@ == old(self).bitmap@,
            frame_index / 8 < old(self).bitmap@.len() && old(self).is_allocated(frame_index as int) ==> res
                == Err::<(), Error>(
                Error::BitmapMemoryManager(
                    BitmapMemoryManagerError::MemoryFrameWasAlreadyAllocatedError(frame_index),
                ),
            ) && final(self).bitmap@ == old(self).bitmap@,
            frame_index / 8 < old(self).bitmap@.len() && !old(self).is_allocated(frame_index as int) ==> res
                is Ok && final(self).bitmap@ == old(self).bitmap@.update(
                (frame_index / 8) as int,
                with_bit(old(self).bitmap@[(frame_index / 8) as int], (frame_index % 8) as u8, true),
            ),
            res is Err ==> *final(self) == *old(self),
    {
        let offset = frame_index / 8;
        let pos = frame_index % 8;
        if offset >= self.bitmap.len() {
            return Err(Error::IndexOutOfBoundsError(offset));
        }
        let mut b = Bitmap(self.bitmap[offset]);
        let was = match b.get(pos) {
            Ok(v) => v,
            Err(e) => return Err(e),
        };
        if was {
            return Err(
                Error::BitmapMemoryManager(
                    BitmapMemoryManagerError::MemoryFrameWasAlreadyAllocatedError(frame_index),
                ),
            );
        }
        let _ = b.set(pos, true);
        proof {
            lemma_flip(self.bitmap@, offset as int, pos as u8, true);
        }
        self.bitmap.set(offset, b.0);
        self.allocated_frame_len = self.allocated_frame_len + 1;
        self.free_frame_len = self.free_frame_len - 1;
        self.allocated_frame_len_in_available_mem = self.allocated_frame_len_in_available_mem + 1;
        Ok(())
    }

    /// Marks a used frame as free.
    pub fn dealloc_frame(&mut self, frame_index: usize) -> (res: Result<(), Error>)
        requires
            old(self).wf(),
            frame_index / 8 < old(self).bitmap@.len() && old(self).is_allocated(frame_index as int)
                ==> old(self).allocated_frame_len_in_available_mem > 0,
        ensures
            final(self).wf(),
            final(self).bitmap_phys_addr == old(self).bitmap_phys_addr,
            final(self).total_frame_len == old(self).total_frame_len,
            final(self).total_available_mem_size == old(self).total_available_mem_size,
            frame_index / 8 >= old(self).bitmap@.len() ==> res == Err::<(), Error>(
                Error::IndexOutOfBoundsError(frame_index / 8),
            ),
            frame_index / 8 < old(self).bitmap@.len() && !old(self).is_allocated(frame_index as int) ==> res
                == Err::<(), Error>(
                Error::BitmapMemoryManager(
                    BitmapMemoryManagerError::MemoryFrameWasAlreadyDeallocatedError(frame_index),
                ),
            ),
            frame_index / 8 < old(self).bitmap@.len() && old(self).is_allocated(frame_index as int) ==> res
                is Ok && final(self).bitmap@ == old(self).bitmap@.update(
                (frame_index / 8) as int,
                with_bit(old(self).bitmap@[(frame_index / 8) as int], (frame_index % 8) as u8, false),
            ) && final(self).allocated_frame_len_in_available_mem == old(
                self,
            ).allocated_frame_len_in_available_mem - 1,
            res is Err ==> *final(self) == *old(self),
    {
        let offset = frame_index / 8;
        let pos = frame_index % 8;
        if offset >= self.bitmap.len() {
            return Err(Error::IndexOutOfBoundsError(offset));
        }
        let mut b = Bitmap(self.bitmap[offset]);
        let was = match b.get(pos) {
            Ok(v) => v,
            Err(e) => return Err(e),
        };
        if !was {
            return Err(
                Error::BitmapMemoryManager(
                    BitmapMemoryManagerError::MemoryFrameWasAlreadyDeallocatedError(frame_index),
                ),
            );
        }
        let _ = b.set(pos, false);
        proof {
            lemma_flip(self.bitmap@, offset as int, pos as u8, false);
            assert(8 * self.bitmap@.len() <= self.total_frame_len);
        }
        self.bitmap.set(offset, b.0);
        self.allocated_frame_len = self.allocated_frame_len - 1;
        self.free_frame_len = self.free_frame_len + 1;
        self.allocated_frame_len_in_available_mem = self.allocated_frame_len_in_available_mem - 1;
        Ok(())
    }
}

/// Sets up the frame allocator from the firmware's memory map: sizes it,
/// places its bitmap, frees the frames of the usable regions and keeps the
/// bitmap's own frames in use.
pub fn init(bmm: &mut BitmapMemoryManager, mem_map: &[MemoryDescriptor]) -> (res: Result<(), Error>)
    requires
        mem_map@.len() > 0,
        map_fits(mem_map@),
        4096 * counted_pages(mem_map@, 0) <= usize::MAX,
        bitmap_area(mem_map@, frame_count(mem_map@), 0) is Some,
    ensures
        final(bmm).wf(),
        final(bmm).total_frame_len == frame_count(mem_map@),
        final(bmm).total_available_mem_size == 4096 * counted_pages(mem_map@, 0),
        ({
            let n = frame_count(mem_map@);
            let a = mem_map@[bitmap_area(mem_map@, n, 0).unwrap()].phys_start;
            let (bm, err) = released(mem_map@, 0, Seq::new((n / 8) as nat, |i: int| 0xffu8));
            &&& final(bmm).bitmap_phys_addr == Some(a)
            &&& match err {
                Some(e) => res == Err::<(), Error>(e) && final(bmm).bitmap@ == bm,
                None => res is Ok && final(bmm).bitmap@ == marked(bm, (a / 4096) as int, (a + n / 8) / 4096 + 1),
            }
        }),
{
    proof {
        lemma_bitmap_area(mem_map@, frame_count(mem_map@), 0);
        let j = bitmap_area(mem_map@, frame_count(mem_map@), 0).unwrap();
        assert(desc_end(mem_map@[j]) + 4096 <= usize::MAX);
    }
    match bmm.init(mem_map) {
        Ok(()) => {},
        Err(e) => return Err(e),
    }
    bmm.init2(mem_map)
}

/// Allocating a free frame and then freeing the run of that one frame gives
/// back the manager's bitmap and counts as they were: the free succeeds, since
/// the frame is then in use.
pub proof fn lemma_alloc_then_dealloc(
    m1: BitmapMemoryManager,
    m2: BitmapMemoryManager,
    m3: BitmapMemoryManager,
    f: int,
)
    requires
        m1.wf(),
        m2.wf(),
        m3.wf(),
        0 <= f < 8 * m1.bitmap@.len(),
        !m1.is_allocated(f),
        m2.bitmap@ == m1.bitmap@.update(f / 8, with_bit(m1.bitmap@[f / 8], (f % 8) as u8, true)),
        m2.total_frame_len == m1.total_frame_len,
        m2.total_available_mem_size == m1.total_available_mem_size,
        frames_set(m2.bitmap@, m3.bitmap@, f, f + 1, false),
        m3.total_frame_len == m2.total_frame_len,
        m3.total_available_mem_size == m2.total_available_mem_size,
    ensures
        first_bad(m2.bitmap@, f, f + 1) is None,
        m3.bitmap@ == m1.bitmap@,
        m3.free_frame_len == m1.free_frame_len,
        m3.allocated_frame_len == m1.allocated_frame_len,
        m3.allocated_frame_len_in_available_mem == m1.allocated_frame_len_in_available_mem,
{
    lemma_frame_bits(m1.bitmap@, f, true);
    assert(bit(m2.bitmap@[f / 8], (f % 8) as u8));
    assert(first_bad(m2.bitmap@, f + 1, f + 1) is None);
    assert forall|g: int| 0 <= g < 8 * m3.bitmap@.len() implies #[trigger] bit(m3.bitmap@[g / 8], (g % 8) as u8)
        == bit(m1.bitmap@[g / 8], (g % 8) as u8) by {
        assert(bit(m2.bitmap@[g / 8], (g % 8) as u8) == if g == f {
            true
        } else {
            bit(m1.bitmap@[g / 8], (g % 8) as u8)
        });
    }
    lemma_frames_determine(m3.bitmap@, m1.bitmap@);
}

} // verus!
