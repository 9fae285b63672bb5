use vstd::prelude::*;
use crate::error::Error;

verus! {

/// The size of a hole's record (its size and the link to the next hole): the
/// smallest block the heap hands out, and the room a hole needs.
pub const HOLE_SIZE: usize = 16;
/// The alignment of a hole's record.
pub const HOLE_ALIGN: usize = 8;

/// Whether `n` is a power of two.
pub open spec fn power_of_two(n: int) -> bool
    decreases n,
{
    if n <= 0 {
        false
    } else if n == 1 {
        true
    } else {
        n % 2 == 0 && power_of_two(n / 2)
    }
}

pub fn is_power_of_two(n: usize) -> (res: bool)
    ensures
        res == power_of_two(n as int),
{
    if n == 0 {
        return false;
    }
    let mut m = n;
    while m % 2 == 0 && m > 1
        invariant
            m > 0,
            power_of_two(m as int) == power_of_two(n as int),
        decreases m,
    {
        m = m / 2;
    }
    m == 1
}

/// A power of two is 1, 2, 4 or a multiple of 8.
proof fn lemma_power_of_two_small(a: int)
    requires
        power_of_two(a),
    ensures
        a == 1 || a == 2 || a == 4 || a % 8 == 0,
    decreases a,
{
    if a > 1 {
        lemma_power_of_two_small(a / 2);
    }
}

/// `a` rounded up to a multiple of `align`.
pub open spec fn align_up(a: int, align: int) -> int {
    if a % align == 0 {
        a
    } else {
        a + (align - a % align)
    }
}

proof fn lemma_align_up(a: int, align: int)
    requires
        align > 0,
        a >= 0,
    ensures
        a <= align_up(a, align) < a + align,
        align_up(a, align) % align == 0,
{
    let q = a / align;
    let r = a % align;
    vstd::arithmetic::div_mod::lemma_fundamental_div_mod(a, align);
    vstd::arithmetic::div_mod::lemma_mod_pos_bound(a, align);
    if r != 0 {
        assert(a + (align - r) == (q + 1) * align) by (nonlinear_arith)
            requires
                a == align * q + r,
        ;
        vstd::arithmetic::div_mod::lemma_mod_multiples_basic(q + 1, align);
    }
}

/// A multiple of 8 rounded up to a multiple of 8 is itself; any rounding up
/// to 8 or more lands on a multiple of 8 when the alignment is one.
proof fn lemma_align8(a: int, align: int)
    requires
        a >= 0,
        align >= 8,
        align % 8 == 0,
    ensures
        align_up(a, align) % 8 == 0,
{
    lemma_align_up(a, align);
    let r = align_up(a, align);
    let k = r / align;
    let m = align / 8;
    vstd::arithmetic::div_mod::lemma_fundamental_div_mod(r, align);
    vstd::arithmetic::div_mod::lemma_fundamental_div_mod(align, 8);
    assert(r == (m * k) * 8) by (nonlinear_arith)
        requires
            r == align * k,
            align == 8 * m,
    ;
    vstd::arithmetic::div_mod::lemma_mod_multiples_basic(m * k, 8);
}

/// How much memory is asked for, and at what alignment.
#[derive(Debug, Clone, Copy, PartialEq, Eq, Structural)]
pub struct Layout {
    pub size: usize,
    pub align: usize,
}

/// A valid layout: the alignment is a power of two, and the size rounded up
/// to it does not pass `isize::MAX`.
pub open spec fn layout_ok(size: int, align: int) -> bool {
    &&& power_of_two(align)
    &&& size + align - 1 <= isize::MAX
}

impl Layout {
    /// The layout of `size` bytes at alignment `align`, if valid.
    pub fn from_size_align(size: usize, align: usize) -> (res: Option<Layout>)
        ensures
            res == if layout_ok(size as int, align as int) {
                Some(Layout { size, align })
            } else {
                None::<Layout>
            },
    {
        if !is_power_of_two(align) {
            return None;
        }
        if (size as u128) + (align as u128) - 1 > isize::MAX as u128 {
            return None;
        }
        Some(Layout { size, align })
    }
}

/// Errors of the heap allocator.
#[derive(Debug, Clone, Copy, PartialEq, Eq, Structural)]
pub enum AllocationError {
    LayoutError(Layout),
}

/// A free region of the heap.
#[derive(Debug, Clone, Copy, PartialEq, Eq, Structural)]
pub struct HoleInfo {
    pub addr: usize,
    pub size: usize,
}

pub open spec fn hole_end(h: HoleInfo) -> int {
    h.addr + h.size
}

/// The block `[addr, addr + size)` and the hole `h` share no byte.
pub open spec fn apart(h: HoleInfo, addr: int, size: int) -> bool {
    hole_end(h) <= addr || addr + size <= h.addr
}

/// Holes in address order, apart from each other, inside `[bottom, top]`,
/// on 8-byte boundaries and at least 16 bytes large.
pub open spec fn holes_wf(hs: Seq<HoleInfo>, bottom: int, top: int) -> bool {
    &&& bottom % 8 == 0
    &&& top % 8 == 0
    &&& bottom <= top
    &&& forall|i: int|
        0 <= i < hs.len() ==> {
            &&& (#[trigger] hs[i]).addr % 8 == 0
            &&& hs[i].size % 8 == 0
            &&& hs[i].size >= 16
            &&& bottom <= hs[i].addr
            &&& hole_end(hs[i]) <= top
        }
    &&& forall|i: int, j: int| 0 <= i < j < hs.len() ==> hole_end(#[trigger] hs[i]) <= (#[trigger] hs[j]).addr
}

/// Cutting a block of `size` bytes aligned to `align` out of the hole `h`:
/// the block's address and the holes left around it. A hole not aligned
/// keeps at least a hole's room in front; the rest behind must have room
/// for a hole too.
pub open spec fn split_spec(h: HoleInfo, size: int, align: int) -> Option<(usize, Seq<HoleInfo>)> {
    if h.size < size {
        None
    } else {
        let aligned = if (h.addr as int) % align == 0 {
            h.addr as int
        } else {
            align_up(h.addr + 16, align)
        };
        let alloc_end = aligned + size;
        let end = hole_end(h);
        if alloc_end > end {
            None
        } else {
            let front = if (h.addr as int) % align == 0 {
                Seq::<HoleInfo>::empty()
            } else {
                seq![HoleInfo { addr: h.addr, size: (aligned - h.addr) as usize }]
            };
            if end == alloc_end {
                Some((aligned as usize, front))
            } else if align_up(alloc_end, 8) + 16 > end {
                None
            } else {
                Some(
                    (
                        aligned as usize,
                        front.push(
                            HoleInfo { addr: align_up(alloc_end, 8) as usize, size: (end - alloc_end) as usize },
                        ),
                    ),
                )
            }
        }
    }
}

fn align_up_wide(a: u128, align: u128) -> (res: u128)
    requires
        align > 0,
        a + align <= u128::MAX,
    ensures
        res == align_up(a as int, align as int),
{
    let r = a % align;
    if r == 0 {
        a
    } else {
        a + (align - r)
    }
}

/// Cuts a block out of a hole, as `split_spec` says.
fn split_hole(h: HoleInfo, size: usize, align: usize) -> (res: Option<(usize, Vec<HoleInfo>)>)
    requires
        align > 0,
    ensures
        match split_spec(h, size as int, align as int) {
            None => res is None,
            Some((a, pads)) => res matches Some((b, v)) && b == a && v@ == pads,
        },
{
    if h.size < size {
        return None;
    }
    let addr = h.addr as u128;
    let end = addr + h.size as u128;
    let al = align as u128;
    let has_front = addr % al != 0;
    let aligned: u128 = if has_front {
        align_up_wide(addr + 16, al)
    } else {
        addr
    };
    let alloc_end = aligned + size as u128;
    if alloc_end > end {
        return None;
    }
    let mut pads: Vec<HoleInfo> = Vec::new();
    if has_front {
        pads.push(HoleInfo { addr: h.addr, size: (aligned - addr) as usize });
    }
    if end != alloc_end {
        let back = align_up_wide(alloc_end, 8);
        if back + 16 > end {
            return None;
        }
        pads.push(HoleInfo { addr: back as usize, size: (end - alloc_end) as usize });
    }
    Some((aligned as usize, pads))
}

/// The first hole, from `i` on, that a block can be cut out of.
pub open spec fn first_fit(hs: Seq<HoleInfo>, size: int, align: int, i: int) -> Option<int>
    decreases hs.len() - i,
{
    if i < 0 || i >= hs.len() {
        None
    } else if split_spec(hs[i], size, align) is Some {
        Some(i)
    } else {
        first_fit(hs, size, align, i + 1)
    }
}

proof fn lemma_first_fit(hs: Seq<HoleInfo>, size: int, align: int, i: int)
    requires
        0 <= i,
    ensures
        first_fit(hs, size, align, i) matches Some(k) ==> i <= k < hs.len() && split_spec(hs[k], size, align) is Some,
    decreases hs.len() - i,
{
    if i < hs.len() && split_spec(hs[i], size, align) is None {
        lemma_first_fit(hs, size, align, i + 1);
    }
}

/// The layout actually taken for a request: at least a hole's room, and a
/// multiple of 8 bytes, at the requested alignment; none when that size is
/// no valid layout.
pub open spec fn padded_layout(layout: Layout) -> Option<Layout> {
    let size0 = if layout.size < 16 { 16 } else { layout.size as int };
    let size1 = (size0 + 7) - (size0 + 7) % 8;
    if layout_ok(size1, layout.align as int) {
        Some(Layout { size: size1 as usize, align: layout.align })
    } else {
        None
    }
}

/// `size` rounded down to a multiple of `align`; an alignment of 0 leaves it.
pub fn align_down_size(size: usize, align: usize) -> (res: usize)
    requires
        align == 0 || power_of_two(align as int),
    ensures
        res == if align == 0 { size as int } else { size - size % align },
{
    if align == 0 {
        size
    } else {
        assert(size % align <= size) by (nonlinear_arith)
            requires
                align > 0,
        ;
        size - size % align
    }
}

/// `size` rounded up to a multiple of `align`.
pub fn align_up_size(size: usize, align: usize) -> (res: usize)
    requires
        power_of_two(align as int),
        size + align - 1 <= usize::MAX,
    ensures
        res == (size + align - 1) - (size + align - 1) % (align as int),
{
    proof {
        lemma_power_of_two_positive(align as int);
    }
    align_down_size(size + (align - 1), align)
}

/// The layout a request takes, as `padded_layout` says.
fn align_layout(layout: Layout) -> (res: Result<Layout, Error>)
    requires
        layout_ok(layout.size as int, layout.align as int),
    ensures
        match padded_layout(layout) {
            Some(l) => res == Ok::<Layout, Error>(l),
            None => res == Err::<Layout, Error>(Error::Allocation(AllocationError::LayoutError(layout))),
        },
{
    let size0 = if layout.size < 16 {
        HOLE_SIZE
    } else {
        layout.size
    };
    assert(power_of_two(8)) by {
        reveal_with_fuel(power_of_two, 4);
    }
    let size1 = align_up_size(size0, HOLE_ALIGN);
    match Layout::from_size_align(size1, layout.align) {
        Some(l) => Ok(l),
        None => Err(Error::Allocation(AllocationError::LayoutError(layout))),
    }
}

proof fn lemma_round_down8(x: int)
    requires
        x >= 0,
    ensures
        (x - x % 8) % 8 == 0,
        0 <= x - x % 8 <= x,
{
}

proof fn lemma_power_of_two_positive(a: int)
    requires
        power_of_two(a),
    ensures
        a > 0,
{
}

/// The pieces cut from a hole: the block is aligned and inside the hole, and
/// the holes left are inside it, in order, apart from the block, on 8-byte
/// boundaries and at least a hole's room.
#[verifier::spinoff_prover]
#[verifier::rlimit(50)]
proof fn lemma_split_pieces(h: HoleInfo, size: int, align: int)
    requires
        h.addr % 8 == 0,
        h.size % 8 == 0,
        hole_end(h) <= usize::MAX,
        size >= 16,
        size % 8 == 0,
        power_of_two(align),
        split_spec(h, size, align) is Some,
    ensures
        ({
            let (a, pads) = split_spec(h, size, align).unwrap();
            &&& (a as int) % align == 0
            &&& h.addr <= a && a + size <= hole_end(h)
            &&& pads.len() <= 2
            &&& forall|j: int|
                0 <= j < pads.len() ==> {
                    &&& h.addr <= (#[trigger] pads[j]).addr
                    &&& hole_end(pads[j]) <= hole_end(h)
                    &&& pads[j].addr % 8 == 0
                    &&& pads[j].size % 8 == 0
                    &&& pads[j].size >= 16
                    &&& apart(pads[j], a as int, size)
                }
            &&& forall|x: int, y: int| 0 <= x < y < pads.len() ==> hole_end(#[trigger] pads[x]) <= (#[trigger] pads[y]).addr
        }),
{
    let (a, pads) = split_spec(h, size, align).unwrap();
    lemma_power_of_two_small(align);
    let front = (h.addr as int) % align != 0;
    let aligned: int = if front {
        align_up(h.addr + 16, align)
    } else {
        h.addr as int
    };
    assert(aligned + size <= hole_end(h));
    assert(a as int == aligned);
    if front {
        lemma_align_up(h.addr + 16, align);
        if align == 1 || align == 2 || align == 4 {
            assert((h.addr as int) % align == 0);
        } else {
            lemma_align8(h.addr + 16, align);
        }
    }
    assert(aligned % 8 == 0);
    let alloc_end = a + size;
    assert(alloc_end % 8 == 0);
    assert(align_up(alloc_end, 8) == alloc_end);
}

/// Putting sorted pieces of hole `i` in its place keeps the holes well
/// formed, and a block apart from the pieces and inside the hole is apart
/// from every hole.
#[verifier::spinoff_prover]
proof fn lemma_splice_wf(hs: Seq<HoleInfo>, bottom: int, top: int, i: int, pads: Seq<HoleInfo>, a: int, size: int)
    requires
        holes_wf(hs, bottom, top),
        0 <= i < hs.len(),
        hs[i].addr <= a,
        a + size <= hole_end(hs[i]),
        size > 0,
        forall|j: int|
            0 <= j < pads.len() ==> {
                &&& hs[i].addr <= (#[trigger] pads[j]).addr
                &&& hole_end(pads[j]) <= hole_end(hs[i])
                &&& pads[j].addr % 8 == 0
                &&& pads[j].size % 8 == 0
                &&& pads[j].size >= 16
                &&& apart(pads[j], a, size)
            },
        forall|x: int, y: int| 0 <= x < y < pads.len() ==> hole_end(#[trigger] pads[x]) <= (#[trigger] pads[y]).addr,
    ensures
        holes_wf(hs.take(i) + pads + hs.skip(i + 1), bottom, top),
        forall|j: int|
            0 <= j < (hs.take(i) + pads + hs.skip(i + 1)).len() ==> apart(
                #[trigger] (hs.take(i) + pads + hs.skip(i + 1))[j],
                a,
                size,
            ),
{
    let ns = hs.take(i) + pads + hs.skip(i + 1);
    let p = pads.len() as int;
    assert forall|j: int| 0 <= j < ns.len() implies {
        &&& (j < i ==> ns[j] == hs[j])
        &&& (i <= j < i + p ==> ns[j] == pads[j - i])
        &&& (i + p <= j ==> ns[j] == hs[j - p + 1])
    } by {}
    assert forall|j: int| 0 <= j < ns.len() implies {
        &&& (#[trigger] ns[j]).addr % 8 == 0
        &&& ns[j].size % 8 == 0
        &&& ns[j].size >= 16
        &&& bottom <= ns[j].addr
        &&& hole_end(ns[j]) <= top
        &&& apart(ns[j], a, size)
    } by {
        if j < i {
            assert(hole_end(hs[j]) <= hs[i].addr);
        } else if j < i + p {
        } else {
            assert(hole_end(hs[i]) <= hs[j - p + 1].addr);
        }
    }
    assert forall|x: int, y: int| 0 <= x < y < ns.len() implies hole_end(#[trigger] ns[x]) <= (#[trigger] ns[y]).addr by {
        if y < i {
        } else if x < i {
            assert(hole_end(hs[x]) <= hs[i].addr);
            if y >= i + p {
                assert(hole_end(hs[i]) <= hs[y - p + 1].addr);
            }
        } else if x < i + p {
            if y >= i + p {
                assert(hole_end(hs[i]) <= hs[y - p + 1].addr);
            }
        } else {
            assert(hole_end(hs[x - p + 1]) <= hs[y - p + 1].addr);
        }
    }
}

/// A hole that ends just short of the top, with no room for another hole
/// behind it, is stretched to the top.
pub open spec fn merge_top(h: HoleInfo, top: int) -> HoleInfo {
    let end = hole_end(h);
    if end < top && align_up(end, 8) + 16 > top {
        HoleInfo { addr: h.addr, size: (h.size + (top - end)) as usize }
    } else {
        h
    }
}

/// A hole that starts less than a hole's room above the bottom is stretched
/// down to the bottom.
pub open spec fn merge_bottom(h: HoleInfo, bottom: int) -> HoleInfo {
    if bottom + 16 > h.addr {
        HoleInfo { addr: bottom as usize, size: (h.size + (h.addr - bottom)) as usize }
    } else {
        h
    }
}

/// The hole at `i` and the next one made one.
pub open spec fn joined(hs: Seq<HoleInfo>, i: int) -> Seq<HoleInfo> {
    hs.update(i, HoleInfo { addr: hs[i].addr, size: (hs[i].size + hs[i + 1].size) as usize }).remove(i + 1)
}

/// Up to `n` steps from the hole at `i`: a hole touching the next one takes
/// it in, otherwise the walk moves on; the last hole is stretched to the top.
pub open spec fn merge_from(hs: Seq<HoleInfo>, i: int, n: nat, top: int) -> Seq<HoleInfo>
    decreases n,
{
    if n == 0 || i < 0 || i >= hs.len() {
        hs
    } else if i + 1 >= hs.len() {
        hs.update(i, merge_top(hs[i], top))
    } else if hole_end(hs[i]) == hs[i + 1].addr {
        merge_from(joined(hs, i), i, (n - 1) as nat, top)
    } else {
        merge_from(hs, i + 1, (n - 1) as nat, top)
    }
}

/// The first position from `j` on whose hole starts above `addr`.
pub open spec fn pos_from(hs: Seq<HoleInfo>, addr: int, j: int) -> int
    decreases hs.len() - j,
{
    if j < 0 || j >= hs.len() {
        hs.len() as int
    } else if addr < hs[j].addr {
        j
    } else {
        pos_from(hs, addr, j + 1)
    }
}

/// A block that can be given back: on 8-byte boundaries, at least a hole's
/// room, inside the heap and apart from every hole.
pub open spec fn block_ok(hs: Seq<HoleInfo>, bottom: int, top: int, addr: int, size: int) -> bool {
    &&& addr % 8 == 0
    &&& size % 8 == 0
    &&& size >= 16
    &&& bottom <= addr
    &&& addr + size <= top
    &&& forall|j: int| 0 <= j < hs.len() ==> apart(#[trigger] hs[j], addr, size)
}

/// The holes once the block `[addr, addr + size)` is given back: with no
/// hole, the block becomes the one hole, stretched to the bottom and the
/// top; below the first hole, it goes first, stretched to the bottom, and is
/// merged with what follows; otherwise it goes after the last hole below
/// it, and that hole is merged with what follows, twice.
pub open spec fn freed(hs: Seq<HoleInfo>, bottom: int, top: int, addr: int, size: int) -> Seq<HoleInfo> {
    let node = HoleInfo { addr: addr as usize, size: size as usize };
    if hs.len() == 0 {
        seq![merge_top(merge_bottom(node, bottom), top)]
    } else if addr < hs[0].addr {
        merge_from(seq![merge_bottom(node, bottom)] + hs, 0, 1, top)
    } else {
        let k = pos_from(hs, addr, 1);
        merge_from(hs.insert(k, node), k - 1, 2, top)
    }
}

proof fn lemma_pos_from(hs: Seq<HoleInfo>, addr: int, j: int)
    requires
        0 <= j <= hs.len(),
    ensures
        j <= pos_from(hs, addr, j) <= hs.len(),
        forall|t: int| j <= t < pos_from(hs, addr, j) ==> (#[trigger] hs[t]).addr <= addr,
        pos_from(hs, addr, j) < hs.len() ==> addr < hs[pos_from(hs, addr, j)].addr,
    decreases hs.len() - j,
{
    if j < hs.len() && addr >= hs[j].addr {
        lemma_pos_from(hs, addr, j + 1);
    }
}

/// A hole put where it fits between the others keeps the holes well formed.
proof fn lemma_insert_wf(hs: Seq<HoleInfo>, bottom: int, top: int, k: int, node: HoleInfo)
    requires
        holes_wf(hs, bottom, top),
        0 <= k <= hs.len(),
        node.addr % 8 == 0,
        node.size % 8 == 0,
        node.size >= 16,
        bottom <= node.addr,
        hole_end(node) <= top,
        forall|t: int| 0 <= t < k ==> hole_end(#[trigger] hs[t]) <= node.addr,
        forall|t: int| k <= t < hs.len() ==> hole_end(node) <= (#[trigger] hs[t]).addr,
    ensures
        holes_wf(hs.insert(k, node), bottom, top),
{
    let ns = hs.insert(k, node);
    assert forall|j: int| 0 <= j < ns.len() implies {
        &&& (j < k ==> ns[j] == hs[j])
        &&& (j == k ==> ns[j] == node)
        &&& (j > k ==> ns[j] == hs[j - 1])
    } by {}
    assert forall|x: int, y: int| 0 <= x < y < ns.len() implies hole_end(#[trigger] ns[x]) <= (#[trigger] ns[y]).addr by {
        if y < k {
        } else if y == k {
        } else if x < k {
            assert(hole_end(hs[x]) <= node.addr);
            assert(hole_end(node) <= hs[y - 1].addr);
        } else if x == k {
        } else {
            assert(hole_end(hs[x - 1]) <= hs[y - 1].addr);
        }
    }
}

/// Joining two touching holes keeps the holes well formed.
proof fn lemma_joined_wf(hs: Seq<HoleInfo>, bottom: int, top: int, i: int)
    requires
        holes_wf(hs, bottom, top),
        top <= usize::MAX,
        0 <= i < hs.len() - 1,
        hole_end(hs[i]) == hs[i + 1].addr,
    ensures
        holes_wf(joined(hs, i), bottom, top),
        joined(hs, i).len() == hs.len() - 1,
        joined(hs, i)[i].addr == hs[i].addr,
        hole_end(joined(hs, i)[i]) == hole_end(hs[i + 1]),
        forall|j: int| 0 <= j < i ==> joined(hs, i)[j] == hs[j],
        forall|j: int| i < j < hs.len() - 1 ==> joined(hs, i)[j] == hs[j + 1],
{
    let ns = joined(hs, i);
    assert(hole_end(hs[i + 1]) <= top);
    assert forall|j: int| 0 <= j < ns.len() implies {
        &&& (j < i ==> ns[j] == hs[j])
        &&& (j == i ==> ns[j] == HoleInfo { addr: hs[i].addr, size: (hs[i].size + hs[i + 1].size) as usize })
        &&& (j > i ==> ns[j] == hs[j + 1])
    } by {}
    assert forall|x: int, y: int| 0 <= x < y < ns.len() implies hole_end(#[trigger] ns[x]) <= (#[trigger] ns[y]).addr by {
        if y < i {
        } else if x < i {
            assert(hole_end(hs[x]) <= hs[i].addr);
            if y > i {
                assert(hs[i].addr <= hs[y + 1].addr);
            }
        } else if x == i {
            assert(hole_end(hs[i + 1]) <= hs[y + 1].addr);
        } else {
            assert(hole_end(hs[x + 1]) <= hs[y + 1].addr);
        }
    }
}

/// Stretching the last hole to the top keeps the holes well formed.
proof fn lemma_top_wf(hs: Seq<HoleInfo>, bottom: int, top: int)
    requires
        holes_wf(hs, bottom, top),
        top <= usize::MAX,
        hs.len() > 0,
    ensures
        holes_wf(hs.update(hs.len() - 1, merge_top(hs[hs.len() - 1], top)), bottom, top),
        hs.update(hs.len() - 1, merge_top(hs[hs.len() - 1], top))[hs.len() - 1].addr == hs[hs.len() - 1].addr,
        hole_end(hs.update(hs.len() - 1, merge_top(hs[hs.len() - 1], top))[hs.len() - 1]) >= hole_end(
            hs[hs.len() - 1],
        ),
{
    let l = hs.len() - 1;
    let ns = hs.update(l, merge_top(hs[l], top));
    assert forall|x: int, y: int| 0 <= x < y < ns.len() implies hole_end(#[trigger] ns[x]) <= (#[trigger] ns[y]).addr by {
        if y == l {
            assert(hole_end(hs[x]) <= hs[l].addr);
        } else {
            assert(hole_end(hs[x]) <= hs[y].addr);
        }
    }
}

/// The merging steps keep the holes well formed.
proof fn lemma_merge_from_wf(hs: Seq<HoleInfo>, bottom: int, top: int, i: int, n: nat)
    requires
        holes_wf(hs, bottom, top),
        top <= usize::MAX,
    ensures
        holes_wf(merge_from(hs, i, n, top), bottom, top),
    decreases n,
{
    if n == 0 || i < 0 || i >= hs.len() {
    } else if i + 1 >= hs.len() {
        lemma_top_wf(hs, bottom, top);
    } else if hole_end(hs[i]) == hs[i + 1].addr {
        lemma_joined_wf(hs, bottom, top, i);
        lemma_merge_from_wf(joined(hs, i), bottom, top, i, (n - 1) as nat);
    } else {
        lemma_merge_from_wf(hs, bottom, top, i + 1, (n - 1) as nat);
    }
}

/// What a hole covers stays covered by some hole through the merging steps.
proof fn lemma_merge_from_covers(hs: Seq<HoleInfo>, bottom: int, top: int, i: int, n: nat, j: int, a: int, e: int) -> (w: int)
    requires
        holes_wf(hs, bottom, top),
        top <= usize::MAX,
        0 <= j < hs.len(),
        hs[j].addr <= a,
        e <= hole_end(hs[j]),
    ensures
        0 <= w < merge_from(hs, i, n, top).len(),
        merge_from(hs, i, n, top)[w].addr <= a,
        e <= hole_end(merge_from(hs, i, n, top)[w]),
    decreases n,
{
    if n == 0 || i < 0 || i >= hs.len() {
        j
    } else if i + 1 >= hs.len() {
        lemma_top_wf(hs, bottom, top);
        j
    } else if hole_end(hs[i]) == hs[i + 1].addr {
        lemma_joined_wf(hs, bottom, top, i);
        let j2 = if j <= i {
            j
        } else if j == i + 1 {
            i
        } else {
            j - 1
        };
        if j == i {
            assert(hole_end(hs[i]) <= hole_end(hs[i + 1]));
        }
        lemma_merge_from_covers(joined(hs, i), bottom, top, i, (n - 1) as nat, j2, a, e)
    } else {
        lemma_merge_from_covers(hs, bottom, top, i + 1, (n - 1) as nat, j, a, e)
    }
}

fn merge_top_exec(h: HoleInfo, top: usize) -> (res: HoleInfo)
    requires
        hole_end(h) <= top,
    ensures
        res == merge_top(h, top as int),
{
    let end = h.addr as u128 + h.size as u128;
    if end < top as u128 && align_up_wide(end, 8) + 16 > top as u128 {
        HoleInfo { addr: h.addr, size: h.size + (top - (end as usize)) }
    } else {
        h
    }
}

fn merge_bottom_exec(h: HoleInfo, bottom: usize) -> (res: HoleInfo)
    requires
        bottom <= h.addr,
        hole_end(h) <= usize::MAX,
    ensures
        res == merge_bottom(h, bottom as int),
{
    if (bottom as u128) + 16 > h.addr as u128 {
        HoleInfo { addr: bottom, size: h.size + (h.addr - bottom) }
    } else {
        h
    }
}

/// The block given back lies inside some hole afterwards.
proof fn lemma_freed_covers(hs: Seq<HoleInfo>, bottom: int, top: int, addr: int, size: int)
    requires
        0 <= bottom,
        holes_wf(hs, bottom, top),
        top <= usize::MAX,
        block_ok(hs, bottom, top, addr, size),
    ensures
        exists|w: int|
            0 <= w < freed(hs, bottom, top, addr, size).len() && (#[trigger] freed(hs, bottom, top, addr, size)[w]).addr
                <= addr && addr + size <= hole_end(freed(hs, bottom, top, addr, size)[w]),
{
    let node = HoleInfo { addr: addr as usize, size: size as usize };
    assert(node.addr == addr && node.size == size);
    let f = freed(hs, bottom, top, addr, size);
    if hs.len() == 0 {
        assert(f[0].addr <= addr && addr + size <= hole_end(f[0]));
    } else if addr < hs[0].addr {
        let m = merge_bottom(node, bottom);
        assert(hole_end(node) <= hs[0].addr);
        lemma_insert_wf(hs, bottom, top, 0, m);
        assert(hs.insert(0, m) =~= seq![m] + hs);
        let w = lemma_merge_from_covers(seq![m] + hs, bottom, top, 0, 1, 0, addr, addr + size);
        assert(f[w].addr <= addr);
    } else {
        let k = pos_from(hs, addr, 1);
        lemma_pos_from(hs, addr, 1);
        assert forall|j: int| 0 <= j < k implies hole_end(#[trigger] hs[j]) <= addr by {
            assert(apart(hs[j], addr, size));
            if j > 0 {
                assert(hs[j].addr <= addr);
            }
        }
        assert forall|j: int| k <= j < hs.len() implies hole_end(node) <= (#[trigger] hs[j]).addr by {
            assert(apart(hs[j], addr, size));
            assert(hs[k].addr <= hs[j].addr);
        }
        lemma_insert_wf(hs, bottom, top, k, node);
        let w = lemma_merge_from_covers(hs.insert(k, node), bottom, top, k - 1, 2, k, addr, addr + size);
        assert(f[w].addr <= addr);
    }
}

/// What handing out a block for `layout` gives: the block's address, the
/// layout taken and the holes left; or the error.
pub open spec fn alloc_spec(hs: Seq<HoleInfo>, layout: Layout) -> Result<(usize, Layout, Seq<HoleInfo>), Error> {
    match padded_layout(layout) {
        None => Err(Error::Allocation(AllocationError::LayoutError(layout))),
        Some(l) => if hs.len() == 0 {
            Err(Error::Failed("No cursor"))
        } else {
            match first_fit(hs, l.size as int, l.align as int, 0) {
                None => Err(Error::Failed("No next cursor")),
                Some(i) => {
                    let (a, pads) = split_spec(hs[i], l.size as int, l.align as int).unwrap();
                    Ok((a, l, hs.take(i) + pads + hs.skip(i + 1)))
                },
            }
        },
    }
}

/// The exact pieces cut from a hole: a hole in front when the hole is not
/// aligned, ending at the block; a hole behind when the block does not reach
/// the hole's end, starting right after the block.
#[verifier::spinoff_prover]
#[verifier::rlimit(50)]
proof fn lemma_split_shape(h: HoleInfo, size: int, align: int)
    requires
        h.addr % 8 == 0,
        h.size % 8 == 0,
        hole_end(h) <= usize::MAX,
        size >= 16,
        size % 8 == 0,
        power_of_two(align),
        split_spec(h, size, align) is Some,
    ensures
        ({
            let (a, pads) = split_spec(h, size, align).unwrap();
            let front = (h.addr as int) % align != 0;
            let back = a + size != hole_end(h);
            &&& (a as int) % 8 == 0
            &&& !front ==> a == h.addr
            &&& front ==> a >= h.addr + 16 && pads[0] == HoleInfo { addr: h.addr, size: (a - h.addr) as usize }
            &&& back ==> pads[pads.len() - 1] == HoleInfo {
                addr: (a + size) as usize,
                size: (hole_end(h) - (a + size)) as usize,
            }
            &&& pads.len() == (if front { 1int } else { 0 }) + (if back { 1int } else { 0 })
        }),
{
    let (a, pads) = split_spec(h, size, align).unwrap();
    lemma_power_of_two_small(align);
    let front = (h.addr as int) % align != 0;
    let aligned: int = if front {
        align_up(h.addr + 16, align)
    } else {
        h.addr as int
    };
    assert(aligned + size <= hole_end(h));
    assert(a as int == aligned);
    if front {
        lemma_align_up(h.addr + 16, align);
        if align == 1 || align == 2 || align == 4 {
            assert((h.addr as int) % align == 0);
        } else {
            lemma_align8(h.addr + 16, align);
        }
    }
    assert(aligned % 8 == 0);
    assert(align_up(a + size, 8) == a + size);
}

/// Where a block goes among sorted holes: after those at or below it.
proof fn lemma_pos_from_is(hs: Seq<HoleInfo>, addr: int, j: int, k: int)
    requires
        0 <= j <= k <= hs.len(),
        forall|t: int| j <= t < k ==> (#[trigger] hs[t]).addr <= addr,
        k < hs.len() ==> addr < hs[k].addr,
    ensures
        pos_from(hs, addr, j) == k,
    decreases k - j,
{
    if j < k {
        lemma_pos_from_is(hs, addr, j + 1, k);
    }
}

/// Holes apart by at least a hole's room from each other, the first at the
/// bottom or at least a hole's room above it, the last at the top or at
/// least a hole's room below it: what blocks of the heap leave between holes.
pub open spec fn tidy(hs: Seq<HoleInfo>, bottom: int, top: int) -> bool {
    &&& forall|x: int, y: int| 0 <= x < y < hs.len() ==> hole_end(#[trigger] hs[x]) + 16 <= (#[trigger] hs[y]).addr
    &&& hs.len() > 0 ==> hs[0].addr == bottom || hs[0].addr >= bottom + 16
    &&& hs.len() > 0 ==> hole_end(hs.last()) == top || hole_end(hs.last()) + 16 <= top
}

/// A block `[a, a + size)` cut from the hole `i` of `hs`, leaving `pads` in
/// its place: `ns` is what is left.
spec fn cut_from(
    hs: Seq<HoleInfo>,
    bottom: int,
    top: int,
    i: int,
    a: int,
    size: int,
    pads: Seq<HoleInfo>,
    ns: Seq<HoleInfo>,
    front: bool,
    back: bool,
) -> bool {
    &&& holes_wf(hs, bottom, top)
    &&& 0 <= bottom
    &&& top <= usize::MAX
    &&& tidy(hs, bottom, top)
    &&& 0 <= i < hs.len()
    &&& size >= 16
    &&& size % 8 == 0
    &&& a % 8 == 0
    &&& hs[i].addr <= a
    &&& a + size <= hole_end(hs[i])
    &&& ns == hs.take(i) + pads + hs.skip(i + 1)
    &&& back == (a + size != hole_end(hs[i]))
    &&& !front ==> a == hs[i].addr
    &&& front ==> a >= hs[i].addr + 16 && pads[0] == HoleInfo { addr: hs[i].addr, size: (a - hs[i].addr) as usize }
    &&& back ==> pads[pads.len() - 1] == HoleInfo {
        addr: (a + size) as usize,
        size: (hole_end(hs[i]) - (a + size)) as usize,
    }
    &&& pads.len() == (if front { 1int } else { 0 }) + (if back { 1int } else { 0 })
}

proof fn lemma_cut_index(hs: Seq<HoleInfo>, i: int, pads: Seq<HoleInfo>, ns: Seq<HoleInfo>)
    requires
        0 <= i < hs.len(),
        ns == hs.take(i) + pads + hs.skip(i + 1),
    ensures
        ns.len() == hs.len() - 1 + pads.len(),
        forall|j: int| 0 <= j < i ==> #[trigger] ns[j] == hs[j],
        forall|j: int| i <= j < i + pads.len() ==> #[trigger] ns[j] == pads[j - i],
        forall|j: int| i + pads.len() <= j < ns.len() ==> #[trigger] ns[j] == hs[j - pads.len() + 1],
{
}

/// The block was cut from the front of the first hole.
#[verifier::spinoff_prover]
proof fn lemma_free_first(
    hs: Seq<HoleInfo>,
    bottom: int,
    top: int,
    i: int,
    a: int,
    size: int,
    pads: Seq<HoleInfo>,
    ns: Seq<HoleInfo>,
    front: bool,
    back: bool,
)
    requires
        cut_from(hs, bottom, top, i, a, size, pads, ns, front, back),
        ns.len() > 0,
        a < ns[0].addr,
    ensures
        freed(ns, bottom, top, a, size) == hs,
{
    lemma_cut_index(hs, i, pads, ns);
    let h = hs[i];
    assert(i == 0 && !front) by {
        if i > 0 {
            assert(hole_end(hs[0]) <= h.addr);
        }
    }
    let node = HoleInfo { addr: a as usize, size: size as usize };
    assert(merge_bottom(node, bottom) == node);
    let list = seq![node] + ns;
    if back {
        assert(list[1] == pads[0]);
        assert(hole_end(list[0]) == list[1].addr);
        assert(merge_from(list, 0, 1, top) == merge_from(joined(list, 0), 0, 0, top));
        assert(joined(list, 0) =~= hs);
    } else {
        assert(hs.len() > 1);
        assert(list[1] == hs[1]);
        assert(hole_end(hs[0]) + 16 <= hs[1].addr);
        assert(merge_from(list, 0, 1, top) == merge_from(list, 1, 0, top));
        assert(list =~= hs);
    }
}

/// The block was cut behind a hole left in front of it.
#[verifier::spinoff_prover]
#[verifier::rlimit(60)]
proof fn lemma_free_after_front(
    hs: Seq<HoleInfo>,
    bottom: int,
    top: int,
    i: int,
    a: int,
    size: int,
    pads: Seq<HoleInfo>,
    ns: Seq<HoleInfo>,
    front: bool,
    back: bool,
)
    requires
        cut_from(hs, bottom, top, i, a, size, pads, ns, front, back),
        front,
    ensures
        freed(ns, bottom, top, a, size) == hs,
{
    lemma_cut_index(hs, i, pads, ns);
    let h = hs[i];
    let node = HoleInfo { addr: a as usize, size: size as usize };
    let k = i + 1;
    assert(ns[i] == pads[0]);
    assert(a >= ns[0].addr) by {
        if i > 0 {
            assert(hole_end(hs[0]) <= h.addr);
        }
    }
    assert forall|t: int| 1 <= t < k implies (#[trigger] ns[t]).addr <= a by {
        if t < i {
            assert(hole_end(hs[t]) <= h.addr);
        }
    }
    if k < ns.len() {
        if back {
            assert(ns[k] == pads[1]);
        } else {
            assert(ns[k] == hs[i + 1]);
            assert(hole_end(h) <= hs[i + 1].addr);
        }
    }
    lemma_pos_from_is(ns, a, 1, k);
    let list = ns.insert(k, node);
    assert(list[i] == pads[0]);
    assert(list[k] == node);
    assert(hole_end(list[i]) == list[i + 1].addr);
    let j1 = joined(list, i);
    assert(merge_from(list, i, 2, top) == merge_from(j1, i, 1, top));
    assert(j1[i] == HoleInfo { addr: h.addr, size: (a + size - h.addr) as usize });
    if back {
        assert(j1[i + 1] == pads[1]);
        assert(hole_end(j1[i]) == j1[i + 1].addr);
        assert(merge_from(j1, i, 1, top) == merge_from(joined(j1, i), i, 0, top));
        assert(joined(j1, i) =~= hs);
    } else if i + 1 < hs.len() {
        assert(j1[i + 1] == hs[i + 1]);
        assert(hole_end(h) + 16 <= hs[i + 1].addr);
        assert(merge_from(j1, i, 1, top) == merge_from(j1, i + 1, 0, top));
        assert(j1 =~= hs);
    } else {
        assert(j1.len() == i + 1);
        assert(merge_from(j1, i, 1, top) == j1.update(i, merge_top(j1[i], top)));
        assert(hs.last() == h);
        assert(merge_top(j1[i], top) == h);
        assert(j1.update(i, merge_top(j1[i], top)) =~= hs);
    }
}

/// The block was cut from the front of a hole other than the first.
#[verifier::spinoff_prover]
proof fn lemma_free_at_front(
    hs: Seq<HoleInfo>,
    bottom: int,
    top: int,
    i: int,
    a: int,
    size: int,
    pads: Seq<HoleInfo>,
    ns: Seq<HoleInfo>,
    front: bool,
    back: bool,
)
    requires
        cut_from(hs, bottom, top, i, a, size, pads, ns, front, back),
        !front,
        ns.len() > 0,
        a >= ns[0].addr,
    ensures
        freed(ns, bottom, top, a, size) == hs,
{
    lemma_cut_index(hs, i, pads, ns);
    let h = hs[i];
    let node = HoleInfo { addr: a as usize, size: size as usize };
    assert(i > 0) by {
        if i == 0 {
            if back {
                assert(ns[0] == pads[0]);
            } else {
                assert(ns[0] == hs[1]);
                assert(hole_end(hs[0]) <= hs[1].addr);
            }
        }
    }
    let k = i;
    assert forall|t: int| 1 <= t < k implies (#[trigger] ns[t]).addr <= a by {
        assert(hole_end(hs[t]) <= h.addr);
    }
    if k < ns.len() {
        if back {
            assert(ns[k] == pads[0]);
        } else {
            assert(ns[k] == hs[i + 1]);
            assert(hole_end(h) <= hs[i + 1].addr);
        }
    }
    lemma_pos_from_is(ns, a, 1, k);
    let list = ns.insert(k, node);
    assert(list[i - 1] == hs[i - 1]);
    assert(list[i] == node);
    assert(hole_end(hs[i - 1]) + 16 <= h.addr);
    assert(merge_from(list, i - 1, 2, top) == merge_from(list, i, 1, top));
    if back {
        assert(list[i + 1] == pads[0]);
        assert(hole_end(list[i]) == list[i + 1].addr);
        assert(merge_from(list, i, 1, top) == merge_from(joined(list, i), i, 0, top));
        assert(joined(list, i) =~= hs);
    } else if i + 1 < hs.len() {
        assert(list[i + 1] == hs[i + 1]);
        assert(hole_end(h) + 16 <= hs[i + 1].addr);
        assert(merge_from(list, i, 1, top) == merge_from(list, i + 1, 0, top));
        assert(list =~= hs);
    } else {
        assert(list.len() == i + 1);
        assert(merge_from(list, i, 1, top) == list.update(i, merge_top(list[i], top)));
        assert(hs.last() == h);
        assert(merge_top(node, top) == node);
        assert(list.update(i, merge_top(list[i], top)) =~= hs);
    }
}

/// Giving back a block just handed out restores the holes as they were,
/// when the holes lie apart by at least a hole's room from each other and
/// from the ends of the heap; the block handed out can always be given back.
pub proof fn lemma_alloc_then_free(hs: Seq<HoleInfo>, bottom: int, top: int, layout: Layout)
    requires
        holes_wf(hs, bottom, top),
        0 <= bottom,
        top <= usize::MAX,
        tidy(hs, bottom, top),
        layout_ok(layout.size as int, layout.align as int),
        alloc_spec(hs, layout) is Ok,
    ensures
        ({
            let (a, l, ns) = alloc_spec(hs, layout)->Ok_0;
            &&& block_ok(ns, bottom, top, a as int, l.size as int)
            &&& freed(ns, bottom, top, a as int, l.size as int) == hs
        }),
{
    let l = padded_layout(layout).unwrap();
    let size = l.size as int;
    let align = l.align as int;
    lemma_first_fit(hs, size, align, 0);
    let i = first_fit(hs, size, align, 0).unwrap();
    let h = hs[i];
    let (a, pads) = split_spec(h, size, align).unwrap();
    lemma_split_pieces(h, size, align);
    lemma_split_shape(h, size, align);
    lemma_splice_wf(hs, bottom, top, i, pads, a as int, size);
    let ns = hs.take(i) + pads + hs.skip(i + 1);
    assert(alloc_spec(hs, layout)->Ok_0 == (a, l, ns));
    let front = (h.addr as int) % align != 0;
    let back = a + size != hole_end(h);
    assert(cut_from(hs, bottom, top, i, a as int, size, pads, ns, front, back));
    if ns.len() == 0 {
        lemma_cut_index(hs, i, pads, ns);
        let node = HoleInfo { addr: a, size: l.size };
        assert(hs.len() == 1 && i == 0 && !front && !back);
        assert(node == h);
        assert(freed(ns, bottom, top, a as int, size) =~= hs);
    } else if (a as int) < ns[0].addr {
        lemma_free_first(hs, bottom, top, i, a as int, size, pads, ns, front, back);
    } else if front {
        lemma_free_after_front(hs, bottom, top, i, a as int, size, pads, ns, front, back);
    } else {
        lemma_free_at_front(hs, bottom, top, i, a as int, size, pads, ns, front, back);
    }
}

/// A block that is apart from every hole stays apart from the holes after
/// another allocation, and the newly allocated block does not overlap it:
/// live allocations never share memory.
pub proof fn lemma_alloc_keeps_blocks_apart(hs: Seq<HoleInfo>, bottom: int, top: int, layout: Layout, addr: int, size: int)
    requires
        holes_wf(hs, bottom, top),
        0 <= bottom,
        top <= usize::MAX,
        layout_ok(layout.size as int, layout.align as int),
        alloc_spec(hs, layout) is Ok,
        forall|j: int| 0 <= j < hs.len() ==> apart(#[trigger] hs[j], addr, size),
    ensures
        ({
            let (a, l, ns) = alloc_spec(hs, layout)->Ok_0;
            &&& (a + l.size <= addr || addr + size <= a)
            &&& forall|j: int| 0 <= j < ns.len() ==> apart(#[trigger] ns[j], addr, size)
        }),
{
    let l = padded_layout(layout).unwrap();
    let sz = l.size as int;
    let align = l.align as int;
    lemma_first_fit(hs, sz, align, 0);
    let i = first_fit(hs, sz, align, 0).unwrap();
    let h = hs[i];
    let (a, pads) = split_spec(h, sz, align).unwrap();
    lemma_split_pieces(h, sz, align);
    assert(apart(hs[i], addr, size));
    let ns = hs.take(i) + pads + hs.skip(i + 1);
    assert(alloc_spec(hs, layout)->Ok_0 == (a, l, ns));
    assert forall|j: int| 0 <= j < ns.len() implies apart(#[trigger] ns[j], addr, size) by {
        if j < i {
            assert(ns[j] == hs[j]);
        } else if j < i + pads.len() {
            assert(ns[j] == pads[j - i]);
        } else {
            assert(ns[j] == hs[j - pads.len() + 1]);
            assert(apart(hs[j - pads.len() + 1], addr, size));
        }
    }
}

/// The free regions of the heap `[bottom, top)`, in address order.
#[derive(Debug)]
pub struct HoleList {
    pub holes: Vec<HoleInfo>,
    pub bottom: usize,
    pub top: usize,
}

impl HoleList {
    pub open spec fn wf(&self) -> bool {
        holes_wf(self.holes@, self.bottom as int, self.top as int)
    }

    /// A list with no heap.
    pub fn empty() -> (res: Self)
        ensures
            res.wf(),
            res.holes@.len() == 0,
            res.bottom == 0,
            res.top == 0,
    {
        HoleList { holes: Vec::new(), bottom: 0, top: 0 }
    }

    /// The heap `[hole_addr, hole_addr + hole_size)` as one hole, trimmed to
    /// 8-byte boundaries; it must keep room for a hole.
    pub fn new(hole_addr: usize, hole_size: usize) -> (res: Self)
        requires
            hole_size >= 16,
            hole_addr + hole_size + 8 <= usize::MAX,
            ({
                let a = align_up(hole_addr as int, 8);
                let requested = hole_size - (a - hole_addr);
                requested - requested % 8 >= 16
            }),
        ensures
            res.wf(),
            ({
                let a = align_up(hole_addr as int, 8);
                let requested = hole_size - (a - hole_addr);
                let size = requested - requested % 8;
                &&& res.holes@ == seq![HoleInfo { addr: a as usize, size: size as usize }]
                &&& res.bottom == a
                &&& res.top == a + size
            }),
    {
        proof {
            lemma_align_up(hole_addr as int, 8);
        }
        let aligned = align_up_wide(hole_addr as u128, 8) as usize;
        proof {
            let requested = hole_size - (aligned - hole_addr);
            lemma_round_down8(requested);
        }
        let requested = hole_size - (aligned - hole_addr);
        assert(power_of_two(8)) by {
            reveal_with_fuel(power_of_two, 4);
        }
        let size = align_down_size(requested, HOLE_ALIGN);
        let mut holes: Vec<HoleInfo> = Vec::new();
        holes.push(HoleInfo { addr: aligned, size });
        HoleList { holes, bottom: aligned, top: aligned + size }
    }

    /// Cuts the block for `layout` out of the first hole that can hold it,
    /// leaving the holes around it in its place; gives the block's address
    /// and the layout taken.
    pub fn alloc_first_fit(&mut self, layout: Layout) -> (res: Result<(usize, Layout), Error>)
        requires
            old(self).wf(),
            layout_ok(layout.size as int, layout.align as int),
        ensures
            final(self).wf(),
            final(self).bottom == old(self).bottom,
            final(self).top == old(self).top,
            match padded_layout(layout) {
                None => res == Err::<(usize, Layout), Error>(Error::Allocation(AllocationError::LayoutError(layout)))
                    && final(self).holes@ == old(self).holes@,
                Some(l) => if old(self).holes@.len() == 0 {
                    res == Err::<(usize, Layout), Error>(Error::Failed("No cursor")) && final(self).holes@
                        == old(self).holes@
                } else {
                    match first_fit(old(self).holes@, l.size as int, l.align as int, 0) {
                        None => res == Err::<(usize, Layout), Error>(Error::Failed("No next cursor"))
                            && final(self).holes@ == old(self).holes@,
                        Some(i) => {
                            let hs = old(self).holes@;
                            let (a, pads) = split_spec(hs[i], l.size as int, l.align as int).unwrap();
                            &&& res == Ok::<(usize, Layout), Error>((a, l))
                            &&& final(self).holes@ == hs.take(i) + pads + hs.skip(i + 1)
                            &&& a % l.align == 0
                            &&& hs[i].addr <= a && a + l.size <= hole_end(hs[i])
                            &&& forall|j: int|
                                0 <= j < final(self).holes@.len() ==> apart(
                                    #[trigger] final(self).holes@[j],
                                    a as int,
                                    l.size as int,
                                )
                        },
                    }
                },
            },
    {
        let l = match align_layout(layout) {
            Ok(l) => l,
            Err(e) => return Err(e),
        };
        if self.holes.len() == 0 {
            return Err(Error::Failed("No cursor"));
        }
        proof {
            lemma_power_of_two_positive(l.align as int);
        }
        let mut found: Option<(usize, usize, Vec<HoleInfo>)> = None;
        let mut i: usize = 0;
        while i < self.holes.len() && found.is_none()
            invariant
                self.wf(),
                self.holes@ == old(self).holes@,
                l.align > 0,
                i <= self.holes@.len(),
                found is None ==> first_fit(self.holes@, l.size as int, l.align as int, 0) == first_fit(
                    self.holes@,
                    l.size as int,
                    l.align as int,
                    i as int,
                ),
                found matches Some((k, a, pads)) ==> first_fit(self.holes@, l.size as int, l.align as int, 0)
                    == Some(k as int) && k < self.holes@.len() && split_spec(
                    self.holes@[k as int],
                    l.size as int,
                    l.align as int,
                ) == Some((a, pads@)),
            decreases self.holes@.len() - i, if found is None { 1int } else { 0int },
        {
            match split_hole(self.holes[i], l.size, l.align) {
                Some((a, pads)) => {
                    found = Some((i, a, pads));
                },
                None => {
                    i = i + 1;
                },
            }
        }
        match found {
            None => Err(Error::Failed("No next cursor")),
            Some((k, a, pads)) => {
                proof {
                    let h = self.holes@[k as int];
                    lemma_split_pieces(h, l.size as int, l.align as int);
                    lemma_splice_wf(self.holes@, self.bottom as int, self.top as int, k as int, pads@, a as int, l.size as int);
                }
                self.splice(k, pads);
                Ok((a, l))
            },
        }
    }

    /// Up to `n` merging steps from the hole at `i`, as `merge_from` says.
    fn merge_next_n(&mut self, i: usize, n: usize)
        requires
            old(self).wf(),
            i < old(self).holes@.len(),
        ensures
            final(self).wf(),
            final(self).holes@ == merge_from(old(self).holes@, i as int, n as nat, old(self).top as int),
            final(self).bottom == old(self).bottom,
            final(self).top == old(self).top,
    {
        let ghost i0 = i;
        let mut i = i;
        let mut c: usize = 0;
        let mut done = false;
        while c < n && !done
            invariant
                self.wf(),
                self.bottom == old(self).bottom,
                self.top == old(self).top,
                c <= n,
                !done ==> i < self.holes@.len(),
                merge_from(old(self).holes@, i0 as int, n as nat, old(self).top as int) == if done {
                    self.holes@
                } else {
                    merge_from(self.holes@, i as int, (n - c) as nat, self.top as int)
                },
            decreases n - c,
        {
            if i >= self.holes.len() - 1 {
                proof {
                    lemma_top_wf(self.holes@, self.bottom as int, self.top as int);
                }
                let h = self.holes[i];
                self.holes.set(i, merge_top_exec(h, self.top));
                done = true;
            } else if self.holes[i].addr + self.holes[i].size == self.holes[i + 1].addr {
                proof {
                    lemma_joined_wf(self.holes@, self.bottom as int, self.top as int, i as int);
                }
                let ghost before = self.holes@;
                let nx = self.holes.remove(i + 1);
                let h = self.holes[i];
                self.holes.set(i, HoleInfo { addr: h.addr, size: h.size + nx.size });
                assert(self.holes@ =~= joined(before, i as int));
            } else {
                i = i + 1;
            }
            c = c + 1;
        }
    }

    /// Gives back the block `[addr, addr + size)`, as `freed` says.
    fn dealloc_block(&mut self, addr: usize, size: usize)
        requires
            old(self).wf(),
            block_ok(old(self).holes@, old(self).bottom as int, old(self).top as int, addr as int, size as int),
        ensures
            final(self).wf(),
            final(self).holes@ == freed(
                old(self).holes@,
                old(self).bottom as int,
                old(self).top as int,
                addr as int,
                size as int,
            ),
            final(self).bottom == old(self).bottom,
            final(self).top == old(self).top,
    {
        let node = HoleInfo { addr, size };
        let ghost hs = self.holes@;
        let ghost b = self.bottom as int;
        let ghost t = self.top as int;
        if self.holes.len() == 0 {
            let h = merge_top_exec(merge_bottom_exec(node, self.bottom), self.top);
            self.holes.push(h);
            proof {
                let m = merge_bottom(node, b);
                lemma_top_wf(seq![m], b, t);
                assert(seq![m].update(0, merge_top(m, t)) =~= self.holes@);
            }
        } else if addr < self.holes[0].addr {
            let m = merge_bottom_exec(node, self.bottom);
            proof {
                assert(hole_end(node) <= hs[0].addr);
                lemma_insert_wf(hs, b, t, 0, m);
                assert(hs.insert(0, m) =~= seq![m] + hs);
            }
            self.holes.insert(0, m);
            self.merge_next_n(0, 1);
        } else {
            let mut k: usize = 1;
            while k < self.holes.len() && !(addr < self.holes[k].addr)
                invariant
                    1 <= k <= self.holes@.len(),
                    self.holes@ == hs,
                    pos_from(hs, addr as int, 1) == pos_from(hs, addr as int, k as int),
                decreases self.holes@.len() - k,
            {
                k = k + 1;
            }
            proof {
                lemma_pos_from(hs, addr as int, 1);
                assert forall|j: int| 0 <= j < k implies hole_end(#[trigger] hs[j]) <= addr by {
                    assert(apart(hs[j], addr as int, size as int));
                    if j > 0 {
                        assert(hs[j].addr <= addr);
                    }
                }
                assert forall|j: int| k <= j < hs.len() implies hole_end(node) <= (#[trigger] hs[j]).addr by {
                    assert(apart(hs[j], addr as int, size as int));
                    assert(hs[k as int].addr <= hs[j].addr);
                }
                lemma_insert_wf(hs, b, t, k as int, node);
            }
            self.holes.insert(k, node);
            self.merge_next_n(k - 1, 2);
        }
    }

    /// Gives back a block handed out for `layout` at `addr`; gives the
    /// layout it took.
    pub fn dealloc(&mut self, addr: usize, layout: Layout) -> (res: Result<Layout, Error>)
        requires
            old(self).wf(),
            layout_ok(layout.size as int, layout.align as int),
            padded_layout(layout) matches Some(l) ==> block_ok(
                old(self).holes@,
                old(self).bottom as int,
                old(self).top as int,
                addr as int,
                l.size as int,
            ),
        ensures
            final(self).wf(),
            final(self).bottom == old(self).bottom,
            final(self).top == old(self).top,
            match padded_layout(layout) {
                None => res == Err::<Layout, Error>(Error::Allocation(AllocationError::LayoutError(layout)))
                    && final(self).holes@ == old(self).holes@,
                Some(l) => {
                    &&& res == Ok::<Layout, Error>(l)
                    &&& final(self).holes@ == freed(
                        old(self).holes@,
                        old(self).bottom as int,
                        old(self).top as int,
                        addr as int,
                        l.size as int,
                    )
                    &&& exists|w: int|
                        0 <= w < final(self).holes@.len() && (#[trigger] final(self).holes@[w]).addr <= addr
                            && addr + l.size <= hole_end(final(self).holes@[w])
                },
            },
    {
        let l = match align_layout(layout) {
            Ok(l) => l,
            Err(e) => return Err(e),
        };
        let ghost hs = self.holes@;
        self.dealloc_block(addr, l.size);
        proof {
            lemma_freed_covers(hs, self.bottom as int, self.top as int, addr as int, l.size as int);
        }
        Ok(l)
    }

    /// Puts `pads` in the place of the hole at `i`.
    fn splice(&mut self, i: usize, pads: Vec<HoleInfo>)
        requires
            i < old(self).holes@.len(),
        ensures
            final(self).holes@ == old(self).holes@.take(i as int) + pads@ + old(self).holes@.skip(i + 1),
            final(self).bottom == old(self).bottom,
            final(self).top == old(self).top,
    {
        let ghost hs = self.holes@;
        self.holes.remove(i);
        assert(self.holes@ =~= hs.take(i as int) + pads@.skip(pads@.len() as int) + hs.skip(i + 1));
        let mut k: usize = pads.len();
        while k > 0
            invariant
                k <= pads@.len(),
                i < hs.len(),
                self.holes@ == hs.take(i as int) + pads@.skip(k as int) + hs.skip(i + 1),
                self.bottom == old(self).bottom,
                self.top == old(self).top,
            decreases k,
        {
            k = k - 1;
            self.holes.insert(i, pads[k]);
            assert(self.holes@ =~= hs.take(i as int) + pads@.skip(k as int) + hs.skip(i + 1)) by {
                assert(pads@.skip(k as int) =~= seq![pads@[k as int]] + pads@.skip(k + 1));
            }
        }
        assert(pads@.skip(0) =~= pads@);
    }
}

/// The heap: its holes, and how many bytes are handed out.
#[derive(Debug)]
pub struct Heap {
    pub used: usize,
    pub holes: HoleList,
}

impl Heap {
    /// A heap with no memory yet.
    pub fn empty() -> (res: Self)
        ensures
            res.used == 0,
            res.holes.wf(),
            res.holes.holes@.len() == 0,
            res.holes.bottom == 0,
            res.holes.top == 0,
    {
        Heap { used: 0, holes: HoleList::empty() }
    }

    /// Makes `[heap_bottom, heap_bottom + heap_size)` the heap, all free.
    pub fn init(&mut self, heap_bottom: usize, heap_size: usize)
        requires
            heap_size >= 16,
            heap_bottom + heap_size + 8 <= usize::MAX,
            ({
                let a = align_up(heap_bottom as int, 8);
                let requested = heap_size - (a - heap_bottom);
                requested - requested % 8 >= 16
            }),
        ensures
            final(self).used == 0,
            final(self).holes.wf(),
            ({
                let a = align_up(heap_bottom as int, 8);
                let requested = heap_size - (a - heap_bottom);
                let size = requested - requested % 8;
                &&& final(self).holes.holes@ == seq![HoleInfo { addr: a as usize, size: size as usize }]
                &&& final(self).holes.bottom == a
                &&& final(self).holes.top == a + size
            }),
    {
        self.holes = HoleList::new(heap_bottom, heap_size);
        self.used = 0;
    }

    /// Hands out a block for `layout` from the first hole that can hold it,
    /// counting the bytes it takes; gives its address.
    pub fn alloc_first_fit(&mut self, layout: Layout) -> (res: Result<usize, Error>)
        requires
            old(self).holes.wf(),
            layout_ok(layout.size as int, layout.align as int),
            old(self).used + layout.size + 23 <= usize::MAX,
        ensures
            final(self).holes.wf(),
            final(self).holes.bottom == old(self).holes.bottom,
            final(self).holes.top == old(self).holes.top,
            match alloc_spec(old(self).holes.holes@, layout) {
                Err(e) => res == Err::<usize, Error>(e) && final(self).holes.holes@ == old(self).holes.holes@
                    && final(self).used == old(self).used,
                Ok((a, l, ns)) => res == Ok::<usize, Error>(a) && final(self).holes.holes@ == ns
                    && final(self).used == old(self).used + l.size,
            },
    {
        match self.holes.alloc_first_fit(layout) {
            Ok((a, l)) => {
                self.used = self.used + l.size;
                Ok(a)
            },
            Err(e) => Err(e),
        }
    }

    /// Gives back a block handed out for `layout` at `addr`, counting the
    /// bytes it took as free again.
    pub fn dealloc(&mut self, addr: usize, layout: Layout) -> (res: Result<(), Error>)
        requires
            old(self).holes.wf(),
            layout_ok(layout.size as int, layout.align as int),
            padded_layout(layout) matches Some(l) ==> block_ok(
                old(self).holes.holes@,
                old(self).holes.bottom as int,
                old(self).holes.top as int,
                addr as int,
                l.size as int,
            ) && old(self).used >= l.size,
        ensures
            final(self).holes.wf(),
            final(self).holes.bottom == old(self).holes.bottom,
            final(self).holes.top == old(self).holes.top,
            match padded_layout(layout) {
                None => res == Err::<(), Error>(Error::Allocation(AllocationError::LayoutError(layout)))
                    && final(self).holes.holes@ == old(self).holes.holes@ && final(self).used == old(self).used,
                Some(l) => res is Ok && final(self).holes.holes@ == freed(
                    old(self).holes.holes@,
                    old(self).holes.bottom as int,
                    old(self).holes.top as int,
                    addr as int,
                    l.size as int,
                ) && final(self).used == old(self).used - l.size,
            },
    {
        match self.holes.dealloc(addr, layout) {
            Ok(l) => {
                self.used = self.used - l.size;
                Ok(())
            },
            Err(e) => Err(e),
        }
    }
}

} // verus!
