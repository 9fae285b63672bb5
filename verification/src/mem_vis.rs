use vstd::prelude::*;
use crate::graphics::color::ColorCode;

verus! {

/// How many recent events are kept.
pub const MAX_EVENTS: usize = 16;
/// For how many frames a new event flashes on the minimap.
pub const EVENT_FLASH_FRAMES: usize = 20;
/// The width of the minimap and of the usage bar, in pixels.
pub const MINIMAP_WIDTH: usize = 276;

/// A change of the frame allocator.
#[derive(Debug, Clone, Copy, PartialEq, Eq, Structural)]
pub enum MemEvent {
    Alloc,
    Dealloc,
}

/// One recorded change: which frames, and how many redraws ago.
#[derive(Debug, Clone, Copy, PartialEq, Eq, Structural)]
pub struct MemEventEntry {
    pub event: MemEvent,
    pub frame_index: usize,
    pub frame_count: usize,
    pub age: usize,
}

impl MemEventEntry {
    pub fn empty() -> (res: Self)
        ensures
            res == (MemEventEntry { event: MemEvent::Alloc, frame_index: 0, frame_count: 0, age: 0 }),
    {
        MemEventEntry { event: MemEvent::Alloc, frame_index: 0, frame_count: 0, age: 0 }
    }

    /// The physical address of the first frame.
    pub fn addr(&self) -> (res: u64)
        requires
            self.frame_index * 4096 <= usize::MAX,
        ensures
            res == self.frame_index * 4096,
    {
        (self.frame_index * 4096) as u64
    }

    /// The size in bytes.
    pub fn size_bytes(&self) -> (res: usize)
        requires
            self.frame_count * 4096 <= usize::MAX,
        ensures
            res == self.frame_count * 4096,
    {
        self.frame_count * 4096
    }
}

/// The last `count` entries of a ring whose next slot is `head`, newest
/// first.
pub open spec fn recent_of(buf: Seq<MemEventEntry>, head: int, count: int) -> Seq<MemEventEntry> {
    Seq::new(count as nat, |i: int| buf[(head + 15 - i) % 16])
}

/// `e` one redraw older.
pub open spec fn aged(e: MemEventEntry) -> MemEventEntry {
    MemEventEntry { age: (e.age + 1) as usize, ..e }
}

/// A ring of the 16 most recent events.
#[derive(Debug)]
pub struct EventRingBuffer {
    pub buf: Vec<MemEventEntry>,
    pub head: usize,
    pub count: usize,
}

impl EventRingBuffer {
    /// Sixteen slots; until the ring is full the entries fill the slots
    /// from the first on.
    pub open spec fn wf(&self) -> bool {
        &&& self.buf@.len() == 16
        &&& self.head < 16
        &&& self.count <= 16
        &&& self.count < 16 ==> self.head == self.count
    }

    /// The kept entries, newest first.
    pub open spec fn view(&self) -> Seq<MemEventEntry> {
        recent_of(self.buf@, self.head as int, self.count as int)
    }

    pub fn new() -> (res: Self)
        ensures
            res.wf(),
            res@ == Seq::<MemEventEntry>::empty(),
    {
        let mut buf: Vec<MemEventEntry> = Vec::new();
        while buf.len() < MAX_EVENTS
            invariant
                buf.len() <= 16,
            decreases 16 - buf.len(),
        {
            buf.push(MemEventEntry::empty());
        }
        let r = EventRingBuffer { buf, head: 0, count: 0 };
        assert(r@ =~= Seq::<MemEventEntry>::empty());
        r
    }

    /// Records an entry, dropping the oldest when all 16 slots are taken.
    pub fn push(&mut self, entry: MemEventEntry)
        requires
            old(self).wf(),
        ensures
            final(self).wf(),
            final(self)@ == seq![entry] + old(self)@.take(if old(self).count < 16 {
                old(self).count as int
            } else {
                15
            }),
    {
        let ghost before = self@;
        let ghost h = self.head as int;
        self.buf.set(self.head, entry);
        self.head = (self.head + 1) % MAX_EVENTS;
        if self.count < MAX_EVENTS {
            self.count = self.count + 1;
        }
        assert(self@ =~= seq![entry] + before.take(self.count - 1)) by {
            assert forall|i: int| 1 <= i < self.count implies self@[i] == before[i - 1] by {
                assert((self.head + 15 - i) % 16 == (h + 15 - (i - 1)) % 16);
                assert((h + 15 - (i - 1)) % 16 != h);
            }
            assert(self@[0] == entry);
        }
    }

    /// The kept entries, newest first.
    pub fn recent(&self) -> (res: Vec<MemEventEntry>)
        requires
            self.wf(),
        ensures
            res@ == self@,
    {
        let mut res: Vec<MemEventEntry> = Vec::new();
        let mut pos: usize = (self.head + MAX_EVENTS - 1) % MAX_EVENTS;
        let mut i: usize = 0;
        while i < self.count
            invariant
                self.wf(),
                i <= self.count,
                pos == (self.head + 15 - i) % 16,
                res@ == self@.take(i as int),
            decreases self.count - i,
        {
            res.push(self.buf[pos]);
            pos = (pos + MAX_EVENTS - 1) % MAX_EVENTS;
            i = i + 1;
            assert(res@ =~= self@.take(i as int));
        }
        assert(res@ =~= self@);
        res
    }

    /// Makes every kept entry one redraw older.
    pub fn age_all(&mut self)
        requires
            old(self).wf(),
            forall|i: int| 0 <= i < 16 ==> #[trigger] old(self).buf@[i].age < usize::MAX,
        ensures
            final(self).wf(),
            final(self)@ == old(self)@.map_values(|e: MemEventEntry| aged(e)),
    {
        if self.count == 0 {
            assert(self@ =~= old(self)@.map_values(|e: MemEventEntry| aged(e)));
            return;
        }
        let start = if self.count < MAX_EVENTS {
            0
        } else {
            self.head
        };
        let mut i: usize = 0;
        while i < self.count
            invariant
                self.wf(),
                self.head == old(self).head,
                self.count == old(self).count,
                self.count > 0,
                start == if self.count < 16 { 0 } else { self.head as int },
                i <= self.count,
                forall|k: int|
                    0 <= k < 16 ==> #[trigger] self.buf@[k] == if (k - start + 16) % 16 < i {
                        aged(old(self).buf@[k])
                    } else {
                        old(self).buf@[k]
                    },
                forall|k: int| 0 <= k < 16 ==> #[trigger] old(self).buf@[k].age < usize::MAX,
            decreases self.count - i,
        {
            let idx = (start + i) % MAX_EVENTS;
            let mut e = self.buf[idx];
            e.age = e.age + 1;
            self.buf.set(idx, e);
            i = i + 1;
        }
        assert forall|j: int| 0 <= j < self.count implies #[trigger] self@[j] == aged(old(self)@[j]) by {
            let k = (self.head + 15 - j) % 16;
            assert((k - start + 16) % 16 < self.count);
        }
        assert(self@ =~= old(self)@.map_values(|e: MemEventEntry| aged(e)));
    }
}

/// Recent changes of the frame allocator, for display.
#[derive(Debug)]
pub struct MemoryVisualizer {
    pub events: EventRingBuffer,
}

impl MemoryVisualizer {
    pub fn new() -> (res: Self)
        ensures
            res.events.wf(),
            res.events@ == Seq::<MemEventEntry>::empty(),
    {
        MemoryVisualizer { events: EventRingBuffer::new() }
    }

    /// Records an allocation or a free of `frame_count` frames from
    /// `frame_index`, as new.
    pub fn hook(&mut self, event: MemEvent, frame_index: usize, frame_count: usize)
        requires
            old(self).events.wf(),
        ensures
            final(self).events.wf(),
            final(self).events@ == seq![MemEventEntry { event, frame_index, frame_count, age: 0 }]
                + old(self).events@.take(if old(self).events.count < 16 {
                old(self).events.count as int
            } else {
                15
            }),
    {
        self.events.push(MemEventEntry { event, frame_index, frame_count, age: 0 });
    }
}

/// The share of used frames among `total_bits`, scaled to 0..=255.
pub fn column_density(alloc_bits: usize, total_bits: usize) -> (res: usize)
    requires
        alloc_bits <= total_bits,
        total_bits * 255 <= usize::MAX,
    ensures
        total_bits == 0 ==> res == 0,
        total_bits > 0 ==> res == alloc_bits * 255 / (total_bits as int),
        res <= 255,
{
    if total_bits > 0 {
        assert(alloc_bits * 255 <= total_bits * 255) by (nonlinear_arith)
            requires
                alloc_bits <= total_bits,
        ;
        assert(alloc_bits * 255 / (total_bits as int) <= 255) by (nonlinear_arith)
            requires
                alloc_bits <= total_bits,
                total_bits > 0,
        ;
        alloc_bits * 255 / total_bits
    } else {
        0
    }
}

/// One channel between the free colour `lo` and the used colour `hi` at a
/// density out of 255.
pub open spec fn blend(lo: int, hi: int, density: int) -> int {
    lo + (hi - lo) * density / 255
}

fn blend_channel(lo: u8, hi: u8, density: usize) -> (res: u8)
    requires
        lo <= hi,
        density <= 255,
    ensures
        res == blend(lo as int, hi as int, density as int),
{
    let d = (hi - lo) as usize;
    assert(d * density <= 255 * 255) by (nonlinear_arith)
        requires
            d <= 255,
            density <= 255,
    ;
    assert(d * density / 255 <= d) by (nonlinear_arith)
        requires
            d <= 255,
            density <= 255,
    ;
    (lo as usize + d * density / 255) as u8
}

/// The share `intensity` out of 255 of one channel.
pub open spec fn scaled(c: int, intensity: int) -> int {
    c * intensity / 255
}

fn scale_channel(c: u8, intensity: usize) -> (res: u8)
    requires
        intensity <= 255,
    ensures
        res == scaled(c as int, intensity as int),
{
    assert(c as usize * intensity / 255 <= 255) by (nonlinear_arith)
        requires
            c <= 255,
            intensity <= 255,
    ;
    (c as usize * intensity / 255) as u8
}

/// How bright a flash still is after `age` redraws: from 255 down to 0
/// over the flash time.
pub open spec fn flash_intensity(age: int) -> int {
    let fade = age * 255 / 20;
    255 - if fade < 255 { fade } else { 255 }
}

/// The colour of a minimap column covering the frames `col_start` to
/// `col_end` with the given density: the flash of the newest recent event
/// that touches those frames, else the blend of free and used.
pub open spec fn column_color_spec(
    density: int,
    events: Seq<MemEventEntry>,
    col_start: int,
    col_end: int,
) -> ColorCode
    decreases events.len(),
{
    if events.len() == 0 {
        ColorCode {
            r: blend(30, 60, density) as u8,
            g: blend(50, 130, density) as u8,
            b: blend(30, 80, density) as u8,
            a: 0,
        }
    } else {
        let e = events[0];
        if e.age < 20 && e.frame_index < col_end && e.frame_index + e.frame_count > col_start {
            let i = flash_intensity(e.age as int);
            match e.event {
                MemEvent::Alloc => ColorCode {
                    r: scaled(255, i) as u8,
                    g: scaled(220, i) as u8,
                    b: scaled(80, i) as u8,
                    a: 0,
                },
                MemEvent::Dealloc => ColorCode {
                    r: scaled(100, i) as u8,
                    g: scaled(180, i) as u8,
                    b: scaled(255, i) as u8,
                    a: 0,
                },
            }
        } else {
            column_color_spec(density, events.drop_first(), col_start, col_end)
        }
    }
}

/// The colour of one minimap column.
pub fn column_color(density: usize, events: &Vec<MemEventEntry>, col_start: usize, col_end: usize) -> (res: ColorCode)
    requires
        density <= 255,
        forall|k: int| 0 <= k < events@.len() ==> #[trigger] events@[k].frame_index + events@[k].frame_count
            <= usize::MAX,
    ensures
        res == column_color_spec(density as int, events@, col_start as int, col_end as int),
{
    let mut i: usize = 0;
    assert(events@.skip(0) =~= events@);
    while i < events.len()
        invariant
            i <= events@.len(),
            density <= 255,
            forall|k: int| 0 <= k < events@.len() ==> #[trigger] events@[k].frame_index + events@[k].frame_count
                <= usize::MAX,
            column_color_spec(density as int, events@, col_start as int, col_end as int) == column_color_spec(
                density as int,
                events@.skip(i as int),
                col_start as int,
                col_end as int,
            ),
        decreases events@.len() - i,
    {
        let e = events[i];
        proof {
            assert(events@.skip(i as int).drop_first() =~= events@.skip(i + 1));
            assert(events@.skip(i as int)[0] == e);
        }
        if e.age < EVENT_FLASH_FRAMES && e.frame_index < col_end && e.frame_index + e.frame_count > col_start {
            let fade = e.age * 255 / EVENT_FLASH_FRAMES;
            let intensity = 255 - if fade < 255 {
                fade
            } else {
                255
            };
            return match e.event {
                MemEvent::Alloc => ColorCode::new_rgb(
                    scale_channel(255, intensity),
                    scale_channel(220, intensity),
                    scale_channel(80, intensity),
                ),
                MemEvent::Dealloc => ColorCode::new_rgb(
                    scale_channel(100, intensity),
                    scale_channel(180, intensity),
                    scale_channel(255, intensity),
                ),
            };
        }
        i = i + 1;
    }
    proof {
        assert(events@.skip(i as int).len() == 0);
    }
    ColorCode::new_rgb(blend_channel(30, 60, density), blend_channel(50, 130, density), blend_channel(30, 80, density))
}

/// The figures shown for memory use: used and total MiB, the percentage,
/// used and total frames, and the filled width of the usage bar.
pub fn usage_stats(used: usize, total: usize) -> (res: (usize, usize, usize, usize, usize, usize))
    requires
        used <= total,
        total * 276 <= usize::MAX,
    ensures
        res.0 == used / 0x10_0000,
        res.1 == total / 0x10_0000,
        res.2 == if total > 0 { used * 100 / (total as int) } else { 0 },
        res.3 == used / 4096,
        res.4 == total / 4096,
        res.5 == if total > 0 { used * 276 / (total as int) } else { 0 },
{
    assert(used * 276 <= total * 276 && used * 100 <= total * 276) by (nonlinear_arith)
        requires
            used <= total,
    ;
    let percent = if total > 0 {
        used * 100 / total
    } else {
        0
    };
    let fill_width = if total > 0 {
        used * MINIMAP_WIDTH / total
    } else {
        0
    };
    (used / (1024 * 1024), total / (1024 * 1024), percent, used / 4096, total / 4096, fill_width)
}

/// A size in bytes as shown: in MiB from 1 MiB on, in KiB from 1 KiB on,
/// else in bytes.
#[derive(Debug, Clone, Copy, PartialEq, Eq, Structural)]
pub enum SizeLabel {
    MiB(usize),
    KiB(usize),
    B(usize),
}

pub fn size_label(size_bytes: usize) -> (res: SizeLabel)
    ensures
        size_bytes >= 0x10_0000 ==> res == SizeLabel::MiB(size_bytes / 0x10_0000),
        0x400 <= size_bytes < 0x10_0000 ==> res == SizeLabel::KiB(size_bytes / 0x400),
        size_bytes < 0x400 ==> res == SizeLabel::B(size_bytes),
{
    if size_bytes >= 1024 * 1024 {
        SizeLabel::MiB(size_bytes / (1024 * 1024))
    } else if size_bytes >= 1024 {
        SizeLabel::KiB(size_bytes / 1024)
    } else {
        SizeLabel::B(size_bytes)
    }
}

} // verus!
