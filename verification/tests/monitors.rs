use lib::graphics::color::ColorCode;
use lib::mem_vis::{
    column_color, column_density, size_label, usage_stats, EventRingBuffer, MemEvent, MemEventEntry,
    MemoryVisualizer, SizeLabel,
};
use lib::serial::{init_sequence, is_received_data, is_transmit_empty, loopback_ok, ComPort};
use lib::sync::volatile::Volatile;
use lib::syscall_vis::{
    format_count, hook, lookup_syscall, ranked_syscalls, update_rates, CountLabel, SyscallCategory,
    SyscallCounters,
};

fn entry(event: MemEvent, frame_index: usize, frame_count: usize, age: usize) -> MemEventEntry {
    MemEventEntry { event, frame_index, frame_count, age }
}

#[test]
fn read_write() {
    let mut v: Volatile<u16> = Volatile::new(0);
    assert_eq!(v.read(), 0);
    v.write(0x1234);
    assert_eq!(v.read(), 0x1234);
    v.write(0x5678);
    assert_eq!(v.read(), 0x5678);
}

#[test]
fn serial_port_setup() {
    assert_eq!(ComPort::Com1.io_port_addr(), 0x3f8);
    let seq = init_sequence();
    assert_eq!(seq.len(), 9);
    assert_eq!(seq[1], (3, 0x80));
    assert_eq!(seq[8], (0, 0xae));
    assert!(loopback_ok(0xae));
    assert!(!loopback_ok(0xaf));
    assert!(is_received_data(0x61));
    assert!(!is_received_data(0x60));
    assert!(is_transmit_empty(0x20));
    assert!(!is_transmit_empty(0x41));
}

#[test]
fn ring_buffer_keeps_newest_first() {
    let mut ring = EventRingBuffer::new();
    assert!(ring.recent().is_empty());
    for i in 0..3 {
        ring.push(entry(MemEvent::Alloc, i, 1, 0));
    }
    let recent = ring.recent();
    assert_eq!(recent.len(), 3);
    assert_eq!(recent[0].frame_index, 2);
    assert_eq!(recent[2].frame_index, 0);
}

#[test]
fn ring_buffer_drops_the_oldest_when_full() {
    let mut ring = EventRingBuffer::new();
    for i in 0..20 {
        ring.push(entry(MemEvent::Dealloc, i, 1, 0));
    }
    let recent = ring.recent();
    assert_eq!(recent.len(), 16);
    assert_eq!(recent[0].frame_index, 19);
    assert_eq!(recent[15].frame_index, 4);
}

#[test]
fn aging_makes_every_entry_older() {
    let mut ring = EventRingBuffer::new();
    ring.push(entry(MemEvent::Alloc, 1, 1, 0));
    ring.push(entry(MemEvent::Alloc, 2, 1, 5));
    ring.age_all();
    let recent = ring.recent();
    assert_eq!(recent[0].age, 6);
    assert_eq!(recent[1].age, 1);
}

#[test]
fn visualizer_hook_records_new_events() {
    let mut vis = MemoryVisualizer::new();
    vis.hook(MemEvent::Alloc, 10, 4);
    let recent = vis.events.recent();
    assert_eq!(recent, vec![entry(MemEvent::Alloc, 10, 4, 0)]);
    assert_eq!(recent[0].addr(), 10 * 4096);
    assert_eq!(recent[0].size_bytes(), 4 * 4096);
}

#[test]
fn density_and_colors() {
    assert_eq!(column_density(0, 0), 0);
    assert_eq!(column_density(4, 8), 127);
    assert_eq!(column_density(8, 8), 255);
    let none: Vec<MemEventEntry> = Vec::new();
    assert_eq!(column_color(0, &none, 0, 8), ColorCode::new_rgb(30, 50, 30));
    assert_eq!(column_color(255, &none, 0, 8), ColorCode::new_rgb(60, 130, 80));
    // a fresh allocation in the column flashes at full brightness
    let fresh = vec![entry(MemEvent::Alloc, 4, 2, 0)];
    assert_eq!(column_color(0, &fresh, 0, 8), ColorCode::new_rgb(255, 220, 80));
    // half way through the flash: fade 10 * 255 / 20 = 127, intensity 128
    let half = vec![entry(MemEvent::Dealloc, 4, 2, 10)];
    assert_eq!(column_color(0, &half, 0, 8), ColorCode::new_rgb(50, 90, 128));
    // an event outside the column or too old does not count
    let outside = vec![entry(MemEvent::Alloc, 20, 2, 0), entry(MemEvent::Alloc, 0, 1, 25)];
    assert_eq!(column_color(0, &outside, 0, 8), ColorCode::new_rgb(30, 50, 30));
}

#[test]
fn usage_figures() {
    let total = 64 * 1024 * 1024;
    let used = 16 * 1024 * 1024;
    assert_eq!(usage_stats(used, total), (16, 64, 25, 4096, 16384, 69));
    assert_eq!(usage_stats(0, 0), (0, 0, 0, 0, 0, 0));
    assert_eq!(size_label(3 * 1024 * 1024), SizeLabel::MiB(3));
    assert_eq!(size_label(8192), SizeLabel::KiB(8));
    assert_eq!(size_label(1023), SizeLabel::B(1023));
}

#[test]
fn syscall_table() {
    let read = lookup_syscall(0).unwrap();
    assert_eq!(read.name, "read");
    assert_eq!(read.category, SyscallCategory::FileIO);
    assert_eq!(lookup_syscall(27).unwrap().name, "accept");
    assert_eq!(lookup_syscall(5).unwrap().category, SyscallCategory::Memory);
    assert!(lookup_syscall(14).is_none());
    assert!(lookup_syscall(16).is_none());
    assert!(lookup_syscall(28).is_none());
    assert_eq!(SyscallCategory::Network.index(), 3);
    assert_eq!(SyscallCategory::FileIO.label(), "File I/O");
}

#[test]
fn counters_count_known_calls_only() {
    let mut c = SyscallCounters::new();
    hook(&mut c, 1, 0);
    hook(&mut c, 1, 0);
    hook(&mut c, 19, -1);
    hook(&mut c, 14, 0);
    hook(&mut c, 999, 0);
    assert_eq!(c.get(1), 2);
    assert_eq!(c.get(19), 1);
    assert_eq!(c.get(14), 0);
    assert_eq!(c.get_category(SyscallCategory::FileIO), 2);
    assert_eq!(c.get_category(SyscallCategory::Network), 1);
    assert_eq!(c.total(), 3);
}

#[test]
fn rates_are_growth_since_the_snapshot() {
    let mut c = SyscallCounters::new();
    let mut snapshot = vec![0u64; 5];
    let mut rates = vec![0u64; 5];
    c.increment(0);
    c.increment(4);
    update_rates(&c, &mut snapshot, &mut rates);
    assert_eq!(rates, vec![1, 0, 1, 0, 0]);
    assert_eq!(snapshot, vec![1, 0, 1, 0, 0]);
    c.increment(2);
    update_rates(&c, &mut snapshot, &mut rates);
    assert_eq!(rates, vec![1, 0, 0, 0, 0]);
    // a snapshot above the count gives no negative rate
    let mut high = vec![100u64; 5];
    update_rates(&c, &mut high, &mut rates);
    assert_eq!(rates, vec![0, 0, 0, 0, 0]);
}

#[test]
fn ranking_puts_busiest_first() {
    let mut c = SyscallCounters::new();
    for _ in 0..3 {
        c.increment(22);
    }
    c.increment(1);
    c.increment(9);
    let ranked = ranked_syscalls(&c);
    assert_eq!(ranked.len(), 28);
    assert_eq!(ranked[0], (22, 3));
    assert_eq!(ranked[1], (1, 1));
    assert_eq!(ranked[2], (9, 1));
    assert_eq!(ranked[3], (0, 0));
    assert_eq!(ranked[27], (27, 0));
}

#[test]
fn count_labels() {
    assert_eq!(format_count(9_999), CountLabel::Plain(9_999));
    assert_eq!(format_count(12_345), CountLabel::Kilo(12, 3));
    assert_eq!(format_count(2_500_000), CountLabel::Mega(2, 5));
    assert_eq!(format_count(7_100_000_000), CountLabel::Giga(7, 1));
}
