use lib::error::Error;
use lib::mem::bitmap::{init, Bitmap, BitmapMemoryManager, BitmapMemoryManagerError, MemoryDescriptor};
use lib::mem::frame_collection::FrameVec;
use lib::mem::paging::page_table::{EntryMode, PageTableEntry, PageWriteThroughLevel, ReadWrite};

/// One usable region of 63 frames starting at frame 1: 65 frames in all,
/// a bitmap of 8 bytes placed in frame 1.
fn small_map() -> Vec<MemoryDescriptor> {
    vec![MemoryDescriptor { phys_start: 0x1000, page_cnt: 63, available: true }]
}

fn ready() -> BitmapMemoryManager {
    let mut bmm = BitmapMemoryManager::new();
    assert!(init(&mut bmm, &small_map()).is_ok());
    bmm
}

fn is_allocated(bmm: &BitmapMemoryManager, frame: usize) -> bool {
    bmm.get_mem_frame(frame).unwrap().is_allocated
}

#[test]
fn bitmap_get_and_set() {
    let mut b = Bitmap(0);
    assert!(b.is_free_all());
    assert!(b.set(3, true).is_ok());
    assert_eq!(b.0, 0b0000_1000);
    assert_eq!(b.get(3).unwrap(), true);
    assert_eq!(b.get(2).unwrap(), false);
    assert!(matches!(b.get(8), Err(Error::IndexOutOfBoundsError(8))));
    assert!(matches!(b.set(9, true), Err(Error::IndexOutOfBoundsError(9))));
    b.fill(true);
    assert!(b.is_allocated_all());
    assert!(b.set(0, false).is_ok());
    assert_eq!(b.0, 0xfe);
}

#[test]
fn init_sizes_the_allocator_from_the_map() {
    let bmm = ready();
    assert_eq!(bmm.total_frame_len, 65);
    assert_eq!(bmm.bitmap_len(), 8);
    assert_eq!(bmm.bitmap_phys_addr, Some(0x1000));
    assert_eq!(bmm.get_total_mem_size(), 65 * 4096);
    // frame 1 holds the bitmap itself
    assert_eq!(bmm.get_mem_size(), (4096, 63 * 4096));
    assert!(is_allocated(&bmm, 0));
    assert!(is_allocated(&bmm, 1));
    assert!(!is_allocated(&bmm, 2));
    assert!(!is_allocated(&bmm, 63));
    assert!(bmm.get_mem_frame(64).is_none());
    assert_eq!(bmm.free_frame_len, 62);
    assert_eq!(bmm.allocated_frame_len, 3);
}

#[test]
fn first_free_frame_is_allocated() {
    let mut bmm = ready();
    let info = bmm.alloc_single_mem_frame().unwrap();
    assert_eq!(info.frame_index, 2);
    assert_eq!(info.frame_start_phys_addr, 0x2000);
    assert_eq!(info.frame_size, 4096);
    assert!(info.is_allocated);
    assert!(is_allocated(&bmm, 2));
    assert_eq!(bmm.get_mem_size().0, 2 * 4096);
    let next = bmm.alloc_multi_mem_frame(1).unwrap();
    assert_eq!(next.frame_index, 3);
}

#[test]
fn alloc_then_dealloc_restores_the_allocator() {
    let mut bmm = ready();
    let bitmap_before = bmm.bitmap.clone();
    let free_before = bmm.free_frame_len;
    let used_before = bmm.get_mem_size();
    let info = bmm.alloc_single_mem_frame().unwrap();
    assert_eq!(bmm.free_frame_len, free_before - 1);
    assert!(bmm.dealloc_mem_frame(info).is_ok());
    assert_eq!(bmm.bitmap, bitmap_before);
    assert_eq!(bmm.free_frame_len, free_before);
    assert_eq!(bmm.get_mem_size(), used_before);
}

#[test]
fn multi_frame_allocation_takes_a_run() {
    let mut bmm = ready();
    let info = bmm.alloc_multi_mem_frame(3).unwrap();
    assert_eq!(info.frame_index, 2);
    assert_eq!(info.frame_size, 3 * 4096);
    assert_eq!(info.frame_start_phys_addr, 0x2000);
    for frame in 2..5 {
        assert!(is_allocated(&bmm, frame));
    }
}

#[test]
fn a_whole_free_byte_serves_eight_frames() {
    let mut bmm = ready();
    let info = bmm.alloc_multi_mem_frame(8).unwrap();
    assert_eq!(info.frame_index, 8);
    assert_eq!(info.frame_size, 8 * 4096);
    for frame in 8..16 {
        assert!(is_allocated(&bmm, frame));
    }
    assert!(!is_allocated(&bmm, 2));
}

#[test]
fn allocation_errors() {
    let mut bmm = ready();
    assert!(matches!(
        bmm.alloc_multi_mem_frame(0),
        Err(Error::BitmapMemoryManager(BitmapMemoryManagerError::InvalidMemoryFrameLengthError(0)))
    ));
    assert!(matches!(
        bmm.alloc_multi_mem_frame(1000),
        Err(Error::BitmapMemoryManager(BitmapMemoryManagerError::FreeMemoryFrameWasNotFoundError))
    ));
    assert!(matches!(
        bmm.alloc_frame(1),
        Err(Error::BitmapMemoryManager(BitmapMemoryManagerError::MemoryFrameWasAlreadyAllocatedError(1)))
    ));
    assert!(matches!(
        bmm.dealloc_frame(5),
        Err(Error::BitmapMemoryManager(BitmapMemoryManagerError::MemoryFrameWasAlreadyDeallocatedError(5)))
    ));
    assert!(matches!(bmm.alloc_frame(100), Err(Error::IndexOutOfBoundsError(12))));
}

#[test]
fn uninitialized_allocator_has_nothing_to_give() {
    let mut bmm = BitmapMemoryManager::new();
    assert!(matches!(
        bmm.alloc_single_mem_frame(),
        Err(Error::BitmapMemoryManager(BitmapMemoryManagerError::FreeMemoryFrameWasNotFoundError))
    ));
    assert_eq!(bmm.get_total_mem_size(), 0);
}

#[test]
fn frame_vec_push_index_and_full() {
    let mut bmm = ready();
    let mut v: FrameVec<u64> = FrameVec::new(&mut bmm, 2, 0).unwrap();
    assert_eq!(v.capacity(), 2);
    assert_eq!(v.len(), 0);
    assert_eq!(v.mem_frame_info.frame_size, 4096);
    assert!(v.push(11).is_ok());
    assert!(v.push(22).is_ok());
    assert_eq!(v.len(), 2);
    assert_eq!(v.index(0), 11);
    assert_eq!(v.index(1), 22);
    assert!(matches!(v.push(33), Err(Error::IndexOutOfBoundsError(2))));
    v.clear();
    assert_eq!(v.len(), 0);
    assert!(matches!(v.pop(), Ok(None)));
    assert!(v.release(&mut bmm).is_ok());
}

#[test]
fn frame_vec_pop_gives_the_slot_past_the_last_element() {
    let mut bmm = ready();
    let mut v: FrameVec<u32> = FrameVec::new(&mut bmm, 3, 7).unwrap();
    assert!(v.push(1).is_ok());
    // the slot at the length still holds the blank value
    assert!(matches!(v.pop(), Ok(Some(7))));
    assert_eq!(v.len(), 0);
    assert!(v.fill(9).is_ok());
    assert!(v.push(5).is_ok());
    assert!(matches!(v.pop(), Ok(Some(9))));
}

#[test]
fn released_frame_vec_frees_its_frames() {
    let mut bmm = ready();
    let v: FrameVec<u64> = FrameVec::new(&mut bmm, 1024, 0).unwrap();
    let first = v.mem_frame_info.frame_index;
    assert_eq!(v.mem_frame_info.frame_size, 2 * 4096);
    assert!(is_allocated(&bmm, first) && is_allocated(&bmm, first + 1));
    assert!(v.release(&mut bmm).is_ok());
    assert!(!is_allocated(&bmm, first) && !is_allocated(&bmm, first + 1));
}

#[test]
fn page_table_entry_takes_any_address() {
    let mut e = PageTableEntry(0);
    e.set_entry(0x1234_5000, false, ReadWrite::Write, EntryMode::User, PageWriteThroughLevel::WriteBack);
    assert_eq!(e.0, 0x1234_50a7);
    assert_eq!(e.addr(), 0x1234_5000);
    // the low bits of an unaligned address are or-ed into the flags
    let mut u = PageTableEntry(0);
    u.set_entry(0x1234_5010, true, ReadWrite::Read, EntryMode::Supervisor, PageWriteThroughLevel::WriteThrough);
    assert_eq!(u.0, 0x1234_5039);
    // bits above the address field are dropped
    let mut h = PageTableEntry(0);
    h.set_entry(0xfff8_0000_0000_1000, false, ReadWrite::Write, EntryMode::User, PageWriteThroughLevel::WriteBack);
    assert_eq!(h.0, 0x10a7);
}
