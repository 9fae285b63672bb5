use lib::error::Error;
use lib::mem::allocator::{
    align_down_size, align_up_size, is_power_of_two, AllocationError, Heap, HoleInfo, HoleList, Layout,
};

fn hole(addr: usize, size: usize) -> HoleInfo {
    HoleInfo { addr, size }
}

#[test]
fn powers_of_two() {
    assert!(!is_power_of_two(0));
    assert!(is_power_of_two(1));
    assert!(is_power_of_two(64));
    assert!(!is_power_of_two(6));
    assert!(is_power_of_two(1 << 63));
}

#[test]
fn layouts() {
    assert_eq!(Layout::from_size_align(10, 8), Some(Layout { size: 10, align: 8 }));
    assert_eq!(Layout::from_size_align(10, 3), None);
    assert_eq!(Layout::from_size_align(10, 0), None);
    assert_eq!(Layout::from_size_align(isize::MAX as usize, 2), None);
    assert_eq!(Layout::from_size_align(isize::MAX as usize, 1), Some(Layout { size: isize::MAX as usize, align: 1 }));
}

#[test]
fn rounding_sizes() {
    assert_eq!(align_down_size(13, 8), 8);
    assert_eq!(align_down_size(13, 0), 13);
    assert_eq!(align_up_size(13, 8), 16);
    assert_eq!(align_up_size(16, 8), 16);
}

#[test]
fn new_list_trims_to_eight_byte_boundaries() {
    let list = HoleList::new(0x1003, 0x1000);
    assert_eq!(list.holes, vec![hole(0x1008, 0xff8)]);
    assert_eq!(list.bottom, 0x1008);
    assert_eq!(list.top, 0x2000);
}

#[test]
fn first_fit_cuts_blocks_and_freeing_restores_the_hole() {
    let mut list = HoleList::new(0x1000, 0x1000);
    // a small request takes a hole's room, 16 bytes, from the front
    let (a, l) = list.alloc_first_fit(Layout { size: 10, align: 8 }).unwrap();
    assert_eq!((a, l), (0x1000, Layout { size: 16, align: 8 }));
    assert_eq!(list.holes, vec![hole(0x1010, 0xff0)]);
    // an aligned request leaves a hole in front of the block
    let (b, l2) = list.alloc_first_fit(Layout { size: 32, align: 64 }).unwrap();
    assert_eq!((b, l2), (0x1040, Layout { size: 32, align: 64 }));
    assert_eq!(list.holes, vec![hole(0x1010, 0x30), hole(0x1060, 0xfa0)]);
    // freeing the aligned block merges the three pieces again
    assert_eq!(list.dealloc(0x1040, Layout { size: 32, align: 64 }).unwrap(), l2);
    assert_eq!(list.holes, vec![hole(0x1010, 0xff0)]);
    // freeing the first block restores the whole heap
    assert!(list.dealloc(0x1000, Layout { size: 10, align: 8 }).is_ok());
    assert_eq!(list.holes, vec![hole(0x1000, 0x1000)]);
}

#[test]
fn freeing_between_holes_keeps_them_apart() {
    let mut list = HoleList::new(0x1000, 0x100);
    let a = list.alloc_first_fit(Layout { size: 16, align: 8 }).unwrap().0;
    let b = list.alloc_first_fit(Layout { size: 16, align: 8 }).unwrap().0;
    let c = list.alloc_first_fit(Layout { size: 16, align: 8 }).unwrap().0;
    assert_eq!((a, b, c), (0x1000, 0x1010, 0x1020));
    assert_eq!(list.holes, vec![hole(0x1030, 0xd0)]);
    // freeing b makes a hole between a and c
    assert!(list.dealloc(b, Layout { size: 16, align: 8 }).is_ok());
    assert_eq!(list.holes, vec![hole(0x1010, 0x10), hole(0x1030, 0xd0)]);
    // freeing c joins b's hole and the rest
    assert!(list.dealloc(c, Layout { size: 16, align: 8 }).is_ok());
    assert_eq!(list.holes, vec![hole(0x1010, 0xf0)]);
    // the hole left by b is found first again
    assert_eq!(list.alloc_first_fit(Layout { size: 8, align: 1 }).unwrap().0, 0x1010);
}

#[test]
fn heap_allocation_errors() {
    let mut empty = HoleList::empty();
    assert!(matches!(
        empty.alloc_first_fit(Layout { size: 8, align: 8 }),
        Err(Error::Failed("No cursor"))
    ));
    let mut list = HoleList::new(0x1000, 0x40);
    assert!(matches!(
        list.alloc_first_fit(Layout { size: 0x100, align: 8 }),
        Err(Error::Failed("No next cursor"))
    ));
    // a remainder too small for a hole is not cut off
    assert!(matches!(
        list.alloc_first_fit(Layout { size: 0x38, align: 8 }),
        Err(Error::Failed("No next cursor"))
    ));
    assert_eq!(list.holes, vec![hole(0x1000, 0x40)]);
    let huge = Layout { size: isize::MAX as usize - 3, align: 1 };
    assert!(matches!(
        list.alloc_first_fit(huge),
        Err(Error::Allocation(AllocationError::LayoutError(l))) if l == huge
    ));
}

#[test]
fn heap_counts_bytes_in_use() {
    let mut heap = Heap::empty();
    heap.init(0x10000, 0x10000);
    assert_eq!(heap.used, 0);
    let a = heap.alloc_first_fit(Layout { size: 100, align: 16 }).unwrap();
    assert_eq!(a, 0x10000);
    assert_eq!(heap.used, 104);
    let b = heap.alloc_first_fit(Layout { size: 1, align: 1 }).unwrap();
    assert_eq!(b, 0x10068);
    assert_eq!(heap.used, 120);
    assert!(heap.dealloc(a, Layout { size: 100, align: 16 }).is_ok());
    assert!(heap.dealloc(b, Layout { size: 1, align: 1 }).is_ok());
    assert_eq!(heap.used, 0);
    assert_eq!(heap.holes.holes, vec![hole(0x10000, 0x10000)]);
}
