pub mod paging;
pub mod bitmap;
pub mod frame_collection;
pub mod allocator;
