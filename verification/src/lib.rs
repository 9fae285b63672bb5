//! Verified core logic of a small x86_64 hobby kernel: network packet
//! codecs and socket state, FAT and path handling, the virtual file system,
//! frame bitmaps, page table entries and task scheduling.
#![allow(unused_imports)]

pub mod codec;
pub mod error;
pub mod fs;
pub mod graphics;
pub mod text;
pub mod mem;
pub mod mem_vis;
pub mod net;
pub mod net_vis;
pub mod serial;
pub mod sync;
pub mod syscall_vis;
pub mod task;
