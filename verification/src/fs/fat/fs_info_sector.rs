use vstd::prelude::*;

verus! {

/// The FAT32 FSInfo sector.
#[derive(Debug)]
pub struct FsInfoSector {
    pub sign0: u32,
    pub reserved0: Vec<u8>,
    pub sign1: u32,
    /// free clusters count
    pub free_cnt: [u8; 4],
    /// next free cluster number
    pub next_free: [u8; 4],
    pub reserved1: [u8; 12],
    pub sign2: u32,
}

} // verus!
