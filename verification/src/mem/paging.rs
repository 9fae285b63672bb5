pub mod page_table;

use vstd::prelude::*;
use crate::mem::paging::page_table::PageTableEntry;

verus! {

/// Errors of address translation.
#[derive(Debug, Clone, Copy, PartialEq, Eq, Structural)]
pub enum PageError {
    PageNotMapped,
    AddressNotAlignedByPageSize(u64),
    AddressNotMapped(u64),
}

/// How virtual addresses are mapped to physical ones.
#[derive(Debug, Clone, Copy, PartialEq, Eq, Structural)]
pub enum MappingType {
    Identity,
}

/// Errors of the page manager; addresses are virtual addresses.
#[derive(Debug, Clone, Copy, PartialEq, Eq, Structural)]
pub enum PageManagerError {
    AddressNotMappedError(u64),
    AddressNotAlignedError(u64),
    UnsupportedMappingTypeError(MappingType),
    /// table level, entry
    InvalidPageTableEntryError(usize, PageTableEntry),
}

} // verus!
