use vstd::prelude::*;

verus! {

/// What a FAT entry says of its cluster.
#[derive(Debug, Clone, Copy, PartialEq, Eq, Structural)]
pub enum ClusterType {
    Free,
    Reserved,
    Data(usize),
    Bad(usize),
    EndOfChain,
}

} // verus!
