use vstd::prelude::*;
use crate::error::Error;

verus! {

/// Identifies a file of the linked-list file tree.
#[derive(Debug, Clone, Copy, PartialEq, Eq, Structural)]
pub struct FileId(pub usize);

impl FileId {
    /// The next fresh id from a counter.
    pub fn new(next: &mut usize) -> (res: Self)
        requires
            *old(next) < usize::MAX,
        ensures
            res.0 == *old(next),
            *final(next) == *old(next) + 1,
    {
        let id = FileId(*next);
        *next = *next + 1;
        id
    }

    pub fn new_val(value: usize) -> (res: Self)
        ensures
            res.0 == value,
    {
        FileId(value)
    }

    pub fn get(&self) -> (res: usize)
        ensures
            res == self.0,
    {
        self.0
    }
}

/// A 64-bit file descriptor number.
#[derive(Debug, Clone, Copy, PartialEq, Eq, Structural)]
pub struct FileDescriptorNumber(pub u64);

impl FileDescriptorNumber {
    /// The next fresh number from a counter.
    pub fn new(next: &mut u64) -> (res: Self)
        requires
            *old(next) < u64::MAX,
        ensures
            res.0 == *old(next),
            *final(next) == *old(next) + 1,
    {
        let n = FileDescriptorNumber(*next);
        *next = *next + 1;
        n
    }

    /// A number from a signed value; negative values are refused.
    pub fn new_val(value: i64) -> (res: Result<Self, Error>)
        ensures
            value < 0 <==> res is Err,
            res matches Ok(n) ==> n.0 == value,
            res matches Err(e) ==> e == Error::Failed("Invalid file descriptor number"),
    {
        if value < 0 {
            return Err(Error::Failed("Invalid file descriptor number"));
        }
        Ok(FileDescriptorNumber(value as u64))
    }

    pub fn get(&self) -> (res: u64)
        ensures
            res == self.0,
    {
        self.0
    }
}

#[derive(Debug, Clone, Copy, PartialEq, Eq, Structural)]
pub enum Status {
    Open,
    Close,
}

/// An open file of the linked-list file tree.
#[derive(Debug, Clone, Copy)]
pub struct FileDescriptor {
    pub num: FileDescriptorNumber,
    pub status: Status,
    pub file_id: FileId,
}

} // verus!
