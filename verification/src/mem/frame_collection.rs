use vstd::prelude::*;
use crate::error::Error;
use crate::mem::bitmap::{alloc_error, alloc_start, first_bad, first_free_from, frame_info, frames_set, BitmapMemoryManagerError, BitmapMemoryManager, MemoryFrameInfo, PAGE_SIZE};

verus! {

/// A vector of fixed capacity whose slots live in frames taken from the
/// frame allocator. The slots hold whatever they were last set to.
#[derive(Debug)]
pub struct FrameVec<T: Copy> {
    pub mem_frame_info: MemoryFrameInfo,
    pub len: usize,
    pub capacity: usize,
    /// the `capacity` slots of the frames
    pub slots: Vec<T>,
}

impl<T: Copy> FrameVec<T> {
    /// There is one slot per unit of capacity, and no more elements than
    /// slots.
    pub open spec fn wf(&self) -> bool {
        &&& self.slots@.len() == self.capacity
        &&& self.len <= self.capacity
    }

    /// The elements: the slots up to the length.
    pub open spec fn view(&self) -> Seq<T> {
        self.slots@.take(self.len as int)
    }

    /// An empty vector of `capacity` slots, each set to `blank`, in frames
    /// enough for them taken from `bmm`.
    pub fn new(bmm: &mut BitmapMemoryManager, capacity: usize, blank: T) -> (res: Result<Self, Error>)
        requires
            old(bmm).wf(),
            vstd::layout::size_of::<T>() * capacity + 4096 <= usize::MAX,
            (vstd::layout::size_of::<T>() * capacity + 4095) / 4096 == 1 && old(bmm).free_frame_len > 0
                ==> first_free_from(old(bmm).bitmap@, 1) is Some,
        ensures
            final(bmm).wf(),
            match res {
                Ok(v) => v.wf() && v.len == 0 && v.capacity == capacity && v.slots@ == Seq::new(
                    capacity as nat,
                    |i: int| blank,
                ) && v.mem_frame_info.frame_size == 4096 * ((vstd::layout::size_of::<T>() * capacity + 4095)
                    / 4096),
                Err(_) => *final(bmm) == *old(bmm),
            },
            ({
                let n = (vstd::layout::size_of::<T>() * capacity + 4095) / 4096;
                match alloc_start(*old(bmm), n) {
                    Some(s) => res is Ok && res->Ok_0.mem_frame_info == frame_info(s, n),
                    None => res == Err::<Self, Error>(alloc_error(n)),
                }
            }),
    {
        let size = core::mem::size_of::<T>();
        assert(size * capacity == vstd::layout::size_of::<T>() * capacity);
        let alloc_len = (size * capacity + PAGE_SIZE - 1) / PAGE_SIZE;
        let mem_frame_info = match bmm.alloc_multi_mem_frame(alloc_len) {
            Ok(info) => info,
            Err(e) => return Err(e),
        };
        let mut slots: Vec<T> = Vec::new();
        while slots.len() < capacity
            invariant
                slots.len() <= capacity,
                slots@ == Seq::new(slots@.len(), |i: int| blank),
            decreases capacity - slots.len(),
        {
            slots.push(blank);
            assert(slots@ =~= Seq::new(slots@.len(), |i: int| blank));
        }
        Ok(FrameVec { mem_frame_info, len: 0, capacity, slots })
    }

    pub fn len(&self) -> (res: usize)
        ensures
            res == self.len,
    {
        self.len
    }

    pub fn capacity(&self) -> (res: usize)
        ensures
            res == self.capacity,
    {
        self.capacity
    }

    /// Empties the vector; the slots keep their values.
    pub fn clear(&mut self)
        ensures
            final(self).len == 0,
            final(self).capacity == old(self).capacity,
            final(self).slots@ == old(self).slots@,
            final(self).mem_frame_info == old(self).mem_frame_info,
    {
        self.len = 0;
    }

    /// Sets every slot, in use or not, to `value`.
    pub fn fill(&mut self, value: T) -> (res: Result<(), Error>)
        requires
            old(self).wf(),
        ensures
            res is Ok,
            final(self).wf(),
            final(self).len == old(self).len,
            final(self).capacity == old(self).capacity,
            final(self).mem_frame_info == old(self).mem_frame_info,
            final(self).slots@ == Seq::new(old(self).capacity as nat, |i: int| value),
    {
        let mut i: usize = 0;
        while i < self.capacity
            invariant
                i <= self.capacity,
                self.wf(),
                self.len == old(self).len,
                self.capacity == old(self).capacity,
                self.mem_frame_info == old(self).mem_frame_info,
                forall|j: int| 0 <= j < i ==> self.slots@[j] == value,
            decreases self.capacity - i,
        {
            self.slots.set(i, value);
            i = i + 1;
        }
        assert(self.slots@ =~= Seq::new(old(self).capacity as nat, |i: int| value));
        Ok(())
    }

    /// Appends an element; fails when the vector is full.
    pub fn push(&mut self, value: T) -> (res: Result<(), Error>)
        requires
            old(self).wf(),
        ensures
            final(self).wf(),
            final(self).capacity == old(self).capacity,
            final(self).mem_frame_info == old(self).mem_frame_info,
            old(self).len >= old(self).capacity ==> res == Err::<(), Error>(Error::IndexOutOfBoundsError(old(self).len))
                && *final(self) == *old(self),
            old(self).len < old(self).capacity ==> res is Ok && final(self).len == old(self).len + 1
                && final(self).slots@ == old(self).slots@.update(old(self).len as int, value),
    {
        if self.len >= self.capacity {
            return Err(Error::IndexOutOfBoundsError(self.len));
        }
        self.slots.set(self.len, value);
        self.len = self.len + 1;
        Ok(())
    }

    /// Takes the length down by one and gives the slot at the old length,
    /// the one just past the last element; fails when that slot is past the
    /// capacity.
    pub fn pop(&mut self) -> (res: Result<Option<T>, Error>)
        requires
            old(self).wf(),
        ensures
            final(self).wf(),
            final(self).capacity == old(self).capacity,
            final(self).slots@ == old(self).slots@,
            final(self).mem_frame_info == old(self).mem_frame_info,
            old(self).len == 0 ==> res == Ok::<Option<T>, Error>(None) && final(self).len == 0,
            old(self).len != 0 && old(self).len >= old(self).capacity ==> res == Err::<Option<T>, Error>(
                Error::IndexOutOfBoundsError(old(self).len),
            ) && final(self).len == old(self).len,
            old(self).len != 0 && old(self).len < old(self).capacity ==> res == Ok::<Option<T>, Error>(
                Some(old(self).slots@[old(self).len as int]),
            ) && final(self).len == old(self).len - 1,
    {
        if self.len == 0 {
            return Ok(None);
        }
        if self.len >= self.capacity {
            return Err(Error::IndexOutOfBoundsError(self.len));
        }
        let value = self.slots[self.len];
        self.len = self.len - 1;
        Ok(Some(value))
    }

    /// The element at `index`, which must be below the length.
    pub fn index(&self, index: usize) -> (res: T)
        requires
            self.wf(),
            index < self.len,
        ensures
            res == self.slots@[index as int],
    {
        self.slots[index]
    }

    /// Gives the frames back to `bmm`: the run of the vector's frames is
    /// freed up to the first frame past the bitmap or already free.
    pub fn release(self, bmm: &mut BitmapMemoryManager) -> (res: Result<(), Error>)
        requires
            old(bmm).wf(),
            self.mem_frame_info.frame_index + self.mem_frame_info.frame_size / 4096 <= usize::MAX,
            old(bmm).allocated_frame_len_in_available_mem >= self.mem_frame_info.frame_size / 4096,
        ensures
            final(bmm).wf(),
            final(bmm).total_frame_len == old(bmm).total_frame_len,
            final(bmm).total_available_mem_size == old(bmm).total_available_mem_size,
            final(bmm).bitmap_phys_addr == old(bmm).bitmap_phys_addr,
            ({
                let lo = self.mem_frame_info.frame_index as int;
                let hi = self.mem_frame_info.frame_index + self.mem_frame_info.frame_size / 4096;
                match first_bad(old(bmm).bitmap@, lo, hi) {
                    None => res is Ok && frames_set(old(bmm).bitmap@, final(bmm).bitmap@, lo, hi, false),
                    Some(b) => frames_set(old(bmm).bitmap@, final(bmm).bitmap@, lo, b, false) && if b / 8
                        >= old(bmm).bitmap@.len() {
                        res == Err::<(), Error>(Error::IndexOutOfBoundsError((b / 8) as usize))
                    } else {
                        res == Err::<(), Error>(
                            Error::BitmapMemoryManager(
                                BitmapMemoryManagerError::MemoryFrameWasAlreadyDeallocatedError(b as usize),
                            ),
                        )
                    },
                }
            }),
    {
        bmm.dealloc_mem_frame(self.mem_frame_info)
    }
}

} // verus!
