use vstd::prelude::*;

verus! {

/// A value that is read and written whole, every time.
#[derive(Debug, Clone, Copy)]
pub struct Volatile<T: Copy>(pub T);

impl<T: Copy> Volatile<T> {
    pub fn new(value: T) -> (res: Self)
        ensures
            res.0 == value,
    {
        Volatile(value)
    }

    pub fn read(&self) -> (res: T)
        ensures
            res == self.0,
    {
        self.0
    }

    pub fn write(&mut self, value: T)
        ensures
            final(self).0 == value,
    {
        self.0 = value;
    }
}

} // verus!
