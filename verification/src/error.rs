use vstd::prelude::*;
use crate::fs::vfs::VirtualFileSystemError;
use crate::graphics::multi_layer::LayerError;
use crate::mem::bitmap::BitmapMemoryManagerError;
use crate::mem::allocator::AllocationError;
use crate::graphics::draw::canvas::DrawError;
use crate::graphics::window_manager::WindowManagerError;

verus! {

/// Errors reported by the library.
#[derive(Debug)]
pub enum Error {
    NotInitialized,
    InvalidBufferSize { required: usize, actual: usize },
    InvalidData,
    BufferEmpty,
    Vfs(VirtualFileSystemError),
    Layer(LayerError),
    WindowManager(WindowManagerError),
    IndexOutOfBoundsError(usize),
    IndexOutOfBounds { index: usize, len: Option<usize> },
    BitmapMemoryManager(BitmapMemoryManagerError),
    Allocation(AllocationError),
    Draw(DrawError),
    /// an operation that could not go on, with the reason
    Failed(&'static str),
}

} // verus!
