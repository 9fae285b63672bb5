pub mod fat;
pub mod file;
pub mod initramfs;
pub mod path;
pub mod vfs;
