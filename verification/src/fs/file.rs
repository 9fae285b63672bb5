pub mod bitmap;
pub mod gif;
