pub mod color;
pub mod console;
pub mod draw;
pub mod font;
pub mod frame_buf;
pub mod geometry;
pub mod multi_layer;
pub mod window_manager;
pub mod terminal;
