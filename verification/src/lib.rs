//! Pixel-buffer logic of a UEFI graphics demo: animation frames, a colour
//! test pattern, bitmap-font text rendering (monochrome and 8-level gray),
//! a canvas for anti-aliased text, and the keyboard echo loop.

pub mod frame;
pub mod pixel;
pub mod text_data;
pub mod mono;
pub mod gray;
pub mod canvas;
pub mod label;
pub mod keys;


