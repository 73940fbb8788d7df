//! A one-scene canvas library: a fixed 800 x 600 drawing surface is cleared
//! to a dark background and one rectangle is filled on top of it. The library
//! holds the scene's constants, the command list a paint pass issues, and a
//! pixel-buffer renderer that gives those commands their meaning; the
//! windowing toolkit around it only carries the commands onto the screen.

pub mod color;
pub mod pixmap;
pub mod scene;
