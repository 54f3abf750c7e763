//! Game-side logic of a small tile-based web game: sprite animation state,
//! the drawing layers, text alignment codes and audio requests. The host
//! program (event loop, JavaScript calls, frame timing) drives these values.

pub mod animation;
pub mod audio;
pub mod tgl;
