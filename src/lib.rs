//! Renders a sequence of still images as ASCII-art frames and plans their
//! timed playback in a terminal.
pub mod loader;
pub mod playback;
pub mod quantize;
pub mod raster;
pub mod session;
