//! Verified core of a note painter: strokes drawn over a time/pitch plane are
//! recorded as single-valued polylines, rasterised into a preview bitmap and
//! turned into per-sample tone envelopes.
//!
//! All coordinates are signed fixed-point numbers with sixteen fractional bits
//! (see [`geometry`]), so every rule of the library is stated and proved over
//! integers. Whoever uses the library turns the floating-point numbers of the
//! screen into such coordinates, and the tones it hands out into sound.
//!
//! - [`history`] records strokes and undoes and redoes them;
//!   [`history_laws`] states what holds of every history.
//! - [`raster`] draws straight lines on a pixel grid; [`paint`] is the canvas
//!   that shows a history; [`canvas_laws`] states what holds of every canvas.
//! - [`audio`] builds the envelopes of the strokes and plays them in step;
//!   [`audio_laws`] states what holds of them.
//! - [`timeline`] joins the history with the pointer gesture and playback.
//! - [`engine`] holds the whole-number side of windows and vertex layouts.

pub mod geometry;
pub mod history;
pub mod history_laws;
pub mod raster;
pub mod paint;
pub mod canvas_laws;
pub mod audio;
pub mod audio_laws;
pub mod timeline;
pub mod engine;
