//! Driver for the IS31FL3728 LED-matrix controller on a two-wire serial bus.
//!
//! The driver turns column data, bitmaps and lighting settings into register
//! writes. Every write that it hands to the bus is recorded in a ghost log, and
//! the contracts of its operations state that log exactly.

pub mod bitmap;
pub mod driver;
pub mod error;
pub mod levels;
pub mod raster;
pub mod registers;
pub mod transport;

pub use error::DriverError;
pub use levels::{AudioInputGain, LightingIntensity, MatrixDimensions};
pub use transport::Transfer;
pub use driver::{IS31FL3728, Settings};
pub use registers::{DEFAULT_AUDIO_INPUT_GAIN, DEFAULT_LIGHTING_INTENSITY, MAX_COLUMNS};
pub use raster::Pixel;
