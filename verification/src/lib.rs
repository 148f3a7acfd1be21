//! Display and clock logic of a desk clock built on an ESP32 "Cheap Yellow
//! Display": error values, drawing plans for the screen, bitmap decoding,
//! HTTP body handling and the decisions of the clock's main loop.

pub mod bitmap;
pub mod clock;
pub mod color;
pub mod configuration;
pub mod cyd;
pub mod draw;
pub mod utils;
