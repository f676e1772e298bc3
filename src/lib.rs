//! Verified core of a media gateway for 16-colour, 1-bit-audio clients: median-cut
//! palettes, DFPWM encoding, frame sizing and the decisions of the decode loop.
pub mod decoder;
pub mod dfpwm;
pub mod dimensions;
pub mod palette;
pub mod raster;
pub mod web;
