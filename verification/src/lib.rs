//! Geotagging library: builds a time-sorted timeline of GPS fixes, linearly
//! interpolates a position for a photo's capture instant, and encodes
//! coordinates as the degree/minute/second rationals that GPS metadata
//! fields require.
//!
//! Coordinates are held as fixed-point integers in units of 1e-7 degree;
//! elevations in millimeters. Timestamps are whole seconds since the Unix
//! epoch, UTC.

pub mod capture;
pub mod dms;
pub mod geotag;
pub mod interp;
pub mod sorting;
pub mod timeparse;
pub mod timepoint;
