//! Decoder for the run-length compressed GRIB2 grid product (one fixed
//! 1 km mesh profile): section parsing, run-length expansion and the raster
//! walk that turns the compressed levels into coordinate/value rows.

pub mod boundary;
pub mod datetime;
pub mod error;
pub mod grid;
pub mod lattice;
pub mod reader;
pub mod run_length;
pub mod sections;
pub mod session;
pub mod walker;

pub use boundary::{Boundary, BoundaryBuilder};
pub use datetime::ReferenceTime;
pub use error::{Field, Grib2Error};
pub use grid::{CompressionParams, GridGeometry, GridValue};
pub use lattice::move_lattice_for_missing_values;
pub use run_length::expand_run_length;
pub use session::Grib2Csv;
pub use walker::walk_run_lengths;
