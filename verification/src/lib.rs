//! Location-estimation engine for a bounded physical area ("zone").
//!
//! Mobile devices report pairwise distance ("ranging") measurements; the zone
//! keeps a bounded history of samples per device pair and a bounded history of
//! position estimates per device, and turns fresh ranging data into updated
//! position estimates through a pluggable estimator seam.
//!
//! Coordinates and distances are fixed-point integers in hundredths of a unit,
//! so every rule of the engine is stated and proved exactly.

pub mod device;
pub mod laws;
pub mod measure;
pub mod trace;
pub mod zone;

pub use device::{Device, DeviceData, DeviceDataView};
pub use measure::{Measure, MeasureList, MeasureListView};
pub use trace::{
    check_fresh, Trace, COORD_LIMIT, COORD_SCALE, MEASURE_DEPTH, POSITION_TRACE_DEPTH,
    STALE_LIMIT, STEP_X, STEP_Y, WRAP_LIMIT,
};
pub use zone::{init, UpdateKind, Zone, ZoneError, ZoneView};
