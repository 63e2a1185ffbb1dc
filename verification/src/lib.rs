//! Model-processing pipeline: validates a geometric model, derives a
//! triangulation tolerance from its bounding volume, triangulates it, and
//! hands the mesh to an exporter or a viewer.
//!
//! Lengths are fixed-point values with nine decimal places: one unit is
//! `1_000_000_000` nanos.

mod aabb;
mod args;
mod decimal;
mod error;
mod instance;
mod tolerance;

pub use aabb::pos_min;
pub use aabb::Aabb;
pub use aabb::Point3;
pub use args::initial_model;
pub use args::parse_tolerance;
pub use args::run_args;
pub use args::Args;
pub use args::ArgsError;
pub use args::ArgsIssue;
pub use args::ArgsModel;
pub use decimal::dec_digits;
pub use decimal::is_decimal_literal;
pub use decimal::literal_nanos;
pub use decimal::mantissa_nanos;
pub use decimal::mantissa_part;
pub use decimal::parse_nanos;
pub use decimal::u64_to_dec;
pub use decimal::ParseRealError;
pub use error::numbered_chain;
pub use error::report;
pub use error::report_view;
pub use error::Cause;
pub use error::Error;
pub use error::ValidationErrors;
pub use instance::BoundingVolume;
pub use instance::Core;
pub use instance::Instance;
pub use instance::Layers;
pub use instance::MeshSink;
pub use instance::Triangle;
pub use instance::Triangulate;
pub use instance::TriMesh;
pub use instance::Validation;
pub use instance::ValidationConfig;
pub use tolerance::InvalidTolerance;
pub use tolerance::Tolerance;
pub use tolerance::NANOS_PER_UNIT;
