//! The orchestrator: one instance owns a geometry-kernel handle and runs the
//! pipeline on a model — logger setup, validation gate, bounding-volume
//! query, tolerance derivation, triangulation, then export or display.
//!
//! The kernel, the triangulator, the exporter and the viewer are external
//! collaborators behind narrow interfaces: a model type brings its own
//! bounding-volume and triangulation capabilities, and a sink receives the
//! finished mesh.

use vstd::prelude::*;

use tracing_subscriber::layer::SubscriberExt;
use tracing_subscriber::util::SubscriberInitExt;

use crate::aabb::Aabb;
use crate::aabb::Point3;
use crate::args::Args;
use crate::error::Cause;
use crate::error::Error;
use crate::error::ValidationErrors;
use crate::tolerance::InvalidTolerance;
use crate::tolerance::Tolerance;

verus! {

/// One triangle of a mesh.
#[derive(Clone, Copy, PartialEq, Eq, Structural, Debug)]
pub struct Triangle {
    pub a: Point3,
    pub b: Point3,
    pub c: Point3,
}

/// A triangle mesh: the result of triangulating a model.
pub struct TriMesh {
    /// The triangles of the mesh.
    pub triangles: Vec<Triangle>,
}

/// Capability of a model type: report an axis-aligned bounding box.
///
/// Implementations must return a well-formed box, or none when the model
/// cannot report one (an empty model, say).
pub trait BoundingVolume {
    /// The model's bounding box, if it has one.
    fn aabb(&self) -> (r: Option<Aabb>)
        ensures
            r matches Some(b) ==> b.wf(),
    ;
}

/// Capability of a model type: triangulate itself to within a tolerance.
pub trait Triangulate {
    /// Approximate the model by a triangle mesh, deviating from the real
    /// geometry by at most the tolerance.
    fn triangulate(&self, tolerance: Tolerance) -> TriMesh;
}

/// Where a finished mesh goes: a file exporter and an interactive viewer.
///
/// Either operation reports failure as a [`Cause`], which the pipeline wraps
/// into its own error.
pub trait MeshSink {
    /// Write the mesh to the given path.
    fn export(&mut self, mesh: &TriMesh, path: &String) -> Result<(), Cause>;

    /// Hand the mesh to an interactive viewer and return when the session
    /// concludes.
    fn spawn_and_display(&mut self, mesh: TriMesh) -> Result<(), Cause>;
}

/// Configuration of the geometry kernel's validation checks.
///
/// The knobs themselves belong to the kernel and are out of scope at this
/// layer: the configuration is carried to the kernel, not interpreted here.
#[derive(Clone, Copy, PartialEq, Eq, Structural, Debug)]
pub struct ValidationConfig {
    /// Whether the kernel records violations at all.
    pub enabled: bool,
}

/// The kernel's validation layer: its configuration and the consistency
/// violations accumulated so far.
pub struct Validation {
    /// How the kernel validates.
    pub config: ValidationConfig,
    /// Violations recorded since the last drain, oldest first.
    pub errors: Vec<String>,
}

impl Validation {
    /// An empty validation layer with the given configuration.
    pub fn with_config(config: ValidationConfig) -> (v: Validation)
        ensures
            v.config == config,
            v.errors@.len() == 0,
    {
        Validation { config, errors: Vec::new() }
    }

    /// Record one violation.
    pub fn record_error(&mut self, message: String)
        ensures
            final(self).errors@ == old(self).errors@.push(message),
            final(self).config == old(self).config,
    {
        self.errors.push(message);
    }

    /// Drain the accumulated violations: afterwards none are left. Returns
    /// them as an error when there was at least one, success otherwise.
    pub fn take_errors(&mut self) -> (r: Result<(), ValidationErrors>)
        ensures
            final(self).errors@.len() == 0,
            final(self).config == old(self).config,
            old(self).errors@.len() == 0 <==> r is Ok,
            (r matches Err(ve) ==> ve.errors@ == old(self).errors@),
    {
        let mut taken: Vec<String> = Vec::new();
        core::mem::swap(&mut self.errors, &mut taken);
        if taken.len() == 0 {
            Ok(())
        } else {
            Err(ValidationErrors { errors: taken })
        }
    }
}

/// The layers of the geometry kernel that this pipeline touches.
pub struct Layers {
    /// Accumulated validation state.
    pub validation: Validation,
}

/// The geometry-kernel handle: owned by one orchestrator instance, reusable
/// across several models, never shared between concurrent runs.
pub struct Core {
    /// The kernel's layers.
    pub layers: Layers,
}

impl Core {
    /// A fresh kernel handle with the default validation configuration.
    pub fn new() -> (c: Core)
        ensures
            c.layers.validation.errors@.len() == 0,
            c.layers.validation.config == (ValidationConfig { enabled: true }),
    {
        Core {
            layers: Layers {
                validation: Validation::with_config(ValidationConfig { enabled: true }),
            },
        }
    }

    /// A fresh kernel handle with the given validation configuration.
    pub fn with_validation_config(config: ValidationConfig) -> (c: Core)
        ensures
            c.layers.validation.errors@.len() == 0,
            c.layers.validation.config == config,
    {
        Core { layers: Layers { validation: Validation::with_config(config) } }
    }
}

/// An instance of the pipeline: the main entry point.
pub struct Instance {
    /// The instance of the geometry kernel.
    pub core: Core,
}

impl Default for Instance {
    /// Same as [`Instance::new`].
    fn default() -> (r: Self)
        ensures
            r.core.layers.validation.errors@.len() == 0,
    {
        Instance::new()
    }
}

impl Instance {
    /// Construct an instance with the default configuration.
    pub fn new() -> (r: Instance)
        ensures
            r.core.layers.validation.errors@.len() == 0,
    {
        Instance { core: Core::new() }
    }

    /// Construct an instance using the provided validation configuration.
    pub fn with_validation_config(config: ValidationConfig) -> (r: Instance)
        ensures
            r.core.layers.validation.errors@.len() == 0,
            r.core.layers.validation.config == config,
    {
        let core = Core::with_validation_config(config);
        Instance { core }
    }

    /// Initialize process-wide logging.
    ///
    /// Idempotent: when a global logger is already installed — by a prior run
    /// or by the host application — that is a no-op success, never an error.
    /// No other failure arises at this layer, so the call always succeeds.
    fn init_logger(&self) -> (r: Result<(), Error>)
        ensures
            r is Ok,
    {
        try_init_logging();
        Ok(())
    }

    /// Derive the tolerance for triangulation.
    ///
    /// A user-supplied tolerance always wins, unvalidated against the model's
    /// scale. Otherwise the smallest strictly positive axis extent of the
    /// bounding box, divided by 1000, is the tolerance; zero extents are
    /// skipped, and when every extent is zero no tolerance can be derived.
    pub fn compute_tolerance(&self, aabb: &Aabb, user_defined: Option<Tolerance>) -> (r: Result<
        Tolerance,
        Error,
    >)
        requires
            aabb.wf(),
        ensures
            user_defined matches Some(t) ==> r == Ok::<Tolerance, Error>(t),
            user_defined is None && !aabb.has_positive_extent() ==> r == Err::<Tolerance, Error>(
                Error::EmptyModel,
            ),
            user_defined is None && aabb.has_positive_extent() ==> ({
                let v = aabb.min_positive_extent() / 1000;
                if v > 0 {
                    r matches Ok(t) && t.nanos_spec() == v
                } else {
                    r == Err::<Tolerance, Error>(
                        Error::Tolerance(InvalidTolerance { value_nanos: v as i64 }),
                    )
                }
            }),
    {
        match user_defined {
            Some(tol) => Ok(tol),
            None => {
                let size = aabb.size();
                let mut min_extent: i64 = 0;
                if size[0] > 0 {
                    min_extent = size[0];
                }
                if size[1] > 0 && (min_extent <= 0 || size[1] < min_extent) {
                    min_extent = size[1];
                }
                if size[2] > 0 && (min_extent <= 0 || size[2] < min_extent) {
                    min_extent = size[2];
                }
                if min_extent <= 0 {
                    return Err(Error::EmptyModel);
                }
                assert(min_extent == aabb.min_positive_extent());
                let tolerance = ((min_extent as u64) / 1000) as i64;
                match Tolerance::from_nanos(tolerance) {
                    Ok(t) => Ok(t),
                    Err(e) => Err(Error::Tolerance(e)),
                }
            },
        }
    }

    /// Run the pipeline on a model according to the given options.
    ///
    /// The steps, each aborting the rest on failure: logger setup (idempotent,
    /// never fails here), the validation gate (skipped when
    /// `ignore_validation` is set), bounding-volume query (a model without
    /// bounds counts as degenerate), tolerance derivation, triangulation, and
    /// finally export — when an export path is set — or display.
    pub fn process_model_with_args<M, S>(&mut self, model: &M, args: Args, sink: &mut S) -> (r:
        Result<(), Error>) where M: BoundingVolume + Triangulate, S: MeshSink
        ensures
            !(r matches Err(Error::Tracing(_))),
            args.ignore_validation ==> final(self).core.layers.validation.errors@ == old(
                self,
            ).core.layers.validation.errors@,
            !args.ignore_validation ==> final(self).core.layers.validation.errors@.len() == 0,
            final(self).core.layers.validation.config == old(self).core.layers.validation.config,
            !args.ignore_validation && old(self).core.layers.validation.errors@.len() > 0 ==> (
            r matches Err(Error::Validation(ve)) && ve.errors@ == old(
                self,
            ).core.layers.validation.errors@),
            (args.ignore_validation || old(self).core.layers.validation.errors@.len() == 0) ==> !(
            r matches Err(Error::Validation(_))),
            args.tolerance is Some ==> !(r matches Err(Error::Tolerance(_))) && !(r matches Err(
                Error::EmptyModel,
            )),
            args.export is Some ==> !(r matches Err(Error::Display(_))),
            args.export is None ==> !(r matches Err(Error::Export(_))),
    {
        match self.init_logger() {
            Ok(()) => {},
            Err(e) => {
                return Err(e);
            },
        }

        if !args.ignore_validation {
            match self.core.layers.validation.take_errors() {
                Ok(()) => {},
                Err(ve) => {
                    return Err(Error::Validation(ve));
                },
            }
        }

        let aabb = match model.aabb() {
            Some(b) => b,
            None => Aabb::degenerate(),
        };

        let tolerance = match self.compute_tolerance(&aabb, args.tolerance) {
            Ok(t) => t,
            Err(e) => {
                return Err(e);
            },
        };

        let tri_mesh = model.triangulate(tolerance);

        if let Some(path) = &args.export {
            return match sink.export(&tri_mesh, path) {
                Ok(()) => Ok(()),
                Err(c) => Err(Error::Export(c)),
            };
        }

        match sink.spawn_and_display(tri_mesh) {
            Ok(()) => Ok(()),
            Err(c) => Err(Error::Display(c)),
        }
    }
}

/// Relies on tracing_subscriber: installs a process-global subscriber whose
/// verbosity comes from the default environment variable. `try_init` fails
/// only when a global subscriber is already set; either way a subscriber is
/// installed afterwards, so the outcome is discarded.
#[verifier::external_body]
fn try_init_logging() {
    let _ = tracing_subscriber::registry().with(tracing_subscriber::fmt::layer()).with(
        tracing_subscriber::EnvFilter::from_default_env(),
    ).try_init();
}

} // verus!
