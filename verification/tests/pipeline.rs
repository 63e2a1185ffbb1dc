use fj::Aabb;
use fj::Args;
use fj::BoundingVolume;
use fj::Cause;
use fj::Error;
use fj::Instance;
use fj::MeshSink;
use fj::Point3;
use fj::Tolerance;
use fj::TriMesh;
use fj::Triangle;
use fj::Triangulate;
use fj::ValidationConfig;

/// A test model: a box with fixed corners, triangulated into one triangle
/// whose first corner encodes the tolerance it was given.
struct BoxModel {
    bounds: Option<Aabb>,
}

impl BoundingVolume for BoxModel {
    fn aabb(&self) -> Option<Aabb> {
        self.bounds
    }
}

impl Triangulate for BoxModel {
    fn triangulate(&self, tolerance: Tolerance) -> TriMesh {
        let t = tolerance.as_nanos();
        let p = Point3 { x: t, y: 0, z: 0 };
        TriMesh {
            triangles: vec![Triangle { a: p, b: p, c: p }],
        }
    }
}

/// A sink that records what reached it and fails on demand.
struct RecordingSink {
    exported: Vec<(String, i64)>,
    displayed: Vec<i64>,
    fail_with: Option<String>,
}

impl RecordingSink {
    fn new() -> RecordingSink {
        RecordingSink {
            exported: Vec::new(),
            displayed: Vec::new(),
            fail_with: None,
        }
    }
}

impl MeshSink for RecordingSink {
    fn export(&mut self, mesh: &TriMesh, path: &String) -> Result<(), Cause> {
        if let Some(m) = &self.fail_with {
            return Err(Cause {
                message: m.clone(),
                source: None,
            });
        }
        self.exported.push((path.clone(), mesh.triangles[0].a.x));
        Ok(())
    }

    fn spawn_and_display(&mut self, mesh: TriMesh) -> Result<(), Cause> {
        if let Some(m) = &self.fail_with {
            return Err(Cause {
                message: m.clone(),
                source: None,
            });
        }
        self.displayed.push(mesh.triangles[0].a.x);
        Ok(())
    }
}

fn unit_box() -> Aabb {
    let b = Aabb {
        min: Point3 { x: 0, y: 0, z: 0 },
        max: Point3 {
            x: fj::NANOS_PER_UNIT,
            y: 2 * fj::NANOS_PER_UNIT,
            z: 4 * fj::NANOS_PER_UNIT,
        },
    };
    assert!(b.is_well_formed());
    b
}

fn defaults() -> Args {
    Args::new()
}

#[test]
fn derived_tolerance_is_min_positive_extent_over_thousand() {
    let instance = Instance::new();
    let aabb = Aabb {
        min: Point3 { x: 0, y: 0, z: 0 },
        max: Point3 {
            x: 0,
            y: 2_000_000_000,
            z: 4_000_000_000,
        },
    };
    let t = instance.compute_tolerance(&aabb, None).unwrap();
    assert_eq!(t.as_nanos(), 2_000_000);
}

#[test]
fn zero_extent_box_has_no_tolerance() {
    let instance = Instance::new();
    let aabb = Aabb {
        min: Point3 { x: 0, y: 0, z: 0 },
        max: Point3 { x: 0, y: 0, z: 0 },
    };
    let r = instance.compute_tolerance(&aabb, None);
    assert!(matches!(r, Err(Error::EmptyModel)));
}

#[test]
fn user_tolerance_always_wins() {
    let instance = Instance::new();
    let user = Tolerance::from_nanos(123).unwrap();
    let zero = Aabb {
        min: Point3 { x: 0, y: 0, z: 0 },
        max: Point3 { x: 0, y: 0, z: 0 },
    };
    assert_eq!(
        instance.compute_tolerance(&zero, Some(user)).unwrap().as_nanos(),
        123
    );
    assert_eq!(
        instance
            .compute_tolerance(&unit_box(), Some(user))
            .unwrap()
            .as_nanos(),
        123
    );
}

#[test]
fn negative_extents_are_skipped() {
    let instance = Instance::new();
    // well-formed on every axis, but flat on two
    let aabb = Aabb {
        min: Point3 { x: 5, y: 5, z: 5 },
        max: Point3 {
            x: 5,
            y: 5,
            z: 3_000_000_005,
        },
    };
    let t = instance.compute_tolerance(&aabb, None).unwrap();
    assert_eq!(t.as_nanos(), 3_000_000);
}

#[test]
fn extent_below_resolution_yields_invalid_tolerance() {
    let instance = Instance::new();
    // the smallest positive extent is 500 nanos; a thousandth of it
    // truncates to zero, which no tolerance may be
    let aabb = Aabb {
        min: Point3 { x: 0, y: 0, z: 0 },
        max: Point3 { x: 0, y: 0, z: 500 },
    };
    let r = instance.compute_tolerance(&aabb, None);
    match r {
        Err(Error::Tolerance(it)) => assert_eq!(it.value_nanos, 0),
        _ => panic!("expected an invalid-tolerance error"),
    }
}

#[test]
fn tolerance_constructor_rejects_nonpositive() {
    assert!(Tolerance::from_nanos(1).is_ok());
    assert_eq!(Tolerance::from_nanos(0).unwrap_err().value_nanos, 0);
    assert_eq!(Tolerance::from_nanos(-7).unwrap_err().value_nanos, -7);
}

#[test]
fn pipeline_reaches_display_without_error() {
    let mut instance = Instance::new();
    let model = BoxModel {
        bounds: Some(unit_box()),
    };
    let mut sink = RecordingSink::new();
    let r = instance.process_model_with_args(&model, defaults(), &mut sink);
    assert!(r.is_ok());
    // min positive extent is 1 unit; the derived tolerance is a thousandth
    assert_eq!(sink.displayed, vec![1_000_000]);
    assert!(sink.exported.is_empty());
}

#[test]
fn pipeline_exports_when_a_path_is_set() {
    let mut instance = Instance::new();
    let model = BoxModel {
        bounds: Some(unit_box()),
    };
    let mut sink = RecordingSink::new();
    let mut args = defaults();
    args.export = Some("out.obj".to_string());
    let r = instance.process_model_with_args(&model, args, &mut sink);
    assert!(r.is_ok());
    assert_eq!(sink.exported, vec![("out.obj".to_string(), 1_000_000)]);
    assert!(sink.displayed.is_empty());
}

#[test]
fn export_failure_is_reported_with_its_cause() {
    let mut instance = Instance::new();
    let model = BoxModel {
        bounds: Some(unit_box()),
    };
    let mut sink = RecordingSink::new();
    sink.fail_with = Some("permission denied".to_string());
    let mut args = defaults();
    args.export = Some("out.obj".to_string());
    let r = instance.process_model_with_args(&model, args, &mut sink);
    match r {
        Err(Error::Export(c)) => assert_eq!(c.message, "permission denied"),
        _ => panic!("expected an export error"),
    }
}

#[test]
fn display_failure_is_reported_with_its_cause() {
    let mut instance = Instance::new();
    let model = BoxModel {
        bounds: Some(unit_box()),
    };
    let mut sink = RecordingSink::new();
    sink.fail_with = Some("no display found".to_string());
    let r = instance.process_model_with_args(&model, defaults(), &mut sink);
    match r {
        Err(Error::Display(c)) => assert_eq!(c.message, "no display found"),
        _ => panic!("expected a display error"),
    }
}

#[test]
fn model_without_bounds_counts_as_empty() {
    let mut instance = Instance::new();
    let model = BoxModel { bounds: None };
    let mut sink = RecordingSink::new();
    let r = instance.process_model_with_args(&model, defaults(), &mut sink);
    assert!(matches!(r, Err(Error::EmptyModel)));
    assert!(sink.displayed.is_empty());
}

#[test]
fn model_without_bounds_still_honours_user_tolerance() {
    let mut instance = Instance::new();
    let model = BoxModel { bounds: None };
    let mut sink = RecordingSink::new();
    let mut args = defaults();
    args.tolerance = Some(Tolerance::from_nanos(42).unwrap());
    let r = instance.process_model_with_args(&model, args, &mut sink);
    assert!(r.is_ok());
    assert_eq!(sink.displayed, vec![42]);
}

#[test]
fn validation_errors_stop_the_pipeline() {
    let mut instance = Instance::new();
    instance
        .core
        .layers
        .validation
        .record_error("edge 3 is open".to_string());
    let model = BoxModel {
        bounds: Some(unit_box()),
    };
    let mut sink = RecordingSink::new();
    let r = instance.process_model_with_args(&model, defaults(), &mut sink);
    match r {
        Err(Error::Validation(ve)) => assert_eq!(ve.errors, vec!["edge 3 is open".to_string()]),
        _ => panic!("expected a validation error"),
    }
    assert!(sink.displayed.is_empty());
    let r2 = instance.process_model_with_args(&model, defaults(), &mut sink);
    assert!(r2.is_ok());
}

#[test]
fn ignore_validation_skips_the_gate() {
    let mut instance = Instance::new();
    instance
        .core
        .layers
        .validation
        .record_error("edge 3 is open".to_string());
    let model = BoxModel {
        bounds: Some(unit_box()),
    };
    let mut sink = RecordingSink::new();
    let mut args = defaults();
    args.ignore_validation = true;
    let r = instance.process_model_with_args(&model, args, &mut sink);
    assert!(r.is_ok());
    // the errors were not drained
    assert_eq!(instance.core.layers.validation.errors.len(), 1);
}

#[test]
fn logger_initialization_is_idempotent() {
    let mut instance = Instance::new();
    let model = BoxModel {
        bounds: Some(unit_box()),
    };
    let mut sink = RecordingSink::new();
    // two runs in one process initialize logging twice; neither may fail
    let first = instance.process_model_with_args(&model, defaults(), &mut sink);
    let second = instance.process_model_with_args(&model, defaults(), &mut sink);
    assert!(first.is_ok());
    assert!(second.is_ok());
}

#[test]
fn instance_constructors_start_clean() {
    let a = Instance::new();
    assert!(a.core.layers.validation.errors.is_empty());
    let b = Instance::with_validation_config(ValidationConfig { enabled: false });
    assert!(b.core.layers.validation.errors.is_empty());
    assert!(!b.core.layers.validation.config.enabled);
    let c = Instance::default();
    assert!(c.core.layers.validation.errors.is_empty());
}
