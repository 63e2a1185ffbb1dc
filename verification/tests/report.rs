use fj::report;
use fj::Cause;
use fj::Error;
use fj::InvalidTolerance;
use fj::ValidationErrors;

#[test]
fn report_without_cause_is_the_message_alone() {
    let e = Error::EmptyModel;
    assert_eq!(
        report(&e),
        "The model is empty or has zero size; cannot compute tolerance"
    );
}

#[test]
fn report_numbers_the_cause_chain_from_zero() {
    let e = Error::Export(Cause {
        message: "cannot write file".to_string(),
        source: Some(Box::new(Cause {
            message: "permission denied".to_string(),
            source: None,
        })),
    });
    assert_eq!(
        report(&e),
        "Error exporting model\n\nCaused by:\n    0: cannot write file\n    1: permission denied"
    );
}

#[test]
fn report_renders_a_single_cause() {
    let e = Error::Display(Cause::leaf("no display found".to_string()));
    assert_eq!(
        report(&e),
        "Error displaying model\n\nCaused by:\n    0: no display found"
    );
}

#[test]
fn report_of_logger_failure() {
    let e = Error::Tracing(Cause {
        message: "subscriber rejected".to_string(),
        source: None,
    });
    assert_eq!(
        report(&e),
        "Failed to set up logger\n\nCaused by:\n    0: subscriber rejected"
    );
}

#[test]
fn report_of_invalid_tolerance_and_validation() {
    let e = Error::Tolerance(InvalidTolerance { value_nanos: -5 });
    assert_eq!(report(&e), "Invalid tolerance: value is not strictly positive");
    let v = Error::Validation(ValidationErrors {
        errors: vec!["edge 3 is open".to_string()],
    });
    assert_eq!(report(&v), "Unhandled validation errors");
}

#[test]
fn cause_accessor_walks_the_chain() {
    let e = Error::Export(Cause {
        message: "outer".to_string(),
        source: Some(Box::new(Cause {
            message: "inner".to_string(),
            source: None,
        })),
    });
    let first = e.cause().expect("an export error has a cause");
    assert_eq!(first.message, "outer");
    let second = first.cause().expect("the outer cause has a source");
    assert_eq!(second.message, "inner");
    assert!(second.cause().is_none());
    assert!(Error::EmptyModel.cause().is_none());
}

#[test]
fn deep_chains_keep_numbering() {
    let e = Error::Display(Cause {
        message: "a".to_string(),
        source: Some(Box::new(Cause {
            message: "b".to_string(),
            source: Some(Box::new(Cause {
                message: "c".to_string(),
                source: None,
            })),
        })),
    });
    assert_eq!(
        report(&e),
        "Error displaying model\n\nCaused by:\n    0: a\n    1: b\n    2: c"
    );
}

#[test]
fn numbering_continues_past_single_digits() {
    let mut c = Cause {
        message: "link 11".to_string(),
        source: None,
    };
    for k in (1..11).rev() {
        c = Cause {
            message: format!("link {k}"),
            source: Some(Box::new(c)),
        };
    }
    let rendered = report(&Error::Export(c));
    assert!(rendered.starts_with("Error exporting model\n\nCaused by:\n    0: link 1\n"));
    assert!(rendered.ends_with("\n    9: link 10\n    10: link 11"));
}

#[test]
fn error_messages_match_their_variants() {
    assert_eq!(
        Error::Tolerance(InvalidTolerance { value_nanos: 0 }).message(),
        "Invalid tolerance: value is not strictly positive"
    );
    assert_eq!(
        Error::Validation(ValidationErrors { errors: Vec::new() }).message(),
        "Unhandled validation errors"
    );
}
