//! Run options for processing a model, and the parsers that fill them from
//! command-line style arguments.

use vstd::prelude::*;

use crate::decimal::is_decimal_literal;
use crate::decimal::literal_nanos;
use crate::decimal::mantissa_nanos;
use crate::decimal::mantissa_part;
use crate::decimal::parse_nanos;
use crate::decimal::ParseRealError;
use crate::tolerance::InvalidTolerance;
use crate::tolerance::Tolerance;

verus! {

/// Options of one pipeline run.
///
/// All three fields are independently optional; the defaults are no export
/// path, no user tolerance, and validation enabled.
pub struct Args {
    /// Export the model to this path instead of displaying it.
    pub export: Option<String>,
    /// User-supplied tolerance, overriding the derived one.
    pub tolerance: Option<Tolerance>,
    /// Skip the validation gate.
    pub ignore_validation: bool,
}

/// Spec-level image of [`Args`]: the same options over mathematical values.
pub struct ArgsModel {
    pub export: Option<Seq<char>>,
    pub tolerance_nanos: Option<int>,
    pub ignore_validation: bool,
}

impl Args {
    /// The options as mathematical values.
    pub open spec fn model(self) -> ArgsModel {
        ArgsModel {
            export: match self.export {
                Some(p) => Some(p@),
                None => None,
            },
            tolerance_nanos: match self.tolerance {
                Some(t) => Some(t.nanos_spec()),
                None => None,
            },
            ignore_validation: self.ignore_validation,
        }
    }

    /// The defaults: nothing set.
    pub fn new() -> (a: Args)
        ensures
            a.model() == (ArgsModel {
                export: None,
                tolerance_nanos: None,
                ignore_validation: false,
            }),
    {
        Args { export: None, tolerance: None, ignore_validation: false }
    }
}

/// Error from parsing command-line arguments.
#[derive(Debug)]
pub enum ArgsError {
    /// The tolerance text was not a valid number; carries the numeric-parse
    /// cause.
    ParseTolerance(ParseRealError),
    /// The tolerance parsed as a number but was not strictly positive;
    /// carries the offending value.
    InvalidTolerance(InvalidTolerance),
    /// An argument matched no known flag.
    UnknownArgument(String),
    /// A flag that takes a value stood last, with no value after it.
    MissingValue(String),
}

/// Spec-level description of an argument-parse failure: which kind, and the
/// text that provoked it.
pub enum ArgsIssue {
    /// A tolerance value that does not parse to a positive number.
    BadTolerance(Seq<char>),
    /// An argument matching no known flag.
    Unknown(Seq<char>),
    /// A value-taking flag with nothing after it.
    Missing(Seq<char>),
}

impl ArgsError {
    /// Does this error report the given failure?
    pub open spec fn describes(self, issue: ArgsIssue) -> bool {
        match self {
            ArgsError::ParseTolerance(pe) => (issue matches ArgsIssue::BadTolerance(t) && ((pe
                == ParseRealError::Malformed && !is_decimal_literal(t)) || (pe
                == ParseRealError::OutOfRange && is_decimal_literal(t) && mantissa_nanos(
                mantissa_part(t),
            ) > i64::MAX))),
            ArgsError::InvalidTolerance(it) => (issue matches ArgsIssue::BadTolerance(t)
                && is_decimal_literal(t) && mantissa_nanos(mantissa_part(t)) <= i64::MAX
                && literal_nanos(t) <= 0 && it.value_nanos == literal_nanos(t)),
            ArgsError::UnknownArgument(u) => (issue matches ArgsIssue::Unknown(t) && u@ == t),
            ArgsError::MissingValue(f) => (issue matches ArgsIssue::Missing(t) && f@ == t),
        }
    }
}

/// The options before any argument is read.
pub open spec fn initial_model() -> ArgsModel {
    ArgsModel { export: None, tolerance_nanos: None, ignore_validation: false }
}

/// What parsing the arguments from position `i` onward, with options `cur`
/// so far, yields: the filled options, or the first failure.
///
/// `--export`/`-e` and `--tolerance`/`-t` take the following argument as
/// their value; `--ignore-validation`/`-i` stands alone; a later occurrence
/// of a flag overrides an earlier one.
pub open spec fn run_args(argv: Seq<Seq<char>>, i: int, cur: ArgsModel) -> Result<
    ArgsModel,
    ArgsIssue,
>
    decreases argv.len() - i,
{
    if i >= argv.len() {
        Ok(cur)
    } else {
        let a = argv[i];
        if a == "--export"@ || a == "-e"@ {
            if i + 1 < argv.len() {
                run_args(argv, i + 2, ArgsModel { export: Some(argv[i + 1]), ..cur })
            } else {
                Err(ArgsIssue::Missing(a))
            }
        } else if a == "--tolerance"@ || a == "-t"@ {
            if i + 1 < argv.len() {
                let t = argv[i + 1];
                if !is_decimal_literal(t) || mantissa_nanos(mantissa_part(t)) > i64::MAX
                    || literal_nanos(t) <= 0 {
                    Err(ArgsIssue::BadTolerance(t))
                } else {
                    run_args(
                        argv,
                        i + 2,
                        ArgsModel { tolerance_nanos: Some(literal_nanos(t)), ..cur },
                    )
                }
            } else {
                Err(ArgsIssue::Missing(a))
            }
        } else if a == "--ignore-validation"@ || a == "-i"@ {
            run_args(argv, i + 1, ArgsModel { ignore_validation: true, ..cur })
        } else {
            Err(ArgsIssue::Unknown(a))
        }
    }
}

/// Options the argument table yields never carry a nonpositive tolerance:
/// when the options so far respect the tolerance invariant, so does whatever
/// parsing the remaining arguments accepts.
pub proof fn lemma_run_args_tolerance_positive(argv: Seq<Seq<char>>, i: int, cur: ArgsModel)
    requires
        cur.tolerance_nanos matches Some(v) ==> v > 0,
    ensures
        ({
            let r = run_args(argv, i, cur);
            r matches Ok(a) ==> (a.tolerance_nanos matches Some(v) ==> v > 0)
        }),
    decreases argv.len() - i,
{
    if i < argv.len() {
        let a = argv[i];
        if a == "--export"@ || a == "-e"@ {
            if i + 1 < argv.len() {
                lemma_run_args_tolerance_positive(
                    argv,
                    i + 2,
                    ArgsModel { export: Some(argv[i + 1]), ..cur },
                );
            }
        } else if a == "--tolerance"@ || a == "-t"@ {
            if i + 1 < argv.len() {
                let t = argv[i + 1];
                if is_decimal_literal(t) && mantissa_nanos(mantissa_part(t)) <= i64::MAX
                    && literal_nanos(t) > 0 {
                    lemma_run_args_tolerance_positive(
                        argv,
                        i + 2,
                        ArgsModel { tolerance_nanos: Some(literal_nanos(t)), ..cur },
                    );
                }
            }
        } else if a == "--ignore-validation"@ || a == "-i"@ {
            lemma_run_args_tolerance_positive(
                argv,
                i + 1,
                ArgsModel { ignore_validation: true, ..cur },
            );
        }
    }
}

/// Does the argument equal the given flag?
fn arg_is(a: &String, flag: &str) -> (r: bool)
    ensures
        r == (a@ == flag@),
{
    let f = String::from_str(flag);
    *a == f
}

/// Parse a string into a tolerance.
///
/// The text must be a decimal literal whose value fits the fixed-point
/// range; parse failure reports the numeric cause, and a value that is not
/// strictly positive fails the tolerance invariant instead.
pub fn parse_tolerance(input: &str) -> (r: Result<Tolerance, ArgsError>)
    ensures
        !is_decimal_literal(input@) ==> r == Err::<Tolerance, ArgsError>(
            ArgsError::ParseTolerance(ParseRealError::Malformed),
        ),
        is_decimal_literal(input@) && mantissa_nanos(mantissa_part(input@)) > i64::MAX ==> r
            == Err::<Tolerance, ArgsError>(ArgsError::ParseTolerance(ParseRealError::OutOfRange)),
        is_decimal_literal(input@) && mantissa_nanos(mantissa_part(input@)) <= i64::MAX ==> ({
            let v = literal_nanos(input@);
            if v > 0 {
                r matches Ok(t) && t.nanos_spec() == v
            } else {
                r == Err::<Tolerance, ArgsError>(
                    ArgsError::InvalidTolerance(InvalidTolerance { value_nanos: v as i64 }),
                )
            }
        }),
{
    let nanos = match parse_nanos(input) {
        Ok(v) => v,
        Err(e) => {
            return Err(ArgsError::ParseTolerance(e));
        },
    };
    match Tolerance::from_nanos(nanos) {
        Ok(t) => Ok(t),
        Err(e) => Err(ArgsError::InvalidTolerance(e)),
    }
}

impl Args {
    /// Parse the given command-line arguments; the first is the program name
    /// and is skipped.
    #[verifier::loop_isolation(false)]
    pub fn parse_from(argv: &Vec<String>) -> (r: Result<Args, ArgsError>)
        ensures
            ({
                let out = run_args(argv.deep_view(), 1, initial_model());
                match r {
                    Ok(a) => out == Ok::<ArgsModel, ArgsIssue>(a.model()),
                    Err(e) => (out matches Err(issue) && e.describes(issue)),
                }
            }),
    {
        let ghost dv = argv.deep_view();
        let mut args = Args::new();
        let mut i: usize = 1;
        while i < argv.len()
            invariant
                1 <= i,
                run_args(dv, 1, initial_model()) == run_args(dv, i as int, args.model()),
            decreases argv.len() - i,
        {
            let a = &argv[i];
            proof {
                assert(dv[i as int] == a@);
            }
            if arg_is(a, "--export") || arg_is(a, "-e") {
                if i + 1 < argv.len() {
                    proof {
                        assert(dv[i as int + 1] == argv@[i as int + 1]@);
                    }
                    args.export = Some(argv[i + 1].clone());
                    i = i + 2;
                } else {
                    return Err(ArgsError::MissingValue(a.clone()));
                }
            } else if arg_is(a, "--tolerance") || arg_is(a, "-t") {
                if i + 1 < argv.len() {
                    proof {
                        assert(dv[i as int + 1] == argv@[i as int + 1]@);
                    }
                    match parse_tolerance(argv[i + 1].as_str()) {
                        Ok(t) => {
                            args.tolerance = Some(t);
                            i = i + 2;
                        },
                        Err(e) => {
                            proof {
                                let t = dv[i as int + 1];
                                if is_decimal_literal(t) && mantissa_nanos(mantissa_part(t))
                                    <= i64::MAX {
                                    crate::decimal::lemma_mantissa_nonneg(mantissa_part(t));
                                }
                            }
                            return Err(e);
                        },
                    }
                } else {
                    return Err(ArgsError::MissingValue(a.clone()));
                }
            } else if arg_is(a, "--ignore-validation") || arg_is(a, "-i") {
                args.ignore_validation = true;
                i = i + 1;
            } else {
                return Err(ArgsError::UnknownArgument(a.clone()));
            }
        }
        Ok(args)
    }
}

} // verus!
