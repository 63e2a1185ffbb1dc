//! The pipeline's error model: a closed set of failure variants, each
//! optionally carrying the chain of underlying causes that led to it.

use vstd::prelude::*;

use crate::decimal::dec_digits;
use crate::decimal::u64_to_dec;
use crate::tolerance::InvalidTolerance;

verus! {

/// One link in a chain of underlying errors: a message and, possibly, the
/// next deeper cause.
#[derive(Debug)]
pub struct Cause {
    /// Human-readable description of this link.
    pub message: String,
    /// The error that caused this one, if any.
    pub source: Option<Box<Cause>>,
}

impl Cause {
    /// The messages along the chain, this link first.
    pub open spec fn chain(self) -> Seq<Seq<char>>
        decreases self,
    {
        seq![self.message@] + match self.source {
            Some(next) => next.chain(),
            None => Seq::empty(),
        }
    }

    /// A leaf cause: a message with nothing beneath it.
    pub fn leaf(message: String) -> (c: Cause)
        ensures
            c.chain() == seq![message@],
    {
        let c = Cause { message, source: None };
        proof {
            assert(c.chain() =~= seq![c.message@]);
        }
        c
    }

    /// The next deeper cause, if any.
    pub fn cause(&self) -> (r: Option<&Cause>)
        ensures
            match r {
                Some(next) => self.source matches Some(b) && *b == *next,
                None => self.source is None,
            },
    {
        match &self.source {
            Some(next) => Some(next),
            None => None,
        }
    }
}

/// Validation errors accumulated by the geometry kernel and left unhandled
/// at the validation gate.
#[derive(Debug)]
pub struct ValidationErrors {
    /// The individual violations, in the order they were recorded.
    pub errors: Vec<String>,
}

/// Error returned by a pipeline run: the closed set of its failure surfaces.
#[derive(Debug)]
pub enum Error {
    /// Failed to set up the logger for a reason other than it already being
    /// installed.
    Tracing(Cause),
    /// The viewer reported a failure while displaying the model.
    Display(Cause),
    /// The exporter reported a failure while writing the model.
    Export(Cause),
    /// A tolerance value, user-supplied or derived, was not strictly
    /// positive.
    Tolerance(InvalidTolerance),
    /// Unhandled validation errors stopped the pipeline.
    Validation(ValidationErrors),
    /// The model's bounding volume has zero extent on every axis, so no
    /// tolerance can be derived.
    EmptyModel,
}

impl Error {
    /// The error's own message, before any causes.
    pub open spec fn message_view(self) -> Seq<char> {
        match self {
            Error::Tracing(_) => "Failed to set up logger"@,
            Error::Display(_) => "Error displaying model"@,
            Error::Export(_) => "Error exporting model"@,
            Error::Tolerance(_) => "Invalid tolerance: value is not strictly positive"@,
            Error::Validation(_) => "Unhandled validation errors"@,
            Error::EmptyModel => "The model is empty or has zero size; cannot compute tolerance"@,
        }
    }

    /// The messages of the underlying causes, outermost first.
    pub open spec fn cause_chain(self) -> Seq<Seq<char>> {
        match self {
            Error::Tracing(c) => c.chain(),
            Error::Display(c) => c.chain(),
            Error::Export(c) => c.chain(),
            _ => Seq::empty(),
        }
    }

    /// The error's own message.
    pub fn message(&self) -> (m: String)
        ensures
            m@ == self.message_view(),
    {
        match self {
            Error::Tracing(_) => String::from_str("Failed to set up logger"),
            Error::Display(_) => String::from_str("Error displaying model"),
            Error::Export(_) => String::from_str("Error exporting model"),
            Error::Tolerance(_) => String::from_str(
                "Invalid tolerance: value is not strictly positive",
            ),
            Error::Validation(_) => String::from_str("Unhandled validation errors"),
            Error::EmptyModel => String::from_str(
                "The model is empty or has zero size; cannot compute tolerance",
            ),
        }
    }

    /// The first underlying cause, if any: the head of the cause chain.
    pub fn cause(&self) -> (r: Option<&Cause>)
        ensures
            match r {
                Some(c) => c.chain() == self.cause_chain(),
                None => self.cause_chain().len() == 0,
            },
    {
        match self {
            Error::Tracing(c) => Some(c),
            Error::Display(c) => Some(c),
            Error::Export(c) => Some(c),
            _ => None,
        }
    }
}

/// The rendering of a cause chain: each message on its own line, indented,
/// numbered upward from `i`.
pub open spec fn numbered_chain(msgs: Seq<Seq<char>>, i: nat) -> Seq<char>
    decreases msgs.len(),
{
    if msgs.len() == 0 {
        Seq::empty()
    } else {
        "\n    "@ + dec_digits(i) + ": "@ + msgs[0] + numbered_chain(msgs.drop_first(), i + 1)
    }
}

/// The full report of an error: its own message and, when it has causes, a
/// header followed by the numbered cause chain.
pub open spec fn report_view(e: Error) -> Seq<char> {
    e.message_view() + if e.cause_chain().len() == 0 {
        Seq::<char>::empty()
    } else {
        "\n\nCaused by:"@ + numbered_chain(e.cause_chain(), 0)
    }
}

/// Append the rendering of the chain starting at `c`, numbered from `idx`.
fn render_chain(c: &Cause, idx: u64, out: &mut String)
    requires
        idx + c.chain().len() <= u64::MAX,
    ensures
        final(out)@ == old(out)@ + numbered_chain(c.chain(), idx as nat),
    decreases *c,
{
    let ghost entry = out@;
    out.append("\n    ");
    let digits = u64_to_dec(idx);
    out.append(digits.as_str());
    out.append(": ");
    out.append(c.message.as_str());
    proof {
        assert(out@ == entry + "\n    "@ + dec_digits(idx as nat) + ": "@ + c.message@);
    }
    let ghost mid = out@;
    match &c.source {
        Some(next) => {
            proof {
                assert(c.chain().drop_first() =~= next.chain());
            }
            render_chain(next, idx + 1, out);
        },
        None => {
            proof {
                assert(c.chain().drop_first() =~= Seq::<Seq<char>>::empty());
            }
        },
    }
    proof {
        assert(c.chain()[0] == c.message@);
        assert(c.chain().len() >= 1);
        assert(out@ == mid + numbered_chain(c.chain().drop_first(), idx as nat + 1));
        assert(numbered_chain(c.chain(), idx as nat) == "\n    "@ + dec_digits(idx as nat) + ": "@
            + c.chain()[0] + numbered_chain(c.chain().drop_first(), idx as nat + 1));
        assert(out@ =~= entry + numbered_chain(c.chain(), idx as nat));
    }
}

/// Render an error for a human: the error's own message; then, when it has
/// at least one underlying cause, a `Caused by:` header and each cause on
/// its own line, numbered from zero, following the cause-of-cause relation
/// to its end.
pub fn report(e: &Error) -> (s: String)
    requires
        e.cause_chain().len() <= u64::MAX,
    ensures
        s@ == report_view(*e),
{
    let mut s = e.message();
    match e.cause() {
        Some(c) => {
            s.append("\n\nCaused by:");
            render_chain(c, 0, &mut s);
            proof {
                assert(s@ =~= report_view(*e));
            }
        },
        None => {
            proof {
                assert(s@ =~= report_view(*e));
            }
        },
    }
    s
}

} // verus!
