//! Why a stream is given up.

use vstd::prelude::*;

verus! {

/// A violation of the stream's structure. None can be recovered from.
#[derive(Clone, Copy, Debug, PartialEq, Eq, Structural)]
pub enum Fault {
    /// A line that has to be a `# HELP` line is none.
    BadHelp,
    /// A line that has to be a `# TYPE` line is none.
    BadType,
    /// The `# TYPE` line names a type that is not known.
    UnknownType,
    /// The `# TYPE` line names another family than the `# HELP` line before.
    NameMismatch,
    /// A sample's name does not begin with the name of its family.
    ForeignSample,
    /// A sample of a histogram or summary is neither the family's own name
    /// nor that name with `_bucket`, `_sum` or `_count` behind it.
    UnknownSuffix,
    /// The stream ends where a `# HELP` or `# TYPE` line has to stand.
    UnexpectedEnd,
}

} // verus!
