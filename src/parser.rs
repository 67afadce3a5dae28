//! What every manifest parser offers.

use vstd::prelude::*;

verus! {

/// A parser of one kind of dependency file.
pub trait DependencyParser {
    /// Whether the file at `path` is of this parser's kind.
    fn can_parse(&self, path: &str) -> bool;
}

} // verus!
