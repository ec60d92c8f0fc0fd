//! Errors of the export-pruning passes.

use vstd::prelude::*;

verus! {

/// The two export-pruning passes.
#[derive(Debug, Clone, Copy, PartialEq, Eq, Structural)]
pub enum PassKind {
    KeepExport,
    RemoveExport,
}

/// A pass met an export in a form that it does not recognise, and left the
/// module as it was.
#[derive(Debug, Clone, Copy, PartialEq, Eq, Structural)]
pub struct TransformError {
    /// The pass that gave up.
    pub pass: PassKind,
    /// The host's handle of the offending declaration: the first one in
    /// source order.
    pub declaration: usize,
}

} // verus!
