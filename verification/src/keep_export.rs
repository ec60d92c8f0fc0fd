//! The pass that retains a given set of exports and strips all others.

use vstd::prelude::*;
use crate::error::{PassKind, TransformError};
use crate::module::{DeclarationView, ExportView, Module};
use crate::prune::{doom_exports, find_unrecognized, first_unrecognized, prune, pruned};

verus! {

/// The keep-export pass, set up with the names to retain.
#[derive(Debug, PartialEq, Eq)]
pub struct KeepExport {
    pub exports: Vec<String>,
}

/// The export clauses that the keep-export pass dooms: those of the
/// declarations exported under a name that is not retained. The default
/// export is retained exactly when `default` is among the names.
pub open spec fn doomed_by_keep(module: Seq<DeclarationView>, retained: Seq<Seq<char>>) -> Seq<
    bool,
> {
    Seq::new(
        module.len(),
        |i: int| module[i].export matches ExportView::Named(name) && !retained.contains(name),
    )
}

/// The module that the keep-export pass leaves behind.
pub open spec fn keep_export_result(
    module: Seq<DeclarationView>,
    retained: Seq<Seq<char>>,
) -> Seq<DeclarationView> {
    pruned(module, doomed_by_keep(module, retained))
}

/// Sets up the keep-export pass for the given names. Names that a module
/// does not export are ignored when the pass runs.
pub fn keep_export(exports: Vec<String>) -> (pass: KeepExport)
    ensures
        pass.exports == exports,
{
    KeepExport { exports }
}

impl KeepExport {
    /// The names that the pass retains.
    pub open spec fn names(&self) -> Seq<Seq<char>> {
        self.exports.deep_view()
    }

    /// Runs the pass over a module.
    ///
    /// Every export under a retained name stays as it is, and so does every
    /// private declaration. Every other export loses its clause: the
    /// declaration stays as a private binding where code that stays refers
    /// to it, and is deleted otherwise. What stays keeps its order.
    ///
    /// Fails, leaving the module untouched, exactly when the module holds an
    /// export in an unrecognised form.
    pub fn apply(&self, module: &mut Module) -> (r: Result<(), TransformError>)
        ensures
            match first_unrecognized(old(module)@) {
                Some(i) => {
                    &&& r == Err::<(), TransformError>(
                        TransformError {
                            pass: PassKind::KeepExport,
                            declaration: old(module)@[i].id,
                        },
                    )
                    &&& *final(module) == *old(module)
                },
                None => r is Ok && final(module)@ == keep_export_result(
                    old(module)@,
                    self.names(),
                ),
            },
    {
        match find_unrecognized(module) {
            Some(i) => {
                assert(module@[i as int] == module.declarations@[i as int]@);
                return Err(
                    TransformError {
                        pass: PassKind::KeepExport,
                        declaration: module.declarations[i].id,
                    },
                );
            },
            None => {},
        }
        let doomed = doom_exports(module, &self.exports, false);
        assert(doomed@ =~= doomed_by_keep(module@, self.names()));
        prune(module, &doomed);
        Ok(())
    }
}

} // verus!
