//! The pass that strips a given set of exports and leaves all others.

use vstd::prelude::*;
use crate::error::{PassKind, TransformError};
use crate::module::{DeclarationView, ExportView, Module};
use crate::prune::{doom_exports, find_unrecognized, first_unrecognized, prune, pruned};

verus! {

/// The remove-export pass, set up with the names to remove.
#[derive(Debug, PartialEq, Eq)]
pub struct RemoveExport {
    pub names: Vec<String>,
}

/// The export clauses that the remove-export pass dooms: those of the
/// declarations exported under one of the names to remove. The default
/// export is removed exactly when `default` is among the names.
pub open spec fn doomed_by_remove(module: Seq<DeclarationView>, removed: Seq<Seq<char>>) -> Seq<
    bool,
> {
    Seq::new(
        module.len(),
        |i: int| module[i].export matches ExportView::Named(name) && removed.contains(name),
    )
}

/// The module that the remove-export pass leaves behind.
pub open spec fn remove_export_result(
    module: Seq<DeclarationView>,
    removed: Seq<Seq<char>>,
) -> Seq<DeclarationView> {
    pruned(module, doomed_by_remove(module, removed))
}

/// Sets up the remove-export pass for the given names. Names that a module
/// does not export are ignored when the pass runs.
pub fn remove_export(names: Vec<String>) -> (pass: RemoveExport)
    ensures
        pass.names == names,
{
    RemoveExport { names }
}

impl RemoveExport {
    /// The names that the pass removes.
    pub open spec fn removed(&self) -> Seq<Seq<char>> {
        self.names.deep_view()
    }

    /// Runs the pass over a module.
    ///
    /// Every export under one of the names loses its clause: the declaration
    /// stays as a private binding where code that stays refers to it, and is
    /// deleted otherwise. Every other declaration stays as it is, and what
    /// stays keeps its order.
    ///
    /// Fails, leaving the module untouched, exactly when the module holds an
    /// export in an unrecognised form.
    pub fn apply(&self, module: &mut Module) -> (r: Result<(), TransformError>)
        ensures
            match first_unrecognized(old(module)@) {
                Some(i) => {
                    &&& r == Err::<(), TransformError>(
                        TransformError {
                            pass: PassKind::RemoveExport,
                            declaration: old(module)@[i].id,
                        },
                    )
                    &&& *final(module) == *old(module)
                },
                None => r is Ok && final(module)@ == remove_export_result(
                    old(module)@,
                    self.removed(),
                ),
            },
    {
        match find_unrecognized(module) {
            Some(i) => {
                assert(module@[i as int] == module.declarations@[i as int]@);
                return Err(
                    TransformError {
                        pass: PassKind::RemoveExport,
                        declaration: module.declarations[i].id,
                    },
                );
            },
            None => {},
        }
        let doomed = doom_exports(module, &self.names, true);
        assert(doomed@ =~= doomed_by_remove(module@, self.removed()));
        prune(module, &doomed);
        Ok(())
    }
}

} // verus!
