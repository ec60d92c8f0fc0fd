//! The per-feature configuration of the transform.

use vstd::prelude::*;
use crate::names::clone_names;

verus! {

/// Configuration of the keep-export feature: the exports to retain.
#[derive(Debug)]
pub struct KeepExportOptions {
    pub export_names: Vec<String>,
}

/// Configuration of the remove-export feature: the exports to remove.
#[derive(Debug)]
pub struct RemoveExportOptions {
    pub remove_names: Vec<String>,
}

/// The features of the transform. A feature that is absent is not configured
/// at all, whatever the module.
#[derive(Debug)]
pub struct TransformFeatureOptions {
    pub keep_export: Option<KeepExportOptions>,
    pub remove_export: Option<RemoveExportOptions>,
}

impl KeepExportOptions {
    /// The configured names, in the order given.
    pub open spec fn names(&self) -> Seq<Seq<char>> {
        self.export_names.deep_view()
    }
}

impl RemoveExportOptions {
    /// The configured names, in the order given.
    pub open spec fn names(&self) -> Seq<Seq<char>> {
        self.remove_names.deep_view()
    }
}

impl TransformFeatureOptions {
    /// The names to retain, where the keep-export feature is configured.
    pub open spec fn keep_names(&self) -> Option<Seq<Seq<char>>> {
        match self.keep_export {
            Some(options) => Some(options.names()),
            None => None,
        }
    }

    /// The names to remove, where the remove-export feature is configured.
    pub open spec fn remove_names(&self) -> Option<Seq<Seq<char>>> {
        match self.remove_export {
            Some(options) => Some(options.names()),
            None => None,
        }
    }
}

impl Default for KeepExportOptions {
    fn default() -> (r: Self)
        ensures
            r.names() == Seq::<Seq<char>>::empty(),
    {
        let r = KeepExportOptions { export_names: Vec::new() };
        assert(r.names() =~= Seq::<Seq<char>>::empty());
        r
    }
}

impl Default for RemoveExportOptions {
    fn default() -> (r: Self)
        ensures
            r.names() == Seq::<Seq<char>>::empty(),
    {
        let r = RemoveExportOptions { remove_names: Vec::new() };
        assert(r.names() =~= Seq::<Seq<char>>::empty());
        r
    }
}

impl Default for TransformFeatureOptions {
    fn default() -> (r: Self)
        ensures
            r.keep_export is None,
            r.remove_export is None,
    {
        TransformFeatureOptions { keep_export: None, remove_export: None }
    }
}

impl Clone for KeepExportOptions {
    fn clone(&self) -> (r: Self)
        ensures
            r.names() == self.names(),
    {
        KeepExportOptions { export_names: clone_names(&self.export_names) }
    }
}

impl Clone for RemoveExportOptions {
    fn clone(&self) -> (r: Self)
        ensures
            r.names() == self.names(),
    {
        RemoveExportOptions { remove_names: clone_names(&self.remove_names) }
    }
}

} // verus!
