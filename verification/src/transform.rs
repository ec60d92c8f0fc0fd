//! Choosing the passes for one module, and running them.

use vstd::prelude::*;
use crate::entry::{is_app_entry, is_entry, match_app_entry, match_route_entry};
use crate::error::{PassKind, TransformError};
use crate::keep_export::{doomed_by_keep, keep_export, keep_export_result, KeepExport};
use crate::module::{DeclarationView, Module};
use crate::names::{clone_names, contains_name};
use crate::options::TransformFeatureOptions;
use crate::prune::{first_unrecognized, lemma_pruned_recognized};
use crate::remove_export::{remove_export, remove_export_result, RemoveExport};

verus! {

/// The passes chosen for one module. A stage that is `None` lets the module
/// through unchanged.
#[derive(Debug, PartialEq, Eq)]
pub struct Transformation {
    pub keep_export: Option<KeepExport>,
    pub remove_export: Option<RemoveExport>,
}

/// The mathematical value of a [`Transformation`]: for each stage that is
/// active, the names that it works with.
pub ghost struct TransformationView {
    pub keep_export: Option<Seq<Seq<char>>>,
    pub remove_export: Option<Seq<Seq<char>>>,
}

impl View for Transformation {
    type V = TransformationView;

    open spec fn view(&self) -> TransformationView {
        TransformationView {
            keep_export: match self.keep_export {
                Some(pass) => Some(pass.names()),
                None => None,
            },
            remove_export: match self.remove_export {
                Some(pass) => Some(pass.removed()),
                None => None,
            },
        }
    }
}

/// The export that carries a page's configuration.
pub open spec fn page_config_name() -> Seq<char> {
    "pageConfig"@
}

/// The name that the default export goes by.
pub open spec fn default_name() -> Seq<char> {
    "default"@
}

/// The names that the keep-export pass retains in the module at `path`: the
/// configured ones and, in the application entry whenever `pageConfig` is
/// among them, `default` as well.
pub open spec fn retained_names(path: Seq<char>, configured: Seq<Seq<char>>) -> Seq<Seq<char>> {
    if is_app_entry(path) && configured.contains(page_config_name()) {
        configured.push(default_name())
    } else {
        configured
    }
}

/// The passes for the module at `path`. A feature applies when it is
/// configured and the module is the application entry or a route entry.
pub open spec fn selected(
    path: Seq<char>,
    routes: Seq<Seq<char>>,
    keep: Option<Seq<Seq<char>>>,
    remove: Option<Seq<Seq<char>>>,
) -> TransformationView {
    TransformationView {
        keep_export: match keep {
            Some(names) => if is_entry(path, routes) {
                Some(retained_names(path, names))
            } else {
                None
            },
            None => None,
        },
        remove_export: match remove {
            Some(names) => if is_entry(path, routes) {
                Some(names)
            } else {
                None
            },
            None => None,
        },
    }
}

/// The module that a transformation leaves behind: the keep-export stage
/// first, then the remove-export stage on its result.
pub open spec fn transformed(t: TransformationView, module: Seq<DeclarationView>) -> Seq<
    DeclarationView,
> {
    let kept = match t.keep_export {
        Some(names) => keep_export_result(module, names),
        None => module,
    };
    match t.remove_export {
        Some(names) => remove_export_result(kept, names),
        None => kept,
    }
}

/// The error with which a transformation gives up on a module: that of its
/// first active stage, where the module holds an export in an unrecognised
/// form.
pub open spec fn transform_fault(t: TransformationView, module: Seq<DeclarationView>) -> Option<
    TransformError,
> {
    match first_unrecognized(module) {
        Some(i) => if t.keep_export is Some {
            Some(TransformError { pass: PassKind::KeepExport, declaration: module[i].id })
        } else if t.remove_export is Some {
            Some(TransformError { pass: PassKind::RemoveExport, declaration: module[i].id })
        } else {
            None
        },
        None => None,
    }
}

/// Chooses the passes for the module at `resource_path`.
///
/// Each feature applies when it is configured and the path is that of the
/// application entry or of a route entry. In the application entry the
/// keep-export pass retains `default` along with `pageConfig`. The context
/// directory plays no part in the choice.
#[allow(unused_variables)]
pub fn transform(
    resource_path: &str,
    context: &str,
    routes_config: &Vec<String>,
    feature_options: &TransformFeatureOptions,
) -> (t: Transformation)
    ensures
        t@ == selected(
            resource_path@,
            routes_config.deep_view(),
            feature_options.keep_names(),
            feature_options.remove_names(),
        ),
{
    let app_entry = match_app_entry(resource_path);
    let entry = app_entry || match_route_entry(resource_path, routes_config);
    let keep = match &feature_options.keep_export {
        Some(options) => {
            if entry {
                let mut names = clone_names(&options.export_names);
                if app_entry && contains_name(&names, &String::from_str("pageConfig")) {
                    let ghost configured = names.deep_view();
                    names.push(String::from_str("default"));
                    assert(names.deep_view() =~= configured.push(default_name()));
                }
                Some(keep_export(names))
            } else {
                None
            }
        },
        None => None,
    };
    let remove = match &feature_options.remove_export {
        Some(options) => {
            if entry {
                Some(remove_export(clone_names(&options.remove_names)))
            } else {
                None
            }
        },
        None => None,
    };
    Transformation { keep_export: keep, remove_export: remove }
}

impl Transformation {
    /// Runs the chosen passes over a module: keep-export, then remove-export.
    ///
    /// Fails, leaving the module untouched, exactly when a stage is active
    /// and the module holds an export in an unrecognised form; the error is
    /// that of the first active stage.
    pub fn apply(&self, module: &mut Module) -> (r: Result<(), TransformError>)
        ensures
            match transform_fault(self@, old(module)@) {
                Some(e) => r == Err::<(), TransformError>(e) && *final(module) == *old(module),
                None => r is Ok && final(module)@ == transformed(self@, old(module)@),
            },
    {
        let ghost before = module@;
        match &self.keep_export {
            Some(pass) => {
                match pass.apply(module) {
                    Ok(()) => {},
                    Err(e) => {
                        return Err(e);
                    },
                }
            },
            None => {},
        }
        match &self.remove_export {
            Some(pass) => {
                proof {
                    if self.keep_export is Some {
                        lemma_pruned_recognized(
                            before,
                            doomed_by_keep(before, self.keep_export.unwrap().names()),
                        );
                    }
                }
                pass.apply(module)
            },
            None => Ok(()),
        }
    }
}

} // verus!
