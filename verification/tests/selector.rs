use loader_compilation::error::{PassKind, TransformError};
use loader_compilation::keep_export::KeepExport;
use loader_compilation::module::{Declaration, Export, Module};
use loader_compilation::names::{clone_names, contains_name};
use loader_compilation::options::{KeepExportOptions, RemoveExportOptions, TransformFeatureOptions};
use loader_compilation::remove_export::RemoveExport;
use loader_compilation::transform::{transform, Transformation};

const APP: &str = "/proj/src/app.tsx";
const PAGE: &str = "/proj/src/pages/index.tsx";
const OTHER: &str = "/proj/src/components/button.tsx";

fn list(items: &[&str]) -> Vec<String> {
    items.iter().map(|s| s.to_string()).collect()
}

fn routes() -> Vec<String> {
    list(&["src/pages/index.tsx", "src/pages/detail.tsx"])
}

fn keep(items: &[&str]) -> Option<KeepExportOptions> {
    Some(KeepExportOptions { export_names: list(items) })
}

fn remove(items: &[&str]) -> Option<RemoveExportOptions> {
    Some(RemoveExportOptions { remove_names: list(items) })
}

fn export(id: usize, name: &str, references: &[&str]) -> Declaration {
    let binding = if name == "default" { "App" } else { name };
    Declaration {
        id,
        binding: Some(binding.to_string()),
        export: Export::Named(name.to_string()),
        references: list(references),
    }
}

fn page() -> Module {
    Module {
        declarations: vec![
            export(0, "default", &[]),
            export(1, "pageConfig", &[]),
            export(2, "helper", &[]),
        ],
    }
}

#[test]
fn keep_page_config_in_app_entry_keeps_default_too() {
    let options = TransformFeatureOptions { keep_export: keep(&["pageConfig"]), remove_export: None };
    let plan = transform(APP, "/proj", &routes(), &options);
    assert_eq!(
        plan,
        Transformation {
            keep_export: Some(KeepExport { exports: list(&["pageConfig", "default"]) }),
            remove_export: None,
        }
    );
    let mut module = page();
    assert_eq!(plan.apply(&mut module), Ok(()));
    assert_eq!(module.exported_names(), list(&["default", "pageConfig"]));
}

#[test]
fn keep_page_config_in_route_entry_keeps_it_alone() {
    let options = TransformFeatureOptions { keep_export: keep(&["pageConfig"]), remove_export: None };
    let plan = transform(PAGE, "/proj", &routes(), &options);
    assert_eq!(
        plan,
        Transformation {
            keep_export: Some(KeepExport { exports: list(&["pageConfig"]) }),
            remove_export: None,
        }
    );
    let mut module = page();
    assert_eq!(plan.apply(&mut module), Ok(()));
    assert_eq!(module.exported_names(), list(&["pageConfig"]));
}

#[test]
fn app_entry_without_page_config_gains_nothing() {
    let options =
        TransformFeatureOptions { keep_export: keep(&["dataLoader", "default2"]), remove_export: None };
    let plan = transform(APP, "", &routes(), &options);
    assert_eq!(plan.keep_export, Some(KeepExport { exports: list(&["dataLoader", "default2"]) }));
}

#[test]
fn default_is_added_even_where_it_is_listed() {
    let options =
        TransformFeatureOptions { keep_export: keep(&["default", "pageConfig"]), remove_export: None };
    let plan = transform(APP, "", &Vec::new(), &options);
    assert_eq!(
        plan.keep_export,
        Some(KeepExport { exports: list(&["default", "pageConfig", "default"]) })
    );
}

#[test]
fn ordinary_module_gets_no_pass() {
    let options = TransformFeatureOptions {
        keep_export: keep(&["pageConfig"]),
        remove_export: remove(&["helper"]),
    };
    let plan = transform(OTHER, "/proj", &routes(), &options);
    assert_eq!(plan, Transformation { keep_export: None, remove_export: None });
    let mut module = page();
    assert_eq!(plan.apply(&mut module), Ok(()));
    assert_eq!(module, page());
}

#[test]
fn unconfigured_features_give_no_pass() {
    let plan = transform(APP, "/proj", &routes(), &TransformFeatureOptions::default());
    assert_eq!(plan, Transformation { keep_export: None, remove_export: None });
    let plan = transform(PAGE, "/proj", &routes(), &TransformFeatureOptions::default());
    assert_eq!(plan, Transformation { keep_export: None, remove_export: None });
}

#[test]
fn remove_export_is_configured_on_its_own() {
    let options = TransformFeatureOptions { keep_export: None, remove_export: remove(&["helper"]) };
    for path in [APP, PAGE] {
        let plan = transform(path, "/proj", &routes(), &options);
        assert_eq!(
            plan,
            Transformation {
                keep_export: None,
                remove_export: Some(RemoveExport { names: list(&["helper"]) }),
            }
        );
        let mut module = page();
        assert_eq!(plan.apply(&mut module), Ok(()));
        assert_eq!(module.exported_names(), list(&["default", "pageConfig"]));
    }
}

#[test]
fn remove_export_gains_no_default() {
    let options = TransformFeatureOptions { keep_export: None, remove_export: remove(&["pageConfig"]) };
    let plan = transform(APP, "/proj", &routes(), &options);
    assert_eq!(plan.remove_export, Some(RemoveExport { names: list(&["pageConfig"]) }));
}

#[test]
fn keep_runs_before_remove() {
    let options = TransformFeatureOptions {
        keep_export: keep(&["pageConfig", "helper"]),
        remove_export: remove(&["helper", "default"]),
    };
    let plan = transform(PAGE, "/proj", &routes(), &options);
    let mut module = Module {
        declarations: vec![
            export(0, "default", &[]),
            export(1, "pageConfig", &["helper"]),
            export(2, "helper", &["util"]),
            export(3, "util", &[]),
        ],
    };
    assert_eq!(plan.apply(&mut module), Ok(()));
    assert_eq!(module.exported_names(), list(&["pageConfig"]));
    assert_eq!(
        module.declarations.iter().map(|d| d.id).collect::<Vec<usize>>(),
        vec![1, 2, 3]
    );
    assert_eq!(module.declarations[1].export, Export::Private);
    assert_eq!(module.declarations[2].export, Export::Private);
}

#[test]
fn remove_stage_ignores_what_keep_stage_removed() {
    let options = TransformFeatureOptions {
        keep_export: keep(&["pageConfig"]),
        remove_export: remove(&["helper"]),
    };
    let plan = transform(APP, "/proj", &routes(), &options);
    let mut staged = page();
    assert_eq!(plan.apply(&mut staged), Ok(()));
    let keep_only = Transformation { keep_export: plan.keep_export, remove_export: None };
    let mut kept = page();
    assert_eq!(keep_only.apply(&mut kept), Ok(()));
    assert_eq!(staged, kept);
    assert_eq!(staged.exported_names(), list(&["default", "pageConfig"]));
}

#[test]
fn empty_name_lists_are_legal() {
    let options = TransformFeatureOptions { keep_export: keep(&[]), remove_export: remove(&[]) };
    let plan = transform(PAGE, "/proj", &routes(), &options);
    assert_eq!(
        plan,
        Transformation {
            keep_export: Some(KeepExport { exports: Vec::new() }),
            remove_export: Some(RemoveExport { names: Vec::new() }),
        }
    );
    let mut module = page();
    assert_eq!(plan.apply(&mut module), Ok(()));
    assert_eq!(module, Module { declarations: Vec::new() });
}

#[test]
fn transformation_reports_the_first_active_stage() {
    let wildcard =
        Declaration { id: 9, binding: None, export: Export::Unrecognized, references: Vec::new() };
    let before = Module { declarations: vec![export(0, "default", &[]), wildcard] };
    let both = Transformation {
        keep_export: Some(KeepExport { exports: list(&["default"]) }),
        remove_export: Some(RemoveExport { names: list(&["helper"]) }),
    };
    let mut module = before.clone();
    assert_eq!(
        both.apply(&mut module),
        Err(TransformError { pass: PassKind::KeepExport, declaration: 9 })
    );
    assert_eq!(module, before);
    let remove_only = Transformation { keep_export: None, remove_export: both.remove_export };
    assert_eq!(
        remove_only.apply(&mut module),
        Err(TransformError { pass: PassKind::RemoveExport, declaration: 9 })
    );
    assert_eq!(module, before);
    let idle = Transformation { keep_export: None, remove_export: None };
    assert_eq!(idle.apply(&mut module), Ok(()));
    assert_eq!(module, before);
}

#[test]
fn options_default_to_nothing_configured() {
    let options = TransformFeatureOptions::default();
    assert!(options.keep_export.is_none());
    assert!(options.remove_export.is_none());
    assert!(KeepExportOptions::default().export_names.is_empty());
    assert!(RemoveExportOptions::default().remove_names.is_empty());
}

#[test]
fn options_clone_their_names() {
    let keep = KeepExportOptions { export_names: list(&["a", "b"]) };
    assert_eq!(keep.clone().export_names, list(&["a", "b"]));
    let remove = RemoveExportOptions { remove_names: list(&["c"]) };
    assert_eq!(remove.clone().remove_names, list(&["c"]));
}

#[test]
fn name_list_helpers() {
    let names = list(&["a", "pageConfig", ""]);
    assert!(contains_name(&names, &"pageConfig".to_string()));
    assert!(contains_name(&names, &"".to_string()));
    assert!(!contains_name(&names, &"pageconfig".to_string()));
    assert!(!contains_name(&Vec::new(), &"a".to_string()));
    assert_eq!(clone_names(&names), names);
}
