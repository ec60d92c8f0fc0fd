use loader_compilation::error::{PassKind, TransformError};
use loader_compilation::keep_export::keep_export;
use loader_compilation::module::{Declaration, Export, Module};
use loader_compilation::prune::{doom_exports, find_unrecognized};
use loader_compilation::remove_export::remove_export;

fn names(items: &[&str]) -> Vec<String> {
    items.iter().map(|s| s.to_string()).collect()
}

fn exported(id: usize, binding: Option<&str>, name: &str, references: &[&str]) -> Declaration {
    Declaration {
        id,
        binding: binding.map(|b| b.to_string()),
        export: Export::Named(name.to_string()),
        references: names(references),
    }
}

fn private(id: usize, binding: Option<&str>, references: &[&str]) -> Declaration {
    Declaration {
        id,
        binding: binding.map(|b| b.to_string()),
        export: Export::Private,
        references: names(references),
    }
}

fn wildcard(id: usize) -> Declaration {
    Declaration { id, binding: None, export: Export::Unrecognized, references: Vec::new() }
}

fn module(declarations: Vec<Declaration>) -> Module {
    Module { declarations }
}

/// `export default App; export const pageConfig = ..; export function helper() {}`
fn page_module() -> Module {
    module(vec![
        exported(0, Some("App"), "default", &[]),
        exported(1, Some("pageConfig"), "pageConfig", &[]),
        exported(2, Some("helper"), "helper", &[]),
    ])
}

fn ids(module: &Module) -> Vec<usize> {
    module.declarations.iter().map(|d| d.id).collect()
}

#[test]
fn keep_page_config_alone() {
    let mut m = page_module();
    assert_eq!(keep_export(names(&["pageConfig"])).apply(&mut m), Ok(()));
    assert_eq!(m.exported_names(), names(&["pageConfig"]));
    assert_eq!(m, module(vec![exported(1, Some("pageConfig"), "pageConfig", &[])]));
}

#[test]
fn keep_default_and_page_config() {
    let mut m = page_module();
    assert_eq!(keep_export(names(&["pageConfig", "default"])).apply(&mut m), Ok(()));
    assert_eq!(m.exported_names(), names(&["default", "pageConfig"]));
    assert_eq!(ids(&m), vec![0, 1]);
}

#[test]
fn remove_helper_leaves_the_rest_exported() {
    let mut m = page_module();
    assert_eq!(remove_export(names(&["helper"])).apply(&mut m), Ok(()));
    assert_eq!(m.exported_names(), names(&["default", "pageConfig"]));
    assert_eq!(
        m,
        module(vec![
            exported(0, Some("App"), "default", &[]),
            exported(1, Some("pageConfig"), "pageConfig", &[]),
        ])
    );
}

#[test]
fn removed_export_still_in_use_turns_private() {
    let mut m = module(vec![
        exported(0, Some("App"), "default", &["helper"]),
        exported(1, Some("pageConfig"), "pageConfig", &[]),
        exported(2, Some("helper"), "helper", &[]),
    ]);
    assert_eq!(remove_export(names(&["helper"])).apply(&mut m), Ok(()));
    assert_eq!(m.exported_names(), names(&["default", "pageConfig"]));
    assert_eq!(
        m,
        module(vec![
            exported(0, Some("App"), "default", &["helper"]),
            exported(1, Some("pageConfig"), "pageConfig", &[]),
            private(2, Some("helper"), &[]),
        ])
    );
}

#[test]
fn remove_twice_is_remove_once() {
    let pass = remove_export(names(&["helper", "getData"]));
    let mut m = module(vec![
        private(0, Some("React"), &[]),
        exported(1, Some("getData"), "getData", &["fetchAll"]),
        private(2, Some("fetchAll"), &[]),
        exported(3, Some("helper"), "helper", &[]),
        exported(4, Some("Page"), "default", &["React", "helper"]),
    ]);
    assert_eq!(pass.apply(&mut m), Ok(()));
    let once = m.clone();
    assert_eq!(
        once,
        module(vec![
            private(0, Some("React"), &[]),
            private(2, Some("fetchAll"), &[]),
            private(3, Some("helper"), &[]),
            exported(4, Some("Page"), "default", &["React", "helper"]),
        ])
    );
    assert_eq!(pass.apply(&mut m), Ok(()));
    assert_eq!(m, once);
}

#[test]
fn remove_after_keep_finds_nothing_to_do() {
    let mut m = page_module();
    assert_eq!(keep_export(names(&["pageConfig"])).apply(&mut m), Ok(()));
    let kept = m.clone();
    assert_eq!(remove_export(names(&["helper", "default"])).apply(&mut m), Ok(()));
    assert_eq!(m, kept);
}

#[test]
fn keep_twice_is_keep_once() {
    let pass = keep_export(names(&["pageConfig"]));
    let mut m = module(vec![
        private(0, Some("base"), &[]),
        exported(1, Some("shared"), "shared", &["base"]),
        exported(2, Some("pageConfig"), "pageConfig", &["shared"]),
        exported(3, Some("unused"), "unused", &["shared"]),
    ]);
    assert_eq!(pass.apply(&mut m), Ok(()));
    let once = m.clone();
    assert_eq!(ids(&once), vec![0, 1, 2]);
    assert_eq!(pass.apply(&mut m), Ok(()));
    assert_eq!(m, once);
}

#[test]
fn names_that_the_module_lacks_are_ignored() {
    let mut m = page_module();
    assert_eq!(remove_export(names(&["missing", "alsoMissing"])).apply(&mut m), Ok(()));
    assert_eq!(m, page_module());
    assert_eq!(keep_export(names(&["default", "pageConfig", "helper", "dataLoader"])).apply(&mut m), Ok(()));
    assert_eq!(m, page_module());
}

#[test]
fn remove_nothing_changes_nothing() {
    let mut m = page_module();
    assert_eq!(remove_export(Vec::new()).apply(&mut m), Ok(()));
    assert_eq!(m, page_module());
}

#[test]
fn keep_nothing_strips_every_export() {
    let mut m = module(vec![
        private(0, Some("setup"), &[]),
        private(1, None, &["setup", "helper"]),
        exported(2, Some("helper"), "helper", &[]),
        exported(3, Some("App"), "default", &[]),
    ]);
    assert_eq!(keep_export(Vec::new()).apply(&mut m), Ok(()));
    assert_eq!(m.exported_names(), Vec::<String>::new());
    assert_eq!(
        m,
        module(vec![
            private(0, Some("setup"), &[]),
            private(1, None, &["setup", "helper"]),
            private(2, Some("helper"), &[]),
        ])
    );
}

#[test]
fn references_are_followed_through_stripped_declarations() {
    let mut m = module(vec![
        exported(0, Some("a"), "a", &["b"]),
        exported(1, Some("b"), "b", &["c"]),
        exported(2, Some("c"), "c", &[]),
        exported(3, Some("d"), "d", &["c"]),
        exported(4, Some("keep"), "keep", &["a"]),
    ]);
    assert_eq!(keep_export(names(&["keep"])).apply(&mut m), Ok(()));
    assert_eq!(
        m,
        module(vec![
            private(0, Some("a"), &["b"]),
            private(1, Some("b"), &["c"]),
            private(2, Some("c"), &[]),
            exported(4, Some("keep"), "keep", &["a"]),
        ])
    );
}

#[test]
fn stripped_declarations_that_only_refer_to_each_other_go() {
    let mut m = module(vec![
        exported(0, Some("ping"), "ping", &["pong"]),
        exported(1, Some("pong"), "pong", &["ping"]),
        exported(2, Some("selfish"), "selfish", &["selfish"]),
        exported(3, Some("main"), "main", &[]),
    ]);
    assert_eq!(keep_export(names(&["main"])).apply(&mut m), Ok(()));
    assert_eq!(m, module(vec![exported(3, Some("main"), "main", &[])]));
}

#[test]
fn cycle_reached_from_retained_code_stays_private() {
    let mut m = module(vec![
        exported(0, Some("even"), "even", &["odd"]),
        exported(1, Some("odd"), "odd", &["even"]),
        exported(2, Some("main"), "main", &["odd"]),
    ]);
    assert_eq!(remove_export(names(&["even", "odd"])).apply(&mut m), Ok(()));
    assert_eq!(
        m,
        module(vec![
            private(0, Some("even"), &["odd"]),
            private(1, Some("odd"), &["even"]),
            exported(2, Some("main"), "main", &["odd"]),
        ])
    );
}

#[test]
fn private_code_keeps_what_it_refers_to() {
    let mut m = module(vec![
        exported(0, Some("register"), "register", &[]),
        private(1, None, &["register"]),
        exported(2, Some("App"), "default", &[]),
    ]);
    assert_eq!(keep_export(names(&["default"])).apply(&mut m), Ok(()));
    assert_eq!(
        m,
        module(vec![
            private(0, Some("register"), &[]),
            private(1, None, &["register"]),
            exported(2, Some("App"), "default", &[]),
        ])
    );
}

#[test]
fn dropped_re_export_goes_with_its_import() {
    // `export { x } from "./other"` binds nothing here, even where another
    // declaration mentions the name `x`.
    let mut m = module(vec![
        exported(0, None, "x", &[]),
        exported(1, None, "y", &[]),
        private(2, None, &["x"]),
    ]);
    assert_eq!(keep_export(names(&["y"])).apply(&mut m), Ok(()));
    assert_eq!(m, module(vec![exported(1, None, "y", &[]), private(2, None, &["x"])]));
}

#[test]
fn export_clause_of_a_local_binding_goes_alone() {
    // `const x = 1; export { x as renamed };`
    let mut m = module(vec![
        private(0, Some("x"), &[]),
        exported(1, None, "renamed", &["x"]),
    ]);
    assert_eq!(remove_export(names(&["renamed"])).apply(&mut m), Ok(()));
    assert_eq!(m, module(vec![private(0, Some("x"), &[])]));
}

#[test]
fn export_is_matched_by_exported_name_not_binding() {
    let mut m = module(vec![
        exported(0, Some("inner"), "outer", &[]),
        exported(1, Some("outer"), "other", &[]),
    ]);
    assert_eq!(remove_export(names(&["outer"])).apply(&mut m), Ok(()));
    assert_eq!(m, module(vec![exported(1, Some("outer"), "other", &[])]));
}

#[test]
fn default_export_goes_by_the_name_default() {
    let mut m = module(vec![
        exported(0, None, "default", &[]),
        exported(1, Some("named"), "named", &[]),
    ]);
    assert_eq!(remove_export(names(&["default"])).apply(&mut m), Ok(()));
    assert_eq!(m, module(vec![exported(1, Some("named"), "named", &[])]));
}

#[test]
fn every_declaration_that_binds_a_referenced_name_stays() {
    let mut m = module(vec![
        exported(0, Some("f"), "f", &[]),
        exported(1, Some("f"), "g", &[]),
        exported(2, Some("main"), "main", &["f", "f"]),
    ]);
    assert_eq!(keep_export(names(&["main"])).apply(&mut m), Ok(()));
    assert_eq!(
        m,
        module(vec![
            private(0, Some("f"), &[]),
            private(1, Some("f"), &[]),
            exported(2, Some("main"), "main", &["f", "f"]),
        ])
    );
}

#[test]
fn retained_exports_keep_their_order() {
    let mut m = module(vec![
        exported(0, Some("c"), "c", &[]),
        exported(1, Some("x"), "x", &[]),
        exported(2, Some("a"), "a", &[]),
        exported(3, Some("b"), "b", &[]),
    ]);
    assert_eq!(keep_export(names(&["a", "b", "c"])).apply(&mut m), Ok(()));
    assert_eq!(m.exported_names(), names(&["c", "a", "b"]));
}

#[test]
fn empty_module_passes_through() {
    let mut m = module(Vec::new());
    assert_eq!(keep_export(names(&["a"])).apply(&mut m), Ok(()));
    assert_eq!(remove_export(names(&["a"])).apply(&mut m), Ok(()));
    assert_eq!(m, module(Vec::new()));
}

#[test]
fn unrecognised_export_stops_keep_export() {
    let before = module(vec![
        exported(10, Some("a"), "a", &[]),
        wildcard(11),
        exported(12, Some("b"), "b", &[]),
        wildcard(13),
    ]);
    let mut m = before.clone();
    assert_eq!(
        keep_export(names(&["a"])).apply(&mut m),
        Err(TransformError { pass: PassKind::KeepExport, declaration: 11 })
    );
    assert_eq!(m, before);
}

#[test]
fn unrecognised_export_stops_remove_export() {
    let before = module(vec![wildcard(7), exported(8, Some("a"), "a", &[])]);
    let mut m = before.clone();
    assert_eq!(
        remove_export(names(&["a"])).apply(&mut m),
        Err(TransformError { pass: PassKind::RemoveExport, declaration: 7 })
    );
    assert_eq!(m, before);
}

#[test]
fn find_first_unrecognised_export() {
    assert_eq!(find_unrecognized(&page_module()), None);
    assert_eq!(find_unrecognized(&module(vec![private(0, None, &[]), wildcard(1), wildcard(2)])), Some(1));
}

#[test]
fn doom_by_listed_and_by_unlisted_names() {
    let m = module(vec![
        exported(0, Some("a"), "a", &[]),
        private(1, Some("b"), &[]),
        exported(2, Some("c"), "c", &[]),
        wildcard(3),
    ]);
    assert_eq!(doom_exports(&m, &names(&["a"]), true), vec![true, false, false, false]);
    assert_eq!(doom_exports(&m, &names(&["a"]), false), vec![false, false, true, false]);
}

#[test]
fn demoted_copy_loses_only_its_export() {
    let d = exported(5, Some("a"), "b", &["c", "d"]);
    assert_eq!(d.demoted(), private(5, Some("a"), &["c", "d"]));
    assert!(d.binds(&"a".to_string()));
    assert!(!d.binds(&"b".to_string()));
    assert!(!private(0, None, &[]).binds(&"".to_string()));
    assert_eq!(d.clone(), d);
}
