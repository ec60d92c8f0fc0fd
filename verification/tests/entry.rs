use loader_compilation::entry::{match_app_entry, match_route_entry};

fn route_list(items: &[&str]) -> Vec<String> {
    items.iter().map(|s| s.to_string()).collect()
}

#[test]
fn app_entry_by_its_path() {
    assert!(match_app_entry("/proj/src/app.tsx"));
    assert!(!match_app_entry("/proj/src/app.tsx.bak"));
}

#[test]
fn app_entry_takes_each_extension() {
    assert!(match_app_entry("/proj/src/app.ts"));
    assert!(match_app_entry("/proj/src/app.tsx"));
    assert!(match_app_entry("/proj/src/app.js"));
    assert!(match_app_entry("/proj/src/app.jsx"));
    assert!(!match_app_entry("/proj/src/app.mjs"));
    assert!(!match_app_entry("/proj/src/app.json"));
    assert!(!match_app_entry("/proj/src/app"));
    assert!(!match_app_entry("/proj/src/app."));
}

#[test]
fn app_entry_accepts_any_prefix() {
    assert!(match_app_entry("src/app.ts"));
    assert!(match_app_entry("C:\\work\\site/src/app.js"));
    assert!(match_app_entry("/a/b/c/mysrc/app.jsx"));
    assert!(match_app_entry("/proj/src/app.ts/src/app.tsx"));
}

#[test]
fn app_entry_is_anchored_at_the_end() {
    assert!(!match_app_entry("/proj/src/app.tsx "));
    assert!(!match_app_entry("/proj/src/app.tsx\n"));
    assert!(!match_app_entry("/proj/src/app.tsx/index.ts"));
    assert!(!match_app_entry("/proj/src/app.tsx?raw"));
}

#[test]
fn app_entry_needs_the_src_directory() {
    assert!(!match_app_entry("/proj/other/app.tsx"));
    assert!(!match_app_entry("app.tsx"));
    assert!(!match_app_entry("/proj/src/App.tsx"));
    assert!(!match_app_entry("/proj/src/appx.tsx"));
    assert!(!match_app_entry("/proj/src/app-tsx"));
    assert!(!match_app_entry(""));
}

#[test]
fn route_entry_by_its_suffix() {
    let routes = route_list(&["src/pages/index.tsx"]);
    assert!(match_route_entry("/proj/src/pages/index.tsx", &routes));
    assert!(!match_route_entry("/proj/src/pages/other.tsx", &routes));
}

#[test]
fn route_entry_matches_any_listed_route() {
    let routes = route_list(&["src/pages/a.tsx", "src/pages/b/c.tsx", "src/pages/d.tsx"]);
    assert!(match_route_entry("/x/src/pages/a.tsx", &routes));
    assert!(match_route_entry("/x/src/pages/b/c.tsx", &routes));
    assert!(match_route_entry("src/pages/d.tsx", &routes));
    assert!(!match_route_entry("/x/src/pages/c.tsx", &routes));
    assert!(!match_route_entry("/x/src/pages/b/c.tsx.map", &routes));
}

#[test]
fn route_entry_is_case_sensitive_and_exact() {
    let routes = route_list(&["src/pages/index.tsx"]);
    assert!(!match_route_entry("/proj/src/pages/Index.tsx", &routes));
    assert!(!match_route_entry("/proj/SRC/pages/index.tsx", &routes));
    assert!(!match_route_entry("pages/index.tsx", &routes));
    assert!(!match_route_entry("", &routes));
}

#[test]
fn no_routes_no_route_entry() {
    assert!(!match_route_entry("/proj/src/pages/index.tsx", &Vec::new()));
}

#[test]
fn empty_route_matches_every_path() {
    assert!(match_route_entry("/anything", &route_list(&[""])));
}

#[test]
fn route_entry_compares_whole_characters() {
    let routes = route_list(&["src/pages/é.tsx"]);
    assert!(match_route_entry("/proj/src/pages/é.tsx", &routes));
    assert!(!match_route_entry("/proj/src/pages/e.tsx", &routes));
}
