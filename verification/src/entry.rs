//! Telling the application entry and the route entries from other modules,
//! by their paths alone.

use vstd::prelude::*;

verus! {

/// The pattern that the path of the application entry matches.
pub open spec fn app_entry_pattern() -> Seq<char> {
    "src/app\\.(ts|tsx|js|jsx)$"@
}

/// A path names the application entry when it ends in `src/app` followed by
/// one of the extensions `.ts`, `.tsx`, `.js` and `.jsx`. What stands before
/// is free.
pub open spec fn is_app_entry(path: Seq<char>) -> bool {
    ||| "src/app.ts"@.is_suffix_of(path)
    ||| "src/app.tsx"@.is_suffix_of(path)
    ||| "src/app.js"@.is_suffix_of(path)
    ||| "src/app.jsx"@.is_suffix_of(path)
}

/// A path names a route entry when it ends in one of the route paths.
pub open spec fn is_route_entry(path: Seq<char>, routes: Seq<Seq<char>>) -> bool {
    exists|i: int| 0 <= i < routes.len() && (#[trigger] routes[i]).is_suffix_of(path)
}

/// A path names an entry when it names the application entry or a route entry.
pub open spec fn is_entry(path: Seq<char>, routes: Seq<Seq<char>>) -> bool {
    is_app_entry(path) || is_route_entry(path, routes)
}

/// Whether a regular expression finds a match in a haystack, as the `regex`
/// crate decides it; `None` where the pattern does not compile.
pub uninterp spec fn regex_search(pattern: Seq<char>, haystack: Seq<char>) -> Option<bool>;

/// `regex::Regex::new`, then `regex::Regex::is_match` on the compiled
/// expression. Both read nothing but their arguments, so the outcome is a
/// function of the two texts.
///
/// Of the one pattern that this library uses, the crate's syntax gives the
/// meaning outright: literal characters, an escaped dot, a group of four
/// literal alternatives, and `$`, which without the multi-line flag matches
/// only at the end of the haystack. A match therefore exists exactly where
/// the haystack ends in `src/app.ts`, `src/app.tsx`, `src/app.js` or
/// `src/app.jsx`.
#[verifier::external_body]
fn regex_is_match(pattern: &str, haystack: &str) -> (r: Option<bool>)
    ensures
        r == regex_search(pattern@, haystack@),
        pattern@ == app_entry_pattern() ==> r == Some(is_app_entry(haystack@)),
{
    match regex::Regex::new(pattern) {
        Ok(expression) => Some(expression.is_match(haystack)),
        Err(_) => None,
    }
}

/// `str::ends_with` with a string for its pattern: whether the text ends in
/// the given string.
#[verifier::external_body]
fn str_ends_with(text: &str, suffix: &str) -> (r: bool)
    ensures
        r == suffix@.is_suffix_of(text@),
{
    text.ends_with(suffix)
}

/// Whether the path is that of the application entry.
pub fn match_app_entry(resource_path: &str) -> (r: bool)
    ensures
        r == is_app_entry(resource_path@),
{
    match regex_is_match("src/app\\.(ts|tsx|js|jsx)$", resource_path) {
        Some(found) => found,
        None => false,
    }
}

/// Whether the path is that of a route entry: whether it ends in one of the
/// flattened route paths.
pub fn match_route_entry(resource_path: &str, routes: &Vec<String>) -> (r: bool)
    ensures
        r == is_route_entry(resource_path@, routes.deep_view()),
{
    let mut i: usize = 0;
    while i < routes.len()
        invariant
            i <= routes.len(),
            forall|k: int| 0 <= k < i ==> !(#[trigger] routes.deep_view()[k]).is_suffix_of(resource_path@),
        decreases routes.len() - i,
    {
        if str_ends_with(resource_path, routes[i].as_str()) {
            assert(routes.deep_view()[i as int] == routes@[i as int]@);
            return true;
        }
        assert(routes.deep_view()[i as int] == routes@[i as int]@);
        i += 1;
    }
    false
}

} // verus!
