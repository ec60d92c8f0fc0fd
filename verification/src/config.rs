//! Reading the route manifest out of a JSON document.

use vstd::prelude::*;
use crate::json::{error_message, json_parse, json_tree, json_trees, member, parse_value, JsonTree};
use crate::routes::{
    flatten_routes, get_routes_file, lemma_forest_deep_view, NestedRoutesManifest, RouteNode,
};

verus! {

/// What is wrong with a fragment of the manifest.
#[derive(Debug, Clone, Copy, PartialEq, Eq, Structural)]
pub enum ShapeFault {
    /// The document, or the value of a `children` member, is not an array.
    NotAnArray,
    /// An element of such an array is not an object.
    NotAnObject,
    /// A route object has no `file` member.
    MissingFile,
    /// The `file` member of a route object is not a string.
    FileNotText,
}

/// A fault and the place of the offending fragment.
pub ghost struct ShapeError {
    pub fault: ShapeFault,
    /// The indices, from the document's array downwards, of the route whose
    /// fragment is at fault; empty when it is the document itself. A faulty
    /// `children` value has the path of the route that holds it.
    pub path: Seq<usize>,
}

/// Why a manifest could not be read.
#[derive(Debug, PartialEq, Eq)]
pub enum ConfigError {
    /// The text is not a JSON document; the parser's message says where.
    Syntax { message: String },
    /// The document is JSON, but not a route manifest.
    Shape { fault: ShapeFault, path: Vec<usize> },
}

impl ConfigError {
    /// The fault and its place, for an error of shape.
    pub open spec fn shape(&self) -> Option<ShapeError> {
        match self {
            ConfigError::Syntax { .. } => None,
            ConfigError::Shape { fault, path } => Some(ShapeError { fault: *fault, path: path@ }),
        }
    }
}

/// The key of a route's file.
pub open spec fn file_key() -> Seq<char> {
    "file"@
}

/// The key of a route's nested routes.
pub open spec fn children_key() -> Seq<char> {
    "children"@
}

/// The route that a JSON value describes: an object with a string under
/// `file` and, under `children`, nothing, `null` or an array of routes.
/// Other members are not looked at.
pub open spec fn node_of_json(tree: JsonTree) -> Result<RouteNode, ShapeError>
    decreases tree, 0nat,
{
    match tree {
        JsonTree::Object(members) => {
            if !members.contains_key(file_key()) {
                Err(ShapeError { fault: ShapeFault::MissingFile, path: Seq::empty() })
            } else {
                match members[file_key()] {
                    JsonTree::Text(file) => {
                        if !members.contains_key(children_key())
                            || members[children_key()] is Null {
                            Ok(RouteNode { file, children: None })
                        } else {
                            match forest_of_json(members[children_key()]) {
                                Ok(children) => Ok(RouteNode { file, children: Some(children) }),
                                Err(e) => Err(e),
                            }
                        }
                    },
                    _ => Err(ShapeError { fault: ShapeFault::FileNotText, path: Seq::empty() }),
                }
            }
        },
        _ => Err(ShapeError { fault: ShapeFault::NotAnObject, path: Seq::empty() }),
    }
}

/// The routes that a JSON value describes: an array of routes.
pub open spec fn forest_of_json(tree: JsonTree) -> Result<Seq<RouteNode>, ShapeError>
    decreases tree, 0nat,
{
    match tree {
        JsonTree::Array(items) => routes_of_items(items),
        _ => Err(ShapeError { fault: ShapeFault::NotAnArray, path: Seq::empty() }),
    }
}

/// The routes that a sequence of JSON values describes, or the fault of the
/// first value that describes none, with that value's index put before the
/// fault's path.
pub open spec fn routes_of_items(items: Seq<JsonTree>) -> Result<Seq<RouteNode>, ShapeError>
    decreases items, 1nat,
{
    if items.len() == 0 {
        Ok(Seq::empty())
    } else {
        match routes_of_items(items.drop_last()) {
            Err(e) => Err(e),
            Ok(front) => match node_of_json(items.last()) {
                Ok(node) => Ok(front.push(node)),
                Err(e) => Err(
                    ShapeError {
                        fault: e.fault,
                        path: seq![(items.len() - 1) as usize] + e.path,
                    },
                ),
            },
        }
    }
}

/// A result of reading agrees with what the document describes.
pub open spec fn reads_as<T: DeepView>(
    r: Result<T, ConfigError>,
    expected: Result<T::V, ShapeError>,
) -> bool {
    match expected {
        Ok(value) => r matches Ok(got) && got.deep_view() == value,
        Err(e) => r matches Err(got) && got.shape() == Some(e),
    }
}

/// Once a front part of the items holds a faulty value, the whole sequence
/// reports that fault.
proof fn lemma_first_fault_stands(items: Seq<JsonTree>, n: int)
    requires
        0 <= n <= items.len(),
        routes_of_items(items.take(n)) is Err,
    ensures
        routes_of_items(items) == routes_of_items(items.take(n)),
    decreases items.len() - n,
{
    if n < items.len() {
        assert(items.take(n + 1).drop_last() =~= items.take(n));
        lemma_first_fault_stands(items, n + 1);
    } else {
        assert(items.take(n) =~= items);
    }
}

/// Puts the index of a route before the path of a fault found below it.
fn below_index(error: ConfigError, index: usize) -> (r: ConfigError)
    ensures
        match error {
            ConfigError::Syntax { .. } => r == error,
            ConfigError::Shape { fault, path } => r.shape() == Some(
                ShapeError { fault, path: seq![index] + path@ },
            ),
        },
{
    match error {
        ConfigError::Syntax { message } => ConfigError::Syntax { message },
        ConfigError::Shape { fault, path } => {
            let mut path = path;
            let ghost old_path = path@;
            path.insert(0, index);
            assert(path@ =~= seq![index] + old_path);
            ConfigError::Shape { fault, path }
        },
    }
}

/// Reads one route out of a JSON value.
fn node_from_json(value: &serde_json::Value) -> (r: Result<NestedRoutesManifest, ConfigError>)
    ensures
        reads_as(r, node_of_json(json_tree(*value))),
    decreases json_tree(*value), 0nat,
{
    if !value.is_object() {
        return Err(ConfigError::Shape { fault: ShapeFault::NotAnObject, path: Vec::new() });
    }
    let file = match member(value, "file") {
        None => {
            return Err(ConfigError::Shape { fault: ShapeFault::MissingFile, path: Vec::new() });
        },
        Some(found) => match found.as_str() {
            None => {
                return Err(
                    ConfigError::Shape { fault: ShapeFault::FileNotText, path: Vec::new() },
                );
            },
            Some(text) => String::from_str(text),
        },
    };
    let children = match member(value, "children") {
        None => None,
        Some(found) => {
            if found.is_null() {
                None
            } else {
                match forest_from_json(found) {
                    Ok(routes) => {
                        proof {
                            lemma_forest_deep_view(routes);
                        }
                        Some(routes)
                    },
                    Err(e) => {
                        return Err(e);
                    },
                }
            }
        },
    };
    Ok(NestedRoutesManifest { file, children })
}

/// Reads the routes out of a JSON array.
fn forest_from_json(value: &serde_json::Value) -> (r: Result<
    Vec<NestedRoutesManifest>,
    ConfigError,
>)
    ensures
        reads_as(r, forest_of_json(json_tree(*value))),
    decreases json_tree(*value), 0nat,
{
    let elements = match value.as_array() {
        None => {
            return Err(ConfigError::Shape { fault: ShapeFault::NotAnArray, path: Vec::new() });
        },
        Some(elements) => elements,
    };
    let ghost items = json_trees(elements@);
    let mut routes: Vec<NestedRoutesManifest> = Vec::new();
    let mut i: usize = 0;
    assert(items.take(0) =~= Seq::<JsonTree>::empty());
    assert(routes.deep_view() =~= Seq::<RouteNode>::empty());
    while i < elements.len()
        invariant
            i <= elements.len(),
            items == json_trees(elements@),
            json_tree(*value) == JsonTree::Array(items),
            routes_of_items(items.take(i as int)) == Ok::<Seq<RouteNode>, ShapeError>(
                routes.deep_view(),
            ),
        decreases elements.len() - i,
    {
        let ghost front = routes.deep_view();
        assert(items.take(i + 1).drop_last() =~= items.take(i as int));
        assert(items.take(i + 1).last() == json_tree(elements@[i as int]));
        assert(items[i as int] == json_tree(elements@[i as int]));
        match node_from_json(&elements[i]) {
            Ok(route) => {
                routes.push(route);
                assert(routes.deep_view() =~= front.push(route.deep_view()));
            },
            Err(e) => {
                proof {
                    lemma_first_fault_stands(items, i + 1);
                }
                return Err(below_index(e, i));
            },
        }
        i += 1;
    }
    assert(items.take(i as int) =~= items);
    Ok(routes)
}

/// Reads a route manifest out of a parsed JSON document.
///
/// The document is an array of route objects. A route has a string under
/// `file` and may have an array of routes under `children`; a `children`
/// that is `null` counts as absent, and other members are ignored. The first
/// fragment that is none of this, in the order of the document, is reported
/// with the indices that lead to its route.
pub fn routes_from_json(document: &serde_json::Value) -> (r: Result<
    Vec<NestedRoutesManifest>,
    ConfigError,
>)
    ensures
        reads_as(r, forest_of_json(json_tree(*document))),
{
    forest_from_json(document)
}

/// What a manifest text describes: `None` where it is no JSON document, else
/// the routes of the document or the first fault in it.
pub open spec fn manifest_of_text(text: Seq<char>) -> Option<Result<Seq<RouteNode>, ShapeError>> {
    match json_parse(text) {
        Some(tree) => Some(forest_of_json(tree)),
        None => None,
    }
}

/// Parses the text of a route manifest.
///
/// Fails with [`ConfigError::Syntax`] exactly when the text is no JSON
/// document, and with [`ConfigError::Shape`] exactly when the document is no
/// route manifest; otherwise returns the routes as the document nests them.
pub fn parse_routes_manifest(text: &str) -> (r: Result<Vec<NestedRoutesManifest>, ConfigError>)
    ensures
        match manifest_of_text(text@) {
            Some(described) => reads_as(r, described),
            None => r matches Err(e) && e is Syntax,
        },
{
    match parse_value(text) {
        Ok(document) => routes_from_json(&document),
        Err(error) => Err(ConfigError::Syntax { message: error_message(&error) }),
    }
}

/// Parses the text of a route manifest and flattens it into the list of
/// route entry paths, parents before their children.
pub fn parse_routes_config(c: String) -> (r: Result<Vec<String>, ConfigError>)
    ensures
        match manifest_of_text(c@) {
            Some(Ok(forest)) => r matches Ok(paths) && paths.deep_view() == flatten_routes(forest),
            Some(Err(fault)) => r matches Err(e) && e.shape() == Some(fault),
            None => r matches Err(e) && e is Syntax,
        },
{
    match parse_routes_manifest(c.as_str()) {
        Ok(routes) => Ok(get_routes_file(routes)),
        Err(e) => Err(e),
    }
}

} // verus!
