//! The nested route manifest and its flattening into route entry paths.

use vstd::prelude::*;

verus! {

/// One entry of the route manifest: a page file and the routes nested under it.
#[derive(Debug, PartialEq, Eq)]
pub struct NestedRoutesManifest {
    pub file: String,
    pub children: Option<Vec<NestedRoutesManifest>>,
}

/// The mathematical value of a manifest entry.
pub ghost struct RouteNode {
    pub file: Seq<char>,
    pub children: Option<Seq<RouteNode>>,
}

/// The value of one manifest entry.
pub open spec fn node_view(node: NestedRoutesManifest) -> RouteNode
    decreases node,
{
    RouteNode {
        file: node.file@,
        children: match node.children {
            Some(c) => Some(forest_view(c@)),
            None => None,
        },
    }
}

/// The values of a sequence of manifest entries, in order.
pub open spec fn forest_view(nodes: Seq<NestedRoutesManifest>) -> Seq<RouteNode>
    decreases nodes,
{
    if nodes.len() == 0 {
        Seq::empty()
    } else {
        forest_view(nodes.drop_last()).push(node_view(nodes.last()))
    }
}

impl View for NestedRoutesManifest {
    type V = RouteNode;

    open spec fn view(&self) -> RouteNode {
        node_view(*self)
    }
}

impl DeepView for NestedRoutesManifest {
    type V = RouteNode;

    open spec fn deep_view(&self) -> RouteNode {
        node_view(*self)
    }
}

/// The value of a sequence of entries holds the value of each entry, in order.
pub proof fn lemma_forest_view(nodes: Seq<NestedRoutesManifest>)
    ensures
        forest_view(nodes).len() == nodes.len(),
        forall|i: int| 0 <= i < nodes.len() ==> forest_view(nodes)[i] == node_view(#[trigger] nodes[i]),
    decreases nodes.len(),
{
    if nodes.len() > 0 {
        let front = nodes.drop_last();
        lemma_forest_view(front);
        assert forall|i: int| 0 <= i < nodes.len() implies forest_view(nodes)[i] == node_view(
            #[trigger] nodes[i],
        ) by {
            if i < front.len() {
                assert(front[i] == nodes[i]);
            }
        }
    }
}

/// The value of a vector of entries is the vector's deep view.
pub proof fn lemma_forest_deep_view(nodes: Vec<NestedRoutesManifest>)
    ensures
        nodes.deep_view() == forest_view(nodes@),
{
    lemma_forest_view(nodes@);
    assert(nodes.deep_view() =~= forest_view(nodes@));
}

/// The directory, relative to the project root, that every route file lives in.
pub open spec fn pages_prefix() -> Seq<char> {
    "src/pages/"@
}

/// The route entry path of a manifest entry's file.
pub open spec fn route_path(file: Seq<char>) -> Seq<char> {
    pages_prefix() + file
}

/// Number of entries in a forest of manifest entries, at every depth.
pub open spec fn node_count(forest: Seq<RouteNode>) -> nat
    decreases forest,
{
    if forest.len() == 0 {
        0
    } else {
        let below: nat = match forest.last().children {
            Some(c) => node_count(c),
            None => 0,
        };
        node_count(forest.drop_last()) + 1 + below
    }
}

/// The route entry paths of a forest in pre-order: each entry's own path,
/// then those of its children, then those of the entries after it.
pub open spec fn flatten_routes(forest: Seq<RouteNode>) -> Seq<Seq<char>>
    decreases forest,
{
    if forest.len() == 0 {
        Seq::empty()
    } else {
        let below = match forest.last().children {
            Some(c) => flatten_routes(c),
            None => Seq::empty(),
        };
        flatten_routes(forest.drop_last()).push(route_path(forest.last().file)) + below
    }
}

/// Flattening yields one path per entry of the forest, and every path starts
/// with the pages directory.
pub proof fn lemma_flatten_routes_shape(forest: Seq<RouteNode>)
    ensures
        flatten_routes(forest).len() == node_count(forest),
        forall|k: int|
            0 <= k < flatten_routes(forest).len() ==> pages_prefix().is_prefix_of(
                #[trigger] flatten_routes(forest)[k],
            ),
    decreases forest,
{
    if forest.len() > 0 {
        lemma_flatten_routes_shape(forest.drop_last());
        match forest.last().children {
            Some(c) => {
                lemma_flatten_routes_shape(c);
            },
            None => {},
        }
        assert(pages_prefix().is_prefix_of(route_path(forest.last().file)));
    }
}

/// Flattening a forest cut after its first `n + 1` entries extends the
/// flattening of its first `n` entries by the paths of entry `n`.
proof fn lemma_flatten_routes_step(forest: Seq<RouteNode>, n: int)
    requires
        0 <= n < forest.len(),
    ensures
        flatten_routes(forest.take(n + 1)) == flatten_routes(forest.take(n)).push(
            route_path(forest[n].file),
        ) + match forest[n].children {
            Some(c) => flatten_routes(c),
            None => Seq::empty(),
        },
{
    assert(forest.take(n + 1).drop_last() =~= forest.take(n));
    assert(forest.take(n + 1).last() == forest[n]);
}

/// The paths of the routes in `routes`, in the order of [`flatten_routes`].
fn collect_route_files(routes: &Vec<NestedRoutesManifest>) -> (result: Vec<String>)
    ensures
        result.deep_view() == flatten_routes(routes.deep_view()),
    decreases routes,
{
    let ghost forest = routes.deep_view();
    let mut result: Vec<String> = Vec::new();
    let mut i: usize = 0;
    assert(result.deep_view() =~= flatten_routes(forest.take(0)));
    while i < routes.len()
        invariant
            i <= routes.len(),
            forest == routes.deep_view(),
            result.deep_view() == flatten_routes(forest.take(i as int)),
        decreases routes.len() - i,
    {
        let route = &routes[i];
        let ghost before = result.deep_view();
        let mut path_str = String::from_str("src/pages/");
        path_str.append(route.file.as_str());
        result.push(path_str);
        assert(result.deep_view() =~= before.push(route_path(forest[i as int].file)));
        match &route.children {
            Some(children) => {
                let mut below = collect_route_files(children);
                let ghost own = result.deep_view();
                let ghost add = below.deep_view();
                result.append(&mut below);
                assert(result.deep_view() =~= own + add);
                proof {
                    lemma_forest_deep_view(*children);
                }
            },
            None => {
                assert(result.deep_view() =~= result.deep_view() + Seq::<Seq<char>>::empty());
            },
        }
        proof {
            lemma_flatten_routes_step(forest, i as int);
        }
        i += 1;
    }
    assert(forest.take(i as int) =~= forest);
    result
}

/// Flattens the route manifest into the list of route entry paths.
///
/// Every entry contributes the pages directory followed by its file, whether
/// or not it has children; an entry comes before its children, and the
/// manifest's order is kept.
pub fn get_routes_file(routes: Vec<NestedRoutesManifest>) -> (result: Vec<String>)
    ensures
        result.deep_view() == flatten_routes(routes.deep_view()),
        result.len() == node_count(routes.deep_view()),
        forall|k: int|
            0 <= k < result.len() ==> pages_prefix().is_prefix_of(#[trigger] result.deep_view()[k]),
{
    proof {
        lemma_flatten_routes_shape(routes.deep_view());
    }
    collect_route_files(&routes)
}

} // verus!

