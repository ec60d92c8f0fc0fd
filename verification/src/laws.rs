//! What holds of the two passes together, and of what they leave behind.

use vstd::prelude::*;
use crate::keep_export::{doomed_by_keep, keep_export_result};
use crate::module::{export_surface, DeclarationView, ExportView};
use crate::prune::{
    edge, first_unrecognized, is_live, lemma_prune_nothing, lemma_pruned_holds,
    lemma_pruned_origin, lemma_pruned_recognized, live_within, pruned, pruned_front, stays_as,
};
use crate::remove_export::{doomed_by_remove, remove_export_result};

verus! {

/// The test that a name is among `names`.
pub open spec fn listed_in(names: Seq<Seq<char>>) -> spec_fn(Seq<char>) -> bool {
    |name: Seq<char>| names.contains(name)
}

/// The test that a name is not among `names`.
pub open spec fn not_listed_in(names: Seq<Seq<char>>) -> spec_fn(Seq<char>) -> bool {
    |name: Seq<char>| !names.contains(name)
}

/// The exports of a pruned module are the exports that the module had and
/// whose clauses were not doomed, in their order.
proof fn lemma_surface_of_pruned(
    module: Seq<DeclarationView>,
    doomed: Seq<bool>,
    stays: spec_fn(Seq<char>) -> bool,
    n: nat,
)
    requires
        n <= module.len(),
        forall|i: int|
            0 <= i < n ==> doomed[i] == (module[i].export matches ExportView::Named(name)
                && !stays(name)),
    ensures
        export_surface(pruned_front(module, doomed, n)) == export_surface(
            module.take(n as int),
        ).filter(stays),
    decreases n,
{
    reveal(Seq::filter);
    if n == 0 {
        assert(module.take(0) =~= Seq::<DeclarationView>::empty());
    } else {
        let i = n - 1;
        let front = pruned_front(module, doomed, i as nat);
        let names = export_surface(module.take(i));
        lemma_surface_of_pruned(module, doomed, stays, i as nat);
        assert(module.take(n as int).drop_last() =~= module.take(i));
        assert(module.take(n as int).last() == module[i]);
        assert(front.push(module[i]).drop_last() =~= front);
        assert(front.push(module[i].demoted()).drop_last() =~= front);
        match module[i].export {
            ExportView::Named(name) => {
                assert(names.push(name).drop_last() =~= names);
            },
            _ => {},
        }
    }
}

/// After the keep-export pass a module exports exactly the retained names
/// that it exported before, in the order in which it declared them.
pub proof fn lemma_keep_export_surface(module: Seq<DeclarationView>, retained: Seq<Seq<char>>)
    ensures
        export_surface(keep_export_result(module, retained)) == export_surface(module).filter(
            listed_in(retained),
        ),
        forall|name: Seq<char>|
            export_surface(keep_export_result(module, retained)).contains(name) ==> retained.contains(
                name,
            ),
{
    lemma_surface_of_pruned(
        module,
        doomed_by_keep(module, retained),
        listed_in(retained),
        module.len(),
    );
    assert(module.take(module.len() as int) =~= module);
    let before = export_surface(module);
    let after = before.filter(listed_in(retained));
    assert forall|name: Seq<char>| after.contains(name) implies retained.contains(name) by {
        let k = choose|k: int| 0 <= k < after.len() && after[k] == name;
        before.lemma_filter_pred(listed_in(retained), k);
    }
}

/// After the remove-export pass a module exports exactly the names that it
/// exported before and that were not to be removed, in the order in which it
/// declared them. No removed name is left exported.
pub proof fn lemma_remove_export_surface(module: Seq<DeclarationView>, removed: Seq<Seq<char>>)
    ensures
        export_surface(remove_export_result(module, removed)) == export_surface(module).filter(
            not_listed_in(removed),
        ),
        forall|name: Seq<char>|
            removed.contains(name) ==> !export_surface(
                remove_export_result(module, removed),
            ).contains(name),
{
    lemma_surface_of_pruned(
        module,
        doomed_by_remove(module, removed),
        not_listed_in(removed),
        module.len(),
    );
    assert(module.take(module.len() as int) =~= module);
    let before = export_surface(module);
    let after = before.filter(not_listed_in(removed));
    assert forall|name: Seq<char>| after.contains(name) implies !removed.contains(name) by {
        let k = choose|k: int| 0 <= k < after.len() && after[k] == name;
        before.lemma_filter_pred(not_listed_in(removed), k);
    }
}

/// Running the remove-export pass again, with the same names, on what it left
/// behind changes nothing; and the second run fails no more than the first.
pub proof fn lemma_remove_export_idempotent(module: Seq<DeclarationView>, removed: Seq<Seq<char>>)
    ensures
        remove_export_result(remove_export_result(module, removed), removed)
            == remove_export_result(module, removed),
        first_unrecognized(module) is None ==> first_unrecognized(
            remove_export_result(module, removed),
        ) is None,
{
    let doomed = doomed_by_remove(module, removed);
    let once = remove_export_result(module, removed);
    let again = doomed_by_remove(once, removed);
    assert forall|k: int| 0 <= k < once.len() implies !again[k] by {
        lemma_pruned_origin(module, doomed, module.len(), k);
        let i = choose|i: int|
            0 <= i < module.len() && #[trigger] stays_as(module, doomed, i, once[k]);
    }
    lemma_prune_nothing(once, again, once.len());
    assert(once.take(once.len() as int) =~= once);
    if first_unrecognized(module) is None {
        lemma_pruned_recognized(module, doomed);
    }
}

/// Running the keep-export pass again, with the same names, on what it left
/// behind changes nothing.
pub proof fn lemma_keep_export_idempotent(module: Seq<DeclarationView>, retained: Seq<Seq<char>>)
    ensures
        keep_export_result(keep_export_result(module, retained), retained) == keep_export_result(
            module,
            retained,
        ),
{
    let doomed = doomed_by_keep(module, retained);
    let once = keep_export_result(module, retained);
    let again = doomed_by_keep(once, retained);
    assert forall|k: int| 0 <= k < once.len() implies !again[k] by {
        lemma_pruned_origin(module, doomed, module.len(), k);
        let i = choose|i: int|
            0 <= i < module.len() && #[trigger] stays_as(module, doomed, i, once[k]);
    }
    lemma_prune_nothing(once, again, once.len());
    assert(once.take(once.len() as int) =~= once);
}

/// After the keep-export pass, a remove-export pass that names only exports
/// that were not retained finds nothing to do: it does not fail, and leaves
/// the module as the first pass left it.
pub proof fn lemma_remove_after_keep(
    module: Seq<DeclarationView>,
    retained: Seq<Seq<char>>,
    removed: Seq<Seq<char>>,
)
    requires
        forall|name: Seq<char>| removed.contains(name) ==> !retained.contains(name),
    ensures
        remove_export_result(keep_export_result(module, retained), removed) == keep_export_result(
            module,
            retained,
        ),
        first_unrecognized(module) is None ==> first_unrecognized(
            keep_export_result(module, retained),
        ) is None,
{
    let doomed = doomed_by_keep(module, retained);
    let kept = keep_export_result(module, retained);
    let next = doomed_by_remove(kept, removed);
    assert forall|k: int| 0 <= k < kept.len() implies !next[k] by {
        lemma_pruned_origin(module, doomed, module.len(), k);
        let i = choose|i: int|
            0 <= i < module.len() && #[trigger] stays_as(module, doomed, i, kept[k]);
    }
    lemma_prune_nothing(kept, next, kept.len());
    assert(kept.take(kept.len() as int) =~= kept);
    if first_unrecognized(module) is None {
        lemma_pruned_recognized(module, doomed);
    }
}

/// A declaration that stays and refers to another makes the other stay.
pub proof fn lemma_live_reaches(
    module: Seq<DeclarationView>,
    doomed: Seq<bool>,
    from: int,
    to: int,
)
    requires
        0 <= from < module.len(),
        !doomed[from] || is_live(module, doomed, from),
        edge(module, from, to),
    ensures
        is_live(module, doomed, to),
{
    if !doomed[from] {
        assert(live_within(module, doomed, from, 0));
    }
    let rounds = choose|rounds: nat| live_within(module, doomed, from, rounds);
    assert(live_within(module, doomed, to, rounds + 1));
}

/// Pruning leaves no reference dangling: where a declaration of the pruned
/// module refers to a name that the module bound before, the pruned module
/// still binds it.
pub proof fn lemma_references_stay_bound(
    module: Seq<DeclarationView>,
    doomed: Seq<bool>,
    k: int,
    i: int,
)
    requires
        0 <= k < pruned(module, doomed).len(),
        0 <= i < module.len(),
        module[i].binding matches Some(name) && pruned(module, doomed)[k].references.contains(
            name,
        ),
    ensures
        exists|to: int|
            0 <= to < pruned(module, doomed).len() && (#[trigger] pruned(
                module,
                doomed,
            )[to]).binding == module[i].binding,
{
    let left = pruned(module, doomed);
    lemma_pruned_origin(module, doomed, module.len(), k);
    let from = choose|from: int|
        0 <= from < module.len() && #[trigger] stays_as(module, doomed, from, left[k]);
    assert(left[k].references == module[from].references);
    assert(edge(module, from, i));
    lemma_live_reaches(module, doomed, from, i);
    lemma_pruned_holds(module, doomed, module.len(), i);
    let to = choose|to: int|
        0 <= to < left.len() && #[trigger] stays_as(module, doomed, i, left[to]);
    assert(left[to].binding == module[i].binding);
}

/// Pruning keeps no stripped declaration for nothing: a declaration that
/// lost its export clause and stays binds a name that a declaration of the
/// pruned module refers to.
pub proof fn lemma_stripped_is_referenced(
    module: Seq<DeclarationView>,
    doomed: Seq<bool>,
    k: int,
    i: int,
)
    requires
        0 <= k < pruned(module, doomed).len(),
        stays_as(module, doomed, i, pruned(module, doomed)[k]),
        doomed[i],
    ensures
        pruned(module, doomed)[k].binding matches Some(name) && exists|from: int|
            0 <= from < pruned(module, doomed).len() && (#[trigger] pruned(
                module,
                doomed,
            )[from]).references.contains(name),
{
    let left = pruned(module, doomed);
    let rounds = choose|rounds: nat| live_within(module, doomed, i, rounds);
    let j = choose|j: int| #[trigger]
        edge(module, j, i) && live_within(module, doomed, j, (rounds - 1) as nat);
    assert(is_live(module, doomed, j));
    lemma_pruned_holds(module, doomed, module.len(), j);
    let from = choose|from: int|
        0 <= from < left.len() && #[trigger] stays_as(module, doomed, j, left[from]);
    assert(left[from].references == module[j].references);
    assert(left[k].binding == module[i].binding);
}

/// A declaration that binds no name does not outlive its export clause: once
/// the clause is doomed, nothing can refer to what is left. A re-export from
/// another module is such a declaration.
pub proof fn lemma_unbound_is_not_live(module: Seq<DeclarationView>, doomed: Seq<bool>, i: int)
    requires
        0 <= i < module.len(),
        doomed[i],
        module[i].binding is None,
    ensures
        !is_live(module, doomed, i),
{
    if is_live(module, doomed, i) {
        let rounds = choose|rounds: nat| live_within(module, doomed, i, rounds);
        let j = choose|j: int| #[trigger]
            edge(module, j, i) && live_within(module, doomed, j, (rounds - 1) as nat);
    }
}

} // verus!
