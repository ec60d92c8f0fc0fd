//! Stripping export clauses, and deciding which of the stripped declarations
//! stay behind as private bindings.
//!
//! Both passes work alike. Each dooms some export clauses. A declaration whose
//! clause is not doomed stays as it is. One whose clause is doomed loses the
//! clause; it stays as a private binding if code that stays refers to it, and
//! is deleted if none does.

use vstd::prelude::*;
use crate::module::{Declaration, DeclarationView, Export, ExportView, Module};
use crate::names::contains_name;

verus! {

/// Declaration `from` refers to the name that declaration `to` binds.
pub open spec fn edge(module: Seq<DeclarationView>, from: int, to: int) -> bool {
    &&& 0 <= from < module.len()
    &&& 0 <= to < module.len()
    &&& module[to].binding matches Some(name) && module[from].references.contains(name)
}

/// Declaration `i` is known to stay after `rounds` rounds: its export clause
/// is not doomed, or a declaration known to stay one round earlier refers to
/// it.
pub open spec fn live_within(
    module: Seq<DeclarationView>,
    doomed: Seq<bool>,
    i: int,
    rounds: nat,
) -> bool
    decreases rounds,
{
    &&& 0 <= i < module.len()
    &&& (!doomed[i] || (rounds > 0 && exists|j: int| #[trigger]
        edge(module, j, i) && live_within(module, doomed, j, (rounds - 1) as nat)))
}

/// Declaration `i` stays in the module: its export clause is not doomed, or
/// a chain of references leads to it from a declaration whose clause is not
/// doomed.
pub open spec fn is_live(module: Seq<DeclarationView>, doomed: Seq<bool>, i: int) -> bool {
    exists|rounds: nat| live_within(module, doomed, i, rounds)
}

/// What is left of the first `n` declarations: undoomed ones unchanged,
/// doomed ones that stay without their export clause, the rest gone.
pub open spec fn pruned_front(module: Seq<DeclarationView>, doomed: Seq<bool>, n: nat) -> Seq<
    DeclarationView,
>
    decreases n,
{
    if n == 0 {
        Seq::empty()
    } else {
        let i = n - 1;
        let front = pruned_front(module, doomed, i as nat);
        if !doomed[i] {
            front.push(module[i])
        } else if is_live(module, doomed, i) {
            front.push(module[i].demoted())
        } else {
            front
        }
    }
}

/// What is left of a module once the doomed export clauses are stripped.
pub open spec fn pruned(module: Seq<DeclarationView>, doomed: Seq<bool>) -> Seq<DeclarationView> {
    pruned_front(module, doomed, module.len())
}

/// Number of declarations not yet marked.
pub open spec fn unmarked(marks: Seq<bool>) -> nat
    decreases marks.len(),
{
    if marks.len() == 0 {
        0
    } else {
        unmarked(marks.drop_last()) + if marks.last() {
            0nat
        } else {
            1nat
        }
    }
}

/// Marking one more declaration leaves one fewer unmarked.
proof fn lemma_unmarked_after_mark(marks: Seq<bool>, i: int)
    requires
        0 <= i < marks.len(),
        !marks[i],
    ensures
        unmarked(marks.update(i, true)) + 1 == unmarked(marks),
    decreases marks.len(),
{
    let after = marks.update(i, true);
    if i == marks.len() - 1 {
        assert(after.drop_last() =~= marks.drop_last());
    } else {
        assert(after.drop_last() =~= marks.drop_last().update(i, true));
        lemma_unmarked_after_mark(marks.drop_last(), i);
    }
}

/// Index `i` waits in the work list.
pub open spec fn queued(work: Seq<usize>, i: int) -> bool {
    exists|w: int| 0 <= w < work.len() && #[trigger] work[w] == i
}

/// Every declaration that `from` refers to is marked.
pub open spec fn closed_at(module: Seq<DeclarationView>, marks: Seq<bool>, from: int) -> bool {
    forall|to: int| #[trigger] edge(module, from, to) ==> marks[to]
}

/// Marks every declaration that binds `name`, and queues the newly marked.
fn mark_bound(module: &Module, name: &String, live: &mut Vec<bool>, work: &mut Vec<usize>)
    requires
        old(live).len() == module@.len(),
    ensures
        final(live).len() == old(live).len(),
        forall|i: int|
            0 <= i < module@.len() ==> #[trigger] final(live)@[i] == (old(live)@[i]
                || module@[i].binding == Some(name@)),
        old(work)@.is_prefix_of(final(work)@),
        forall|w: int|
            old(work).len() <= w < final(work).len() ==> 0 <= #[trigger] final(work)@[w]
                < module@.len() && !old(live)@[final(work)@[w] as int]
                && final(live)@[final(work)@[w] as int],
        forall|i: int|
            0 <= i < module@.len() && final(live)@[i] && !old(live)@[i] ==> queued(
                final(work)@,
                i,
            ),
        unmarked(final(live)@) + final(work).len() == unmarked(old(live)@) + old(work).len(),
{
    let n = module.declarations.len();
    let mut i: usize = 0;
    while i < n
        invariant
            i <= n,
            n == module@.len(),
            n == module.declarations.len(),
            live.len() == n,
            forall|k: int|
                0 <= k < i ==> #[trigger] live@[k] == (old(live)@[k] || module@[k].binding == Some(
                    name@,
                )),
            forall|k: int| i <= k < n ==> #[trigger] live@[k] == old(live)@[k],
            old(work)@.is_prefix_of(work@),
            forall|w: int|
                old(work).len() <= w < work.len() ==> 0 <= #[trigger] work@[w] < i && !old(
                    live,
                )@[work@[w] as int] && live@[work@[w] as int],
            forall|k: int| 0 <= k < i && live@[k] && !old(live)@[k] ==> queued(work@, k),
            unmarked(live@) + work.len() == unmarked(old(live)@) + old(work).len(),
        decreases n - i,
    {
        assert(module@[i as int] == module.declarations@[i as int]@);
        if !live[i] && module.declarations[i].binds(name) {
            let ghost marks = live@;
            let ghost list = work@;
            proof {
                lemma_unmarked_after_mark(marks, i as int);
            }
            live.set(i, true);
            work.push(i);
            assert(work@[list.len() as int] == i);
            assert(queued(work@, i as int));
            assert forall|k: int| 0 <= k < i && live@[k] && !old(live)@[k] implies queued(
                work@,
                k,
            ) by {
                assert(queued(list, k));
                let w = choose|w: int| 0 <= w < list.len() && #[trigger] list[w] == k;
                assert(work@[w] == k);
            }
        }
        i += 1;
    }
}

/// Declaration `from` refers, among its first `upto` references, to the name
/// that declaration `to` binds.
pub open spec fn edge_within(module: Seq<DeclarationView>, from: int, to: int, upto: int) -> bool {
    &&& 0 <= from < module.len()
    &&& 0 <= to < module.len()
    &&& exists|r: int|
        0 <= r < upto && r < module[from].references.len() && module[to].binding == Some(
            #[trigger] module[from].references[r],
        )
}

/// What waits in a work list still waits once the list has grown.
proof fn lemma_queued_stays(before: Seq<usize>, after: Seq<usize>, i: int)
    requires
        before.is_prefix_of(after),
        queued(before, i),
    ensures
        queued(after, i),
{
    let w = choose|w: int| 0 <= w < before.len() && #[trigger] before[w] == i;
    assert(after[w] == i);
}

/// Marks every declaration that declaration `from` refers to, and queues the
/// newly marked.
fn mark_referenced(module: &Module, from: usize, live: &mut Vec<bool>, work: &mut Vec<usize>)
    requires
        from < module@.len(),
        old(live).len() == module@.len(),
    ensures
        final(live).len() == old(live).len(),
        forall|i: int|
            0 <= i < module@.len() ==> #[trigger] final(live)@[i] == (old(live)@[i] || edge(
                module@,
                from as int,
                i,
            )),
        old(work)@.is_prefix_of(final(work)@),
        forall|w: int|
            old(work).len() <= w < final(work).len() ==> 0 <= #[trigger] final(work)@[w]
                < module@.len() && !old(live)@[final(work)@[w] as int]
                && final(live)@[final(work)@[w] as int],
        forall|i: int|
            0 <= i < module@.len() && final(live)@[i] && !old(live)@[i] ==> queued(
                final(work)@,
                i,
            ),
        unmarked(final(live)@) + final(work).len() == unmarked(old(live)@) + old(work).len(),
{
    let ghost m = module@;
    assert(m[from as int] == module.declarations@[from as int]@);
    let references = &module.declarations[from].references;
    assert(references.deep_view() == m[from as int].references);
    let mut r: usize = 0;
    while r < references.len()
        invariant
            r <= references.len(),
            m == module@,
            from < m.len(),
            references.deep_view() == m[from as int].references,
            live.len() == m.len(),
            forall|i: int|
                0 <= i < m.len() ==> #[trigger] live@[i] == (old(live)@[i] || edge_within(
                    m,
                    from as int,
                    i,
                    r as int,
                )),
            old(work)@.is_prefix_of(work@),
            forall|w: int|
                old(work).len() <= w < work.len() ==> 0 <= #[trigger] work@[w] < m.len() && !old(
                    live,
                )@[work@[w] as int] && live@[work@[w] as int],
            forall|i: int| 0 <= i < m.len() && live@[i] && !old(live)@[i] ==> queued(work@, i),
            unmarked(live@) + work.len() == unmarked(old(live)@) + old(work).len(),
        decreases references.len() - r,
    {
        let ghost marks = live@;
        let ghost list = work@;
        let name = &references[r];
        assert(name@ == m[from as int].references[r as int]);
        mark_bound(module, name, live, work);
        assert forall|i: int| 0 <= i < m.len() implies #[trigger] live@[i] == (old(live)@[i]
            || edge_within(m, from as int, i, r + 1)) by {
            if m[i].binding == Some(name@) {
                assert(edge_within(m, from as int, i, r + 1));
            }
            if edge_within(m, from as int, i, r + 1) && !edge_within(m, from as int, i, r as int) {
                assert(m[i].binding == Some(name@));
            }
        }
        assert forall|i: int| 0 <= i < m.len() && live@[i] && !old(live)@[i] implies queued(
            work@,
            i,
        ) by {
            if marks[i] {
                lemma_queued_stays(list, work@, i);
            }
        }
        assert forall|w: int| old(work).len() <= w < work.len() implies 0 <= #[trigger] work@[w]
            < m.len() && !old(live)@[work@[w] as int] && live@[work@[w] as int] by {
            if w < list.len() {
                assert(work@[w] == list[w]);
            }
            let k = work@[w] as int;
            assert(marks[k] == (old(live)@[k] || edge_within(m, from as int, k, r as int)));
        }
        r += 1;
    }
    assert forall|i: int| 0 <= i < m.len() implies (edge_within(
        m,
        from as int,
        i,
        references.len() as int,
    ) <==> edge(m, from as int, i)) by {
        let refs = m[from as int].references;
        if edge(m, from as int, i) {
            let name = m[i].binding.unwrap();
            let k = choose|k: int| 0 <= k < refs.len() && refs[k] == name;
            assert(m[i].binding == Some(refs[k]));
        }
    }
}

/// Marks the declarations that stay in the module: those whose export clause
/// is not doomed, and those that a chain of references reaches from them.
pub(crate) fn mark_live(module: &Module, doomed: &Vec<bool>) -> (live: Vec<bool>)
    requires
        doomed.len() == module@.len(),
    ensures
        live.len() == module@.len(),
        forall|i: int|
            0 <= i < module@.len() ==> #[trigger] live@[i] == is_live(module@, doomed@, i),
{
    let ghost m = module@;
    let n = module.declarations.len();
    let mut live: Vec<bool> = Vec::new();
    let mut work: Vec<usize> = Vec::new();
    let mut i: usize = 0;
    while i < n
        invariant
            i <= n,
            n == m.len(),
            doomed.len() == n,
            live.len() == i,
            forall|k: int| 0 <= k < i ==> #[trigger] live@[k] == !doomed@[k],
            forall|w: int|
                0 <= w < work.len() ==> 0 <= #[trigger] work@[w] < i && live@[work@[w] as int],
            forall|k: int| 0 <= k < i && live@[k] ==> queued(work@, k),
        decreases n - i,
    {
        let ghost list = work@;
        live.push(!doomed[i]);
        if !doomed[i] {
            work.push(i);
            assert(work@[list.len() as int] == i);
            assert forall|k: int| 0 <= k < i + 1 && live@[k] implies queued(work@, k) by {
                if k < i {
                    assert(list.is_prefix_of(work@));
                    lemma_queued_stays(list, work@, k);
                }
            }
        }
        i += 1;
    }
    assert forall|k: int| 0 <= k < n && live@[k] implies is_live(m, doomed@, k) by {
        assert(live_within(m, doomed@, k, 0));
    }
    while work.len() > 0
        invariant
            m == module@,
            n == m.len(),
            doomed.len() == n,
            live.len() == n,
            forall|k: int| 0 <= k < n && !doomed@[k] ==> live@[k],
            forall|k: int| 0 <= k < n && live@[k] ==> is_live(m, doomed@, k),
            forall|w: int|
                0 <= w < work.len() ==> 0 <= #[trigger] work@[w] < n && live@[work@[w] as int],
            forall|k: int|
                0 <= k < n && live@[k] ==> closed_at(m, live@, k) || queued(work@, k),
        decreases unmarked(live@), work.len(),
    {
        let ghost marks = live@;
        let ghost list = work@;
        let from = work.pop().unwrap();
        let ghost rest = work@;
        assert(rest =~= list.drop_last());
        assert(from == list[list.len() - 1]);
        mark_referenced(module, from, &mut live, &mut work);
        proof {
            let rounds = choose|rounds: nat| live_within(m, doomed@, from as int, rounds);
            assert forall|k: int| 0 <= k < n && live@[k] implies is_live(m, doomed@, k) by {
                if !marks[k] {
                    assert(edge(m, from as int, k));
                    assert(live_within(m, doomed@, k, rounds + 1));
                }
            }
            assert forall|k: int| 0 <= k < n && live@[k] implies closed_at(m, live@, k) || queued(
                work@,
                k,
            ) by {
                if k == from {
                    assert(closed_at(m, live@, k));
                } else if !marks[k] {
                    assert(queued(work@, k));
                } else if queued(list, k) {
                    let w = choose|w: int| 0 <= w < list.len() && #[trigger] list[w] == k;
                    assert(rest[w] == k);
                    assert(queued(rest, k));
                    lemma_queued_stays(rest, work@, k);
                } else {
                    assert(closed_at(m, marks, k));
                    assert(closed_at(m, live@, k));
                }
            }
            assert forall|w: int| 0 <= w < work.len() implies 0 <= #[trigger] work@[w] < n
                && live@[work@[w] as int] by {
                if w < rest.len() {
                    assert(work@[w] == rest[w]);
                    assert(rest[w] == list[w]);
                }
            }
            if work.len() >= list.len() {
                assert(unmarked(live@) < unmarked(marks));
            }
        }
    }
    proof {
        assert forall|k: int| 0 <= k < n implies #[trigger] live@[k] == is_live(m, doomed@, k) by {
            if is_live(m, doomed@, k) {
                let rounds = choose|rounds: nat| live_within(m, doomed@, k, rounds);
                lemma_closed_marks_hold_live(m, doomed@, live@, k, rounds);
            }
        }
    }
    live
}

/// Marks that hold every undoomed declaration and are closed under
/// references hold every declaration that stays.
proof fn lemma_closed_marks_hold_live(
    module: Seq<DeclarationView>,
    doomed: Seq<bool>,
    marks: Seq<bool>,
    i: int,
    rounds: nat,
)
    requires
        marks.len() == module.len(),
        forall|k: int| 0 <= k < module.len() && !doomed[k] ==> marks[k],
        forall|k: int| 0 <= k < module.len() && marks[k] ==> closed_at(module, marks, k),
        live_within(module, doomed, i, rounds),
    ensures
        marks[i],
    decreases rounds,
{
    if doomed[i] {
        let j = choose|j: int| #[trigger]
            edge(module, j, i) && live_within(module, doomed, j, (rounds - 1) as nat);
        lemma_closed_marks_hold_live(module, doomed, marks, j, (rounds - 1) as nat);
        assert(closed_at(module, marks, j));
    }
}

/// Strips the doomed export clauses: a declaration whose clause is doomed
/// stays as a private binding if it is live, and is deleted if not. The
/// others, and the order of what stays, are untouched.
pub(crate) fn prune(module: &mut Module, doomed: &Vec<bool>)
    requires
        doomed.len() == old(module)@.len(),
    ensures
        final(module)@ == pruned(old(module)@, doomed@),
{
    let ghost m = module@;
    let live = mark_live(module, doomed);
    let n = module.declarations.len();
    let mut kept: Vec<Declaration> = Vec::new();
    let mut i: usize = 0;
    assert(kept.deep_view() =~= pruned_front(m, doomed@, 0));
    while i < n
        invariant
            i <= n,
            m == module@,
            n == m.len(),
            n == module.declarations.len(),
            doomed.len() == n,
            live.len() == n,
            forall|k: int| 0 <= k < n ==> #[trigger] live@[k] == is_live(m, doomed@, k),
            kept.deep_view() == pruned_front(m, doomed@, i as nat),
        decreases n - i,
    {
        let ghost front = kept.deep_view();
        assert(m[i as int] == module.declarations@[i as int]@);
        if !doomed[i] {
            kept.push(module.declarations[i].clone());
            assert(kept.deep_view() =~= front.push(m[i as int]));
        } else if live[i] {
            kept.push(module.declarations[i].demoted());
            assert(kept.deep_view() =~= front.push(m[i as int].demoted()));
        }
        i += 1;
    }
    module.declarations = kept;
}

/// The first declaration whose export is in a form that the passes do not
/// recognise, if there is one.
pub open spec fn first_unrecognized(module: Seq<DeclarationView>) -> Option<int>
    decreases module.len(),
{
    if module.len() == 0 {
        None
    } else {
        match first_unrecognized(module.drop_last()) {
            Some(i) => Some(i),
            None => if module.last().export is Unrecognized {
                Some(module.len() - 1)
            } else {
                None
            },
        }
    }
}

/// [`first_unrecognized`] names the first such declaration, and names none
/// only where there is none.
pub proof fn lemma_first_unrecognized(module: Seq<DeclarationView>)
    ensures
        match first_unrecognized(module) {
            Some(i) => {
                &&& 0 <= i < module.len()
                &&& module[i].export is Unrecognized
                &&& forall|k: int| 0 <= k < i ==> !((#[trigger] module[k]).export is Unrecognized)
            },
            None => forall|k: int|
                0 <= k < module.len() ==> !((#[trigger] module[k]).export is Unrecognized),
        },
    decreases module.len(),
{
    if module.len() > 0 {
        let front = module.drop_last();
        lemma_first_unrecognized(front);
        assert forall|k: int| 0 <= k < front.len() implies front[k] == module[k] by {}
        match first_unrecognized(front) {
            Some(i) => {
                assert forall|k: int| 0 <= k < i implies !((#[trigger] module[k]).export
                    is Unrecognized) by {
                    assert(front[k] == module[k]);
                }
            },
            None => {
                assert forall|k: int| 0 <= k < module.len() - 1 implies !((#[trigger] module[k]).export
                    is Unrecognized) by {
                    assert(front[k] == module[k]);
                }
            },
        }
    }
}

/// Finds the first declaration whose export is in an unrecognised form.
pub fn find_unrecognized(module: &Module) -> (r: Option<usize>)
    ensures
        match first_unrecognized(module@) {
            Some(i) => r matches Some(found) && found == i && 0 <= i < module@.len(),
            None => r is None,
        },
{
    proof {
        lemma_first_unrecognized(module@);
    }
    let ghost m = module@;
    let mut i: usize = 0;
    assert(m.take(0) =~= Seq::<DeclarationView>::empty());
    while i < module.declarations.len()
        invariant
            i <= module.declarations.len(),
            m == module@,
            first_unrecognized(m.take(i as int)) is None,
        decreases module.declarations.len() - i,
    {
        assert(m.take(i + 1).drop_last() =~= m.take(i as int));
        assert(m.take(i + 1).last() == module.declarations@[i as int]@);
        match &module.declarations[i].export {
            Export::Unrecognized => {
                proof {
                    lemma_first_unrecognized_stands(m, i + 1);
                }
                return Some(i);
            },
            _ => {},
        }
        i += 1;
    }
    assert(m.take(i as int) =~= m);
    None
}

/// An unrecognised export found in a front part of the module is the first
/// of the whole module.
proof fn lemma_first_unrecognized_stands(module: Seq<DeclarationView>, n: int)
    requires
        0 <= n <= module.len(),
        first_unrecognized(module.take(n)) is Some,
    ensures
        first_unrecognized(module) == first_unrecognized(module.take(n)),
    decreases module.len() - n,
{
    if n < module.len() {
        assert(module.take(n + 1).drop_last() =~= module.take(n));
        lemma_first_unrecognized_stands(module, n + 1);
    } else {
        assert(module.take(n) =~= module);
    }
}

/// The export clauses that a list of names dooms: those under a listed name
/// where `listed` is true, those under any other name where it is false.
pub open spec fn doomed_exports(
    module: Seq<DeclarationView>,
    names: Seq<Seq<char>>,
    listed: bool,
) -> Seq<bool> {
    Seq::new(
        module.len(),
        |i: int|
            module[i].export matches ExportView::Named(name) && names.contains(name) == listed,
    )
}

/// Decides for each declaration whether its export clause is doomed.
pub fn doom_exports(module: &Module, names: &Vec<String>, listed: bool) -> (doomed: Vec<bool>)
    ensures
        doomed@ == doomed_exports(module@, names.deep_view(), listed),
{
    let ghost m = module@;
    let n = module.declarations.len();
    let mut doomed: Vec<bool> = Vec::new();
    let mut i: usize = 0;
    while i < n
        invariant
            i <= n,
            m == module@,
            n == module.declarations.len(),
            doomed.len() == i,
            forall|k: int|
                0 <= k < i ==> #[trigger] doomed@[k] == doomed_exports(
                    m,
                    names.deep_view(),
                    listed,
                )[k],
        decreases n - i,
    {
        assert(m[i as int] == module.declarations@[i as int]@);
        let strip = match &module.declarations[i].export {
            Export::Named(name) => contains_name(names, name) == listed,
            _ => false,
        };
        doomed.push(strip);
        i += 1;
    }
    assert(doomed@ =~= doomed_exports(m, names.deep_view(), listed));
    doomed
}

/// Declaration `i` stays in the pruned module as `left`: unchanged where its
/// export clause is not doomed, without the clause where it is doomed and the
/// declaration is live.
pub open spec fn stays_as(
    module: Seq<DeclarationView>,
    doomed: Seq<bool>,
    i: int,
    left: DeclarationView,
) -> bool {
    &&& 0 <= i < module.len()
    &&& if doomed[i] {
        is_live(module, doomed, i) && left == module[i].demoted()
    } else {
        left == module[i]
    }
}

/// Every declaration of a pruned module is a declaration that stays, of the
/// module as it was.
pub proof fn lemma_pruned_origin(module: Seq<DeclarationView>, doomed: Seq<bool>, n: nat, k: int)
    requires
        n <= module.len(),
        0 <= k < pruned_front(module, doomed, n).len(),
    ensures
        exists|i: int|
            0 <= i < n && #[trigger] stays_as(module, doomed, i, pruned_front(module, doomed, n)[k]),
    decreases n,
{
    let i = n - 1;
    let front = pruned_front(module, doomed, i as nat);
    if k < front.len() {
        lemma_pruned_origin(module, doomed, i as nat, k);
        let j = choose|j: int| 0 <= j < i && #[trigger] stays_as(module, doomed, j, front[k]);
        assert(pruned_front(module, doomed, n)[k] == front[k]);
        assert(stays_as(module, doomed, j, pruned_front(module, doomed, n)[k]));
    } else {
        assert(stays_as(module, doomed, i, pruned_front(module, doomed, n)[k]));
    }
}

/// Every declaration that stays is a declaration of the pruned module.
pub proof fn lemma_pruned_holds(module: Seq<DeclarationView>, doomed: Seq<bool>, n: nat, i: int)
    requires
        n <= module.len(),
        0 <= i < n,
        !doomed[i] || is_live(module, doomed, i),
    ensures
        exists|k: int|
            0 <= k < pruned_front(module, doomed, n).len() && #[trigger] stays_as(
                module,
                doomed,
                i,
                pruned_front(module, doomed, n)[k],
            ),
    decreases n,
{
    let last = n - 1;
    let front = pruned_front(module, doomed, last as nat);
    let whole = pruned_front(module, doomed, n);
    if i < last {
        lemma_pruned_holds(module, doomed, last as nat, i);
        let k = choose|k: int|
            0 <= k < front.len() && #[trigger] stays_as(module, doomed, i, front[k]);
        assert(whole[k] == front[k]);
        assert(stays_as(module, doomed, i, whole[k]));
    } else {
        let k = front.len() as int;
        assert(stays_as(module, doomed, i, whole[k]));
    }
}

/// Where no export clause is doomed, pruning changes nothing.
pub proof fn lemma_prune_nothing(module: Seq<DeclarationView>, doomed: Seq<bool>, n: nat)
    requires
        n <= module.len(),
        forall|i: int| 0 <= i < n ==> !doomed[i],
    ensures
        pruned_front(module, doomed, n) == module.take(n as int),
    decreases n,
{
    if n > 0 {
        lemma_prune_nothing(module, doomed, (n - 1) as nat);
        assert(module.take(n as int) =~= module.take(n - 1).push(module[n - 1]));
    } else {
        assert(module.take(0) =~= Seq::<DeclarationView>::empty());
    }
}

/// Pruning brings in no export of an unrecognised form.
pub proof fn lemma_pruned_recognized(module: Seq<DeclarationView>, doomed: Seq<bool>)
    requires
        first_unrecognized(module) is None,
    ensures
        first_unrecognized(pruned(module, doomed)) is None,
{
    let result = pruned(module, doomed);
    lemma_first_unrecognized(module);
    lemma_first_unrecognized(result);
    if first_unrecognized(result) is Some {
        let k = first_unrecognized(result).unwrap();
        lemma_pruned_origin(module, doomed, module.len(), k);
        let i = choose|i: int|
            0 <= i < module.len() && #[trigger] stays_as(module, doomed, i, result[k]);
        assert(!(module[i].export is Unrecognized));
    }
}

} // verus!
