//! What the reconciliation plan guarantees.
use vstd::prelude::*;
use crate::cells::{ClonedCellView, DnaModifiersView};
use crate::reconcile::{first_match, is_requested, lemma_first_match, reconciliation_plan, request_step, request_steps, retirement_step, retirement_steps, ReconcileActionView, RequestedCloneView};

verus! {

/// The state in which nothing is left to do: every request's clone runs, and
/// every running clone is requested.
pub open spec fn is_reconciled(requests: Seq<RequestedCloneView>, cells: Seq<ClonedCellView>) -> bool {
    &&& forall|k: int|
        0 <= k < requests.len() ==> match first_match(cells, #[trigger] requests[k].dna_modifiers) {
            Some(i) => cells[i].enabled,
            None => false,
        }
    &&& forall|j: int|
        0 <= j < cells.len() && #[trigger] cells[j].enabled ==> is_requested(
            requests,
            cells[j].dna_modifiers,
        )
}

/// The cells with the clone `clone_id` set to run or not.
pub open spec fn set_enabled(cells: Seq<ClonedCellView>, clone_id: Seq<char>, enabled: bool) -> Seq<
    ClonedCellView,
> {
    cells.map_values(
        |c: ClonedCellView|
            if c.clone_id == clone_id {
                ClonedCellView { clone_id: c.clone_id, dna_modifiers: c.dna_modifiers, enabled: enabled }
            } else {
                c
            },
    )
}

/// The cloned cells after an action; a created clone gets the id `new_id`
/// from the conductor and is enabled.
pub open spec fn apply_action(cells: Seq<ClonedCellView>, action: ReconcileActionView, new_id: Seq<char>) -> Seq<
    ClonedCellView,
> {
    match action {
        ReconcileActionView::Reenable { clone_id, request } => set_enabled(cells, clone_id, true),
        ReconcileActionView::Create { request, dna_modifiers } => cells.push(
            ClonedCellView { clone_id: new_id, dna_modifiers: dna_modifiers, enabled: true },
        ),
        ReconcileActionView::Disable { clone_id, dna_modifiers } => set_enabled(cells, clone_id, false),
    }
}

/// The cloned cells after the actions of `plan`, in order; the action at index `s`
/// that creates a clone gives it the id `new_ids[s]`.
pub open spec fn apply_plan(cells: Seq<ClonedCellView>, plan: Seq<ReconcileActionView>, new_ids: Seq<Seq<char>>) -> Seq<
    ClonedCellView,
>
    decreases plan.len(),
{
    if plan.len() == 0 {
        cells
    } else {
        apply_action(apply_plan(cells, plan.drop_last(), new_ids), plan.last(), new_ids[plan.len() - 1])
    }
}

/// No two cloned cells of a role share a clone id.
pub open spec fn clone_ids_unique(cells: Seq<ClonedCellView>) -> bool {
    forall|i: int, j: int|
        0 <= i < cells.len() && 0 <= j < cells.len() && i != j ==> #[trigger] cells[i].clone_id
            != #[trigger] cells[j].clone_id
}

/// `clone_id` is the id of none of the cells.
pub open spec fn is_fresh(clone_id: Seq<char>, cells: Seq<ClonedCellView>) -> bool {
    forall|l: int| 0 <= l < cells.len() ==> #[trigger] cells[l].clone_id != clone_id
}

/// The reason for an action that serves a request: a re-enabled clone is the
/// disabled first clone of a request, and a created one is for a request without a clone.
pub open spec fn serves_request(
    requests: Seq<RequestedCloneView>,
    cells: Seq<ClonedCellView>,
    action: ReconcileActionView,
) -> bool {
    match action {
        ReconcileActionView::Reenable { clone_id, request } => exists|k: int|
            0 <= k < requests.len() && (#[trigger] requests[k]).entry_hash == request && match first_match(
                cells,
                requests[k].dna_modifiers,
            ) {
                Some(i) => cells[i].clone_id == clone_id && !cells[i].enabled,
                None => false,
            },
        ReconcileActionView::Create { request, dna_modifiers } => exists|k: int|
            0 <= k < requests.len() && (#[trigger] requests[k]).entry_hash == request
                && requests[k].dna_modifiers == dna_modifiers && first_match(cells, dna_modifiers) is None,
        ReconcileActionView::Disable { clone_id, dna_modifiers } => false,
    }
}

/// The reason for an action that retires a clone: it runs and no request asks for it.
pub open spec fn retires_clone(
    requests: Seq<RequestedCloneView>,
    cells: Seq<ClonedCellView>,
    action: ReconcileActionView,
) -> bool {
    match action {
        ReconcileActionView::Disable { clone_id, dna_modifiers } => exists|j: int|
            0 <= j < cells.len() && (#[trigger] cells[j]).clone_id == clone_id && cells[j].dna_modifiers
                == dna_modifiers && cells[j].enabled && !is_requested(requests, dna_modifiers),
        _ => false,
    }
}

/// A request is served by a plan when its clone runs or the plan enables or creates one.
pub open spec fn request_served(
    plan: Seq<ReconcileActionView>,
    cells: Seq<ClonedCellView>,
    request: RequestedCloneView,
) -> bool {
    match first_match(cells, request.dna_modifiers) {
        Some(i) => cells[i].enabled || exists|s: int|
            0 <= s < plan.len() && #[trigger] plan[s] == (ReconcileActionView::Reenable {
                clone_id: cells[i].clone_id,
                request: request.entry_hash,
            }),
        None => exists|s: int|
            0 <= s < plan.len() && #[trigger] plan[s] == (ReconcileActionView::Create {
                request: request.entry_hash,
                dna_modifiers: request.dna_modifiers,
            }),
    }
}

proof fn lemma_request_steps_reasons(requests: Seq<RequestedCloneView>, cells: Seq<ClonedCellView>)
    ensures
        forall|s: int|
            0 <= s < request_steps(requests, cells).len() ==> serves_request(
                requests,
                cells,
                #[trigger] request_steps(requests, cells)[s],
            ),
        forall|k: int|
            0 <= k < requests.len() ==> request_served(
                request_steps(requests, cells),
                cells,
                #[trigger] requests[k],
            ),
    decreases requests.len(),
{
    if requests.len() > 0 {
        let front = requests.drop_last();
        let last = requests.last();
        let n = requests.len() - 1;
        lemma_request_steps_reasons(front, cells);
        lemma_first_match(cells, last.dna_modifiers);
        let head = request_steps(front, cells);
        let tail = request_step(cells, last);
        let all = request_steps(requests, cells);
        assert(all == head + tail);
        assert forall|s: int| 0 <= s < all.len() implies serves_request(
            requests,
            cells,
            #[trigger] all[s],
        ) by {
            if s < head.len() {
                assert(all[s] == head[s]);
                assert(serves_request(front, cells, head[s]));
                match head[s] {
                    ReconcileActionView::Reenable { clone_id, request } => {
                        let k = choose|k: int|
                            0 <= k < front.len() && (#[trigger] front[k]).entry_hash == request
                                && match first_match(cells, front[k].dna_modifiers) {
                                Some(i) => cells[i].clone_id == clone_id && !cells[i].enabled,
                                None => false,
                            };
                        assert(requests[k] == front[k]);
                    },
                    ReconcileActionView::Create { request, dna_modifiers } => {
                        let k = choose|k: int|
                            0 <= k < front.len() && (#[trigger] front[k]).entry_hash == request
                                && front[k].dna_modifiers == dna_modifiers && first_match(
                                cells,
                                dna_modifiers,
                            ) is None;
                        assert(requests[k] == front[k]);
                    },
                    _ => {},
                }
            } else {
                assert(all[s] == tail[s - head.len()]);
                assert(requests[n] == last);
            }
        }
        assert forall|k: int| 0 <= k < requests.len() implies request_served(
            all,
            cells,
            #[trigger] requests[k],
        ) by {
            if k < n {
                assert(requests[k] == front[k]);
                assert(request_served(head, cells, front[k]));
                match first_match(cells, front[k].dna_modifiers) {
                    Some(i) => {
                        if !cells[i].enabled {
                            let s = choose|s: int|
                                0 <= s < head.len() && #[trigger] head[s] == (ReconcileActionView::Reenable {
                                    clone_id: cells[i].clone_id,
                                    request: front[k].entry_hash,
                                });
                            assert(all[s] == head[s]);
                        }
                    },
                    None => {
                        let s = choose|s: int|
                            0 <= s < head.len() && #[trigger] head[s] == (ReconcileActionView::Create {
                                request: front[k].entry_hash,
                                dna_modifiers: front[k].dna_modifiers,
                            });
                        assert(all[s] == head[s]);
                    },
                }
            } else {
                assert(requests[k] == last);
                match first_match(cells, last.dna_modifiers) {
                    Some(i) => {
                        if !cells[i].enabled {
                            assert(all[head.len() as int] == tail[0]);
                        }
                    },
                    None => {
                        assert(all[head.len() as int] == tail[0]);
                    },
                }
            }
        }
    }
}

proof fn lemma_retirement_steps_reasons(cells_prefix: Seq<ClonedCellView>, cells: Seq<ClonedCellView>, requests: Seq<RequestedCloneView>)
    requires
        cells_prefix.len() <= cells.len(),
        forall|j: int| 0 <= j < cells_prefix.len() ==> cells_prefix[j] == cells[j],
    ensures
        forall|s: int|
            0 <= s < retirement_steps(cells_prefix, requests).len() ==> retires_clone(
                requests,
                cells,
                #[trigger] retirement_steps(cells_prefix, requests)[s],
            ),
        forall|j: int|
            0 <= j < cells_prefix.len() && cells[j].enabled && !is_requested(requests, cells[j].dna_modifiers)
                ==> exists|s: int|
                0 <= s < retirement_steps(cells_prefix, requests).len() && #[trigger] retirement_steps(
                    cells_prefix,
                    requests,
                )[s] == (ReconcileActionView::Disable {
                    clone_id: (#[trigger] cells[j]).clone_id,
                    dna_modifiers: cells[j].dna_modifiers,
                }),
    decreases cells_prefix.len(),
{
    if cells_prefix.len() > 0 {
        let front = cells_prefix.drop_last();
        let n = cells_prefix.len() - 1;
        lemma_retirement_steps_reasons(front, cells, requests);
        let head = retirement_steps(front, requests);
        let tail = retirement_step(requests, cells_prefix.last());
        let all = retirement_steps(cells_prefix, requests);
        assert(all == head + tail);
        assert(cells_prefix.last() == cells[n]);
        assert forall|s: int| 0 <= s < all.len() implies retires_clone(
            requests,
            cells,
            #[trigger] all[s],
        ) by {
            if s < head.len() {
                assert(all[s] == head[s]);
            } else {
                assert(all[s] == tail[s - head.len()]);
                assert(cells[n].clone_id == cells_prefix.last().clone_id);
            }
        }
        assert forall|j: int|
            0 <= j < cells_prefix.len() && cells[j].enabled && !is_requested(
                requests,
                cells[j].dna_modifiers,
            ) implies exists|s: int|
            0 <= s < all.len() && #[trigger] all[s] == (ReconcileActionView::Disable {
                clone_id: (#[trigger] cells[j]).clone_id,
                dna_modifiers: cells[j].dna_modifiers,
            }) by {
            if j < n {
                let s = choose|s: int|
                    0 <= s < head.len() && #[trigger] head[s] == (ReconcileActionView::Disable {
                        clone_id: cells[j].clone_id,
                        dna_modifiers: cells[j].dna_modifiers,
                    });
                assert(all[s] == head[s]);
            } else {
                assert(all[head.len() as int] == tail[0]);
            }
        }
    }
}

/// Every action of the plan has its reason: a re-enabled clone is the disabled
/// first clone of a request, a created clone is for a request that has none, and
/// a disabled clone runs and is requested by nobody. In particular, a clone
/// that a request asks for is never disabled.
pub proof fn lemma_plan_actions_have_reasons(requests: Seq<RequestedCloneView>, cells: Seq<ClonedCellView>)
    ensures
        forall|s: int|
            0 <= s < reconciliation_plan(requests, cells).len() ==> {
                let a = #[trigger] reconciliation_plan(requests, cells)[s];
                serves_request(requests, cells, a) || retires_clone(requests, cells, a)
            },
        forall|s: int|
            0 <= s < reconciliation_plan(requests, cells).len() && (#[trigger] reconciliation_plan(
                requests,
                cells,
            )[s]) is Disable ==> !is_requested(
                requests,
                reconciliation_plan(requests, cells)[s]->Disable_dna_modifiers,
            ),
{
    lemma_request_steps_reasons(requests, cells);
    lemma_retirement_steps_reasons(cells, cells, requests);
    let head = request_steps(requests, cells);
    let tail = retirement_steps(cells, requests);
    let plan = reconciliation_plan(requests, cells);
    assert forall|s: int| 0 <= s < plan.len() implies {
        let a = #[trigger] plan[s];
        serves_request(requests, cells, a) || retires_clone(requests, cells, a)
    } by {
        if s < head.len() {
            assert(plan[s] == head[s]);
        } else {
            assert(plan[s] == tail[s - head.len()]);
        }
    }
    assert forall|s: int| 0 <= s < plan.len() && (#[trigger] plan[s]) is Disable implies !is_requested(
        requests,
        plan[s]->Disable_dna_modifiers,
    ) by {
        if s < head.len() {
            assert(plan[s] == head[s]);
            assert(serves_request(requests, cells, head[s]));
        } else {
            assert(plan[s] == tail[s - head.len()]);
            assert(retires_clone(requests, cells, tail[s - head.len()]));
        }
    }
}


proof fn lemma_request_steps_empty(requests: Seq<RequestedCloneView>, cells: Seq<ClonedCellView>)
    ensures
        request_steps(requests, cells).len() == 0 <==> forall|k: int|
            0 <= k < requests.len() ==> request_step(cells, #[trigger] requests[k]).len() == 0,
    decreases requests.len(),
{
    if requests.len() > 0 {
        let front = requests.drop_last();
        lemma_request_steps_empty(front, cells);
        assert forall|k: int| 0 <= k < front.len() implies #[trigger] front[k] == requests[k] by {}
        if request_steps(requests, cells).len() == 0 {
            assert forall|k: int| 0 <= k < requests.len() implies request_step(
                cells,
                #[trigger] requests[k],
            ).len() == 0 by {
                if k < front.len() {
                    assert(front[k] == requests[k]);
                }
            }
        } else {
            if forall|k: int| 0 <= k < requests.len() ==> request_step(cells, #[trigger] requests[k]).len() == 0 {
                assert(request_step(cells, requests[requests.len() - 1]).len() == 0);
                assert forall|k: int| 0 <= k < front.len() implies request_step(
                    cells,
                    #[trigger] front[k],
                ).len() == 0 by {
                    assert(front[k] == requests[k]);
                }
            }
        }
    }
}

proof fn lemma_retirement_steps_empty(cells: Seq<ClonedCellView>, requests: Seq<RequestedCloneView>)
    ensures
        retirement_steps(cells, requests).len() == 0 <==> forall|j: int|
            0 <= j < cells.len() ==> retirement_step(requests, #[trigger] cells[j]).len() == 0,
    decreases cells.len(),
{
    if cells.len() > 0 {
        let front = cells.drop_last();
        lemma_retirement_steps_empty(front, requests);
        if retirement_steps(cells, requests).len() == 0 {
            assert forall|j: int| 0 <= j < cells.len() implies retirement_step(
                requests,
                #[trigger] cells[j],
            ).len() == 0 by {
                if j < front.len() {
                    assert(front[j] == cells[j]);
                }
            }
        } else {
            if forall|j: int| 0 <= j < cells.len() ==> retirement_step(requests, #[trigger] cells[j]).len() == 0 {
                assert(retirement_step(requests, cells[cells.len() - 1]).len() == 0);
                assert forall|j: int| 0 <= j < front.len() implies retirement_step(
                    requests,
                    #[trigger] front[j],
                ).len() == 0 by {
                    assert(front[j] == cells[j]);
                }
            }
        }
    }
}

/// The plan is empty exactly when the cells are reconciled with the requests:
/// every request's first clone runs and every running clone is requested.
pub proof fn lemma_plan_empty_iff_reconciled(requests: Seq<RequestedCloneView>, cells: Seq<ClonedCellView>)
    ensures
        reconciliation_plan(requests, cells).len() == 0 <==> is_reconciled(requests, cells),
{
    lemma_request_steps_empty(requests, cells);
    lemma_retirement_steps_empty(cells, requests);
    assert forall|k: int| 0 <= k < requests.len() implies (request_step(cells, #[trigger] requests[k]).len()
        == 0 <==> match first_match(cells, requests[k].dna_modifiers) {
        Some(i) => cells[i].enabled,
        None => false,
    }) by {}
    assert forall|j: int| 0 <= j < cells.len() implies (retirement_step(requests, #[trigger] cells[j]).len()
        == 0 <==> (cells[j].enabled ==> is_requested(requests, cells[j].dna_modifiers))) by {}
}


spec fn reenables(action: ReconcileActionView, clone_id: Seq<char>) -> bool {
    action is Reenable && action->Reenable_clone_id == clone_id
}

spec fn disables(action: ReconcileActionView, clone_id: Seq<char>) -> bool {
    action is Disable && action->Disable_clone_id == clone_id
}

/// What holds of the cells after the first `t` actions of the plan `plan`.
spec fn progress(
    requests: Seq<RequestedCloneView>,
    cells: Seq<ClonedCellView>,
    plan: Seq<ReconcileActionView>,
    t: int,
    now: Seq<ClonedCellView>,
) -> bool {
    &&& now.len() >= cells.len()
    &&& forall|j: int|
        0 <= j < cells.len() ==> (#[trigger] now[j]).clone_id == cells[j].clone_id
            && now[j].dna_modifiers == cells[j].dna_modifiers
    &&& forall|j: int|
        cells.len() <= j < now.len() ==> (#[trigger] now[j]).enabled && is_requested(
            requests,
            now[j].dna_modifiers,
        ) && is_fresh(now[j].clone_id, cells)
    &&& forall|j: int|
        0 <= j < cells.len() && (#[trigger] now[j]).enabled ==> cells[j].enabled || is_requested(
            requests,
            cells[j].dna_modifiers,
        )
    &&& forall|j: int|
        0 <= j < cells.len() && is_requested(requests, cells[j].dna_modifiers) && (cells[j].enabled
            || exists|s: int| 0 <= s < t && reenables(plan[s], cells[j].clone_id)) ==> (#[trigger] now[j]).enabled
    &&& forall|s: int|
        0 <= s < t && (#[trigger] plan[s]) is Create ==> exists|j: int|
            cells.len() <= j < now.len() && (#[trigger] now[j]).dna_modifiers == plan[s]->Create_dna_modifiers
    &&& forall|j: int|
        0 <= j < cells.len() && (exists|s: int| 0 <= s < t && disables(plan[s], cells[j].clone_id))
            ==> !(#[trigger] now[j]).enabled
}

proof fn lemma_progress(
    requests: Seq<RequestedCloneView>,
    cells: Seq<ClonedCellView>,
    new_ids: Seq<Seq<char>>,
    t: int,
)
    requires
        clone_ids_unique(cells),
        new_ids.len() == reconciliation_plan(requests, cells).len(),
        forall|k: int| 0 <= k < new_ids.len() ==> is_fresh(#[trigger] new_ids[k], cells),
        0 <= t <= reconciliation_plan(requests, cells).len(),
    ensures
        progress(
            requests,
            cells,
            reconciliation_plan(requests, cells),
            t,
            apply_plan(cells, reconciliation_plan(requests, cells).take(t), new_ids),
        ),
    decreases t,
{
    let plan = reconciliation_plan(requests, cells);
    let head = request_steps(requests, cells);
    let tail = retirement_steps(cells, requests);
    if t == 0 {
        assert(plan.take(0).len() == 0);
    } else {
        lemma_progress(requests, cells, new_ids, t - 1);
        lemma_request_steps_reasons(requests, cells);
        lemma_retirement_steps_reasons(cells, cells, requests);
        let before = apply_plan(cells, plan.take(t - 1), new_ids);
        assert(plan.take(t).drop_last() =~= plan.take(t - 1));
        let a = plan[t - 1];
        assert(plan.take(t).last() == a);
        let now = apply_plan(cells, plan.take(t), new_ids);
        assert(now == apply_action(before, a, new_ids[t - 1]));
        // the actions of the requests come first, then those of the cells
        assert forall|s: int| 0 <= s < plan.len() implies (if s < head.len() {
            serves_request(requests, cells, #[trigger] plan[s])
        } else {
            retires_clone(requests, cells, plan[s])
        }) by {
            if s < head.len() {
                assert(plan[s] == head[s]);
            } else {
                assert(plan[s] == tail[s - head.len()]);
            }
        }
        assert(if t - 1 < head.len() {
            serves_request(requests, cells, plan[t - 1])
        } else {
            retires_clone(requests, cells, plan[t - 1])
        });
        match a {
            ReconcileActionView::Reenable { clone_id, request } => {
                let k = choose|k: int|
                    0 <= k < requests.len() && (#[trigger] requests[k]).entry_hash == request
                        && match first_match(cells, requests[k].dna_modifiers) {
                        Some(i) => cells[i].clone_id == clone_id && !cells[i].enabled,
                        None => false,
                    };
                lemma_first_match(cells, requests[k].dna_modifiers);
                let i = first_match(cells, requests[k].dna_modifiers)->0;
                assert(is_requested(requests, cells[i].dna_modifiers));
                assert(t - 1 < head.len());
                assert forall|s: int| 0 <= s < t - 1 implies !disables(plan[s], clone_id) by {
                    assert(serves_request(requests, cells, plan[s]));
                }
                assert(now.len() == before.len());
                assert forall|j: int| 0 <= j < now.len() implies #[trigger] now[j] == (if before[j].clone_id
                    == clone_id {
                    ClonedCellView {
                        clone_id: before[j].clone_id,
                        dna_modifiers: before[j].dna_modifiers,
                        enabled: true,
                    }
                } else {
                    before[j]
                }) by {}
                assert forall|j: int| 0 <= j < cells.len() && before[j].clone_id == clone_id implies j
                    == i by {
                    assert(cells[j].clone_id == cells[i].clone_id);
                }
                assert forall|j: int|
                    0 <= j < cells.len() && is_requested(requests, cells[j].dna_modifiers) && (
                    cells[j].enabled || exists|s: int| 0 <= s < t && reenables(plan[s], cells[j].clone_id))
                    implies (#[trigger] now[j]).enabled by {
                    if !(cells[j].enabled || exists|s: int|
                        0 <= s < t - 1 && reenables(plan[s], cells[j].clone_id)) {
                        let s = choose|s: int| 0 <= s < t && reenables(plan[s], cells[j].clone_id);
                        assert(s == t - 1);
                    }
                }
                assert forall|s: int| 0 <= s < t && (#[trigger] plan[s]) is Create implies exists|j: int|
                    cells.len() <= j < now.len() && (#[trigger] now[j]).dna_modifiers
                        == plan[s]->Create_dna_modifiers by {
                    let j = choose|j: int|
                        cells.len() <= j < before.len() && (#[trigger] before[j]).dna_modifiers
                            == plan[s]->Create_dna_modifiers;
                    assert(now[j].dna_modifiers == before[j].dna_modifiers);
                }
                assert forall|j: int|
                    0 <= j < cells.len() && (exists|s: int| 0 <= s < t && disables(plan[s], cells[j].clone_id))
                    implies !(#[trigger] now[j]).enabled by {
                    let s = choose|s: int| 0 <= s < t && disables(plan[s], cells[j].clone_id);
                    assert(s < t - 1);
                }
            },
            ReconcileActionView::Create { request, dna_modifiers } => {
                let k = choose|k: int|
                    0 <= k < requests.len() && (#[trigger] requests[k]).entry_hash == request
                        && requests[k].dna_modifiers == dna_modifiers && first_match(cells, dna_modifiers)
                        is None;
                assert(is_requested(requests, dna_modifiers));
                assert(is_fresh(new_ids[t - 1], cells));
                assert(now == before.push(
                    ClonedCellView { clone_id: new_ids[t - 1], dna_modifiers: dna_modifiers, enabled: true },
                ));
                assert forall|j: int|
                    0 <= j < cells.len() && is_requested(requests, cells[j].dna_modifiers) && (
                    cells[j].enabled || exists|s: int| 0 <= s < t && reenables(plan[s], cells[j].clone_id))
                    implies (#[trigger] now[j]).enabled by {
                    assert(now[j] == before[j]);
                    if !(cells[j].enabled || exists|s: int|
                        0 <= s < t - 1 && reenables(plan[s], cells[j].clone_id)) {
                        let s = choose|s: int| 0 <= s < t && reenables(plan[s], cells[j].clone_id);
                        assert(s == t - 1);
                    }
                }
                assert forall|s: int| 0 <= s < t && (#[trigger] plan[s]) is Create implies exists|j: int|
                    cells.len() <= j < now.len() && (#[trigger] now[j]).dna_modifiers
                        == plan[s]->Create_dna_modifiers by {
                    if s < t - 1 {
                        let j = choose|j: int|
                            cells.len() <= j < before.len() && (#[trigger] before[j]).dna_modifiers
                                == plan[s]->Create_dna_modifiers;
                        assert(now[j] == before[j]);
                    } else {
                        assert(now[before.len() as int].dna_modifiers == dna_modifiers);
                    }
                }
                assert forall|j: int|
                    0 <= j < cells.len() && (exists|s: int| 0 <= s < t && disables(plan[s], cells[j].clone_id))
                    implies !(#[trigger] now[j]).enabled by {
                    assert(now[j] == before[j]);
                    let s = choose|s: int| 0 <= s < t && disables(plan[s], cells[j].clone_id);
                    assert(s < t - 1);
                }
                assert forall|j: int| cells.len() <= j < now.len() implies (#[trigger] now[j]).enabled
                    && is_requested(requests, now[j].dna_modifiers) && is_fresh(now[j].clone_id, cells) by {
                    if j < before.len() {
                        assert(now[j] == before[j]);
                    }
                }
            },
            ReconcileActionView::Disable { clone_id, dna_modifiers } => {
                let i = choose|i: int|
                    0 <= i < cells.len() && (#[trigger] cells[i]).clone_id == clone_id && cells[i].dna_modifiers
                        == dna_modifiers && cells[i].enabled && !is_requested(requests, dna_modifiers);
                assert(t - 1 >= head.len());
                assert forall|s: int| t - 1 <= s < plan.len() implies !reenables(plan[s], clone_id) by {
                    assert(retires_clone(requests, cells, plan[s]));
                }
                assert(now.len() == before.len());
                assert forall|j: int| 0 <= j < now.len() implies #[trigger] now[j] == (if before[j].clone_id
                    == clone_id {
                    ClonedCellView {
                        clone_id: before[j].clone_id,
                        dna_modifiers: before[j].dna_modifiers,
                        enabled: false,
                    }
                } else {
                    before[j]
                }) by {}
                assert forall|j: int| 0 <= j < cells.len() && before[j].clone_id == clone_id implies j
                    == i by {
                    assert(cells[j].clone_id == cells[i].clone_id);
                }
                assert forall|j: int|
                    0 <= j < cells.len() && is_requested(requests, cells[j].dna_modifiers) && (
                    cells[j].enabled || exists|s: int| 0 <= s < t && reenables(plan[s], cells[j].clone_id))
                    implies (#[trigger] now[j]).enabled by {
                    if j != i {
                        if !(cells[j].enabled || exists|s: int|
                            0 <= s < t - 1 && reenables(plan[s], cells[j].clone_id)) {
                            let s = choose|s: int| 0 <= s < t && reenables(plan[s], cells[j].clone_id);
                            assert(s == t - 1);
                        }
                    }
                }
                assert forall|s: int| 0 <= s < t && (#[trigger] plan[s]) is Create implies exists|j: int|
                    cells.len() <= j < now.len() && (#[trigger] now[j]).dna_modifiers
                        == plan[s]->Create_dna_modifiers by {
                    let j = choose|j: int|
                        cells.len() <= j < before.len() && (#[trigger] before[j]).dna_modifiers
                            == plan[s]->Create_dna_modifiers;
                    assert(now[j].dna_modifiers == before[j].dna_modifiers);
                }
                assert forall|j: int|
                    0 <= j < cells.len() && (exists|s: int| 0 <= s < t && disables(plan[s], cells[j].clone_id))
                    implies !(#[trigger] now[j]).enabled by {
                    if j != i {
                        let s = choose|s: int| 0 <= s < t && disables(plan[s], cells[j].clone_id);
                        if s == t - 1 {
                            assert(cells[j].clone_id == cells[i].clone_id);
                        }
                    }
                }
                assert forall|j: int| cells.len() <= j < now.len() implies (#[trigger] now[j]).enabled
                    && is_requested(requests, now[j].dna_modifiers) && is_fresh(now[j].clone_id, cells) by {
                    assert(before[j].clone_id != cells[i].clone_id);
                }
            },
        }
    }
}

/// Reconciliation converges: when every cloned cell of the role has its own
/// clone id, and each created clone gets an id that no existing cell has, the
/// cells after the plan's actions are reconciled with the requests, so that a
/// second reconciliation plans nothing.
pub proof fn lemma_reconciliation_converges(
    requests: Seq<RequestedCloneView>,
    cells: Seq<ClonedCellView>,
    new_ids: Seq<Seq<char>>,
)
    requires
        clone_ids_unique(cells),
        new_ids.len() == reconciliation_plan(requests, cells).len(),
        forall|k: int| 0 <= k < new_ids.len() ==> is_fresh(#[trigger] new_ids[k], cells),
    ensures
        is_reconciled(requests, apply_plan(cells, reconciliation_plan(requests, cells), new_ids)),
        reconciliation_plan(requests, apply_plan(cells, reconciliation_plan(requests, cells), new_ids)).len()
            == 0,
{
    let plan = reconciliation_plan(requests, cells);
    let t = plan.len() as int;
    lemma_progress(requests, cells, new_ids, t);
    assert(plan.take(t) =~= plan);
    let after = apply_plan(cells, plan, new_ids);
    lemma_request_steps_reasons(requests, cells);
    lemma_retirement_steps_reasons(cells, cells, requests);
    let head = request_steps(requests, cells);
    let tail = retirement_steps(cells, requests);
    assert forall|k: int| 0 <= k < requests.len() implies match first_match(
        after,
        #[trigger] requests[k].dna_modifiers,
    ) {
        Some(i) => after[i].enabled,
        None => false,
    } by {
        let m = requests[k].dna_modifiers;
        assert(request_served(head, cells, requests[k]));
        lemma_first_match(cells, m);
        lemma_first_match(after, m);
        match first_match(cells, m) {
            Some(i) => {
                assert(after[i].dna_modifiers == m);
                assert(is_requested(requests, cells[i].dna_modifiers));
                if !cells[i].enabled {
                    let s = choose|s: int|
                        0 <= s < head.len() && #[trigger] head[s] == (ReconcileActionView::Reenable {
                            clone_id: cells[i].clone_id,
                            request: requests[k].entry_hash,
                        });
                    assert(plan[s] == head[s]);
                    assert(reenables(plan[s], cells[i].clone_id));
                }
                assert(after[i].enabled);
                match first_match(after, m) {
                    Some(i2) => {
                        if i2 < i {
                            assert(after[i2].dna_modifiers == cells[i2].dna_modifiers);
                        }
                        assert(i2 == i);
                    },
                    None => {},
                }
            },
            None => {
                let s = choose|s: int|
                    0 <= s < head.len() && #[trigger] head[s] == (ReconcileActionView::Create {
                        request: requests[k].entry_hash,
                        dna_modifiers: m,
                    });
                assert(plan[s] == head[s]);
                assert(plan[s] is Create);
                let j = choose|j: int|
                    cells.len() <= j < after.len() && (#[trigger] after[j]).dna_modifiers
                        == plan[s]->Create_dna_modifiers;
                match first_match(after, m) {
                    Some(i2) => {
                        if i2 < cells.len() {
                            assert(after[i2].dna_modifiers == cells[i2].dna_modifiers);
                        }
                    },
                    None => {
                        assert(after[j].dna_modifiers == m);
                    },
                }
            },
        }
    }
    assert forall|j: int| 0 <= j < after.len() && #[trigger] after[j].enabled implies is_requested(
        requests,
        after[j].dna_modifiers,
    ) by {
        if j < cells.len() {
            if !is_requested(requests, cells[j].dna_modifiers) {
                assert(cells[j].enabled);
                let s = choose|s: int|
                    0 <= s < tail.len() && #[trigger] tail[s] == (ReconcileActionView::Disable {
                        clone_id: cells[j].clone_id,
                        dna_modifiers: cells[j].dna_modifiers,
                    });
                assert(plan[head.len() + s] == tail[s]);
                assert(disables(plan[head.len() + s], cells[j].clone_id));
            }
        }
    }
    lemma_plan_empty_iff_reconciled(requests, after);
}


/// The actions for the requests are those for each request, in the order of the requests.
pub proof fn law_request_steps_push(
    requests: Seq<RequestedCloneView>,
    request: RequestedCloneView,
    cells: Seq<ClonedCellView>,
)
    ensures
        request_steps(Seq::<RequestedCloneView>::empty(), cells).len() == 0,
        request_steps(requests.push(request), cells) == request_steps(requests, cells) + request_step(
            cells,
            request,
        ),
{
    assert(requests.push(request).drop_last() =~= requests);
}

/// The action for one request: none when its first clone (the first cell with
/// its modifiers) runs, a re-enabling of that clone when it is stopped, and a
/// new clone when no cell has its modifiers.
pub proof fn law_request_step(cells: Seq<ClonedCellView>, request: RequestedCloneView)
    ensures
        (forall|l: int| 0 <= l < cells.len() ==> #[trigger] cells[l].dna_modifiers != request.dna_modifiers)
            ==> request_step(cells, request) == seq![
            ReconcileActionView::Create {
                request: request.entry_hash,
                dna_modifiers: request.dna_modifiers,
            },
        ],
        forall|i: int|
            0 <= i < cells.len() && #[trigger] cells[i].dna_modifiers == request.dna_modifiers && (forall|l: int|
                0 <= l < i ==> #[trigger] cells[l].dna_modifiers != request.dna_modifiers) ==> request_step(
                cells,
                request,
            ) == if cells[i].enabled {
                Seq::<ReconcileActionView>::empty()
            } else {
                seq![
                    ReconcileActionView::Reenable {
                        clone_id: cells[i].clone_id,
                        request: request.entry_hash,
                    },
                ]
            },
{
    lemma_first_match(cells, request.dna_modifiers);
    assert forall|i: int|
        0 <= i < cells.len() && #[trigger] cells[i].dna_modifiers == request.dna_modifiers && (forall|l: int|
            0 <= l < i ==> #[trigger] cells[l].dna_modifiers != request.dna_modifiers) implies first_match(
        cells,
        request.dna_modifiers,
    ) == Some(i) by {
        match first_match(cells, request.dna_modifiers) {
            Some(j) => {
                if j < i {
                    assert(cells[j].dna_modifiers != request.dna_modifiers);
                }
                if i < j {
                    assert(cells[i].dna_modifiers != request.dna_modifiers);
                }
            },
            None => {
                assert(cells[i].dna_modifiers != request.dna_modifiers);
            },
        }
    }
}

/// The actions for the cells are those for each cell, in the order of the cells:
/// a cell is disabled exactly when it runs and no request has its modifiers.
pub proof fn law_retirement_steps_push(
    cells: Seq<ClonedCellView>,
    cell: ClonedCellView,
    requests: Seq<RequestedCloneView>,
)
    ensures
        retirement_steps(Seq::<ClonedCellView>::empty(), requests).len() == 0,
        retirement_steps(cells.push(cell), requests) == retirement_steps(cells, requests) + if cell.enabled
            && (forall|k: int| 0 <= k < requests.len() ==> #[trigger] requests[k].dna_modifiers != cell.dna_modifiers) {
            seq![
                ReconcileActionView::Disable {
                    clone_id: cell.clone_id,
                    dna_modifiers: cell.dna_modifiers,
                },
            ]
        } else {
            Seq::<ReconcileActionView>::empty()
        },
{
    assert(cells.push(cell).drop_last() =~= cells);
}

/// The plan serves the requests first, then retires the clones.
pub proof fn law_plan_order(requests: Seq<RequestedCloneView>, cells: Seq<ClonedCellView>)
    ensures
        reconciliation_plan(requests, cells) == request_steps(requests, cells) + retirement_steps(cells, requests),
        forall|s: int, t: int|
            0 <= s < t < reconciliation_plan(requests, cells).len() && !((#[trigger] reconciliation_plan(
                requests,
                cells,
            )[t]) is Disable) ==> !((#[trigger] reconciliation_plan(requests, cells)[s]) is Disable),
{
    lemma_request_steps_reasons(requests, cells);
    lemma_retirement_steps_reasons(cells, cells, requests);
    let head = request_steps(requests, cells);
    let tail = retirement_steps(cells, requests);
    let plan = reconciliation_plan(requests, cells);
    assert forall|s: int, t: int|
        0 <= s < t < plan.len() && !((#[trigger] plan[t]) is Disable) implies !((#[trigger] plan[s]) is Disable) by {
        if t < head.len() {
            assert(plan[s] == head[s]);
            assert(serves_request(requests, cells, head[s]));
        } else {
            assert(plan[t] == tail[t - head.len()]);
            assert(retires_clone(requests, cells, tail[t - head.len()]));
        }
    }
}

} // verus!
