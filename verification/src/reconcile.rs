//! Reconciling the cloned cells of a role with the clone requests.
//!
//! For each request, in the order of the requests, the first cloned cell with the
//! same modifiers is its clone: a disabled clone is re-enabled, an enabled one
//! is left alone, and a request without a clone gets a new one. Then each enabled
//! cloned cell that no request asks for is disabled. The plan lists these
//! actions in that order; the caller performs them.
use vstd::prelude::*;
use crate::hashes::EntryHash;
use crate::cells::{
    cloned_cells, spec_cloned_cells, CellInfo, CloneRequest, ClonedCell, ClonedCellView, DnaModifiers,
    DnaModifiersView,
};

verus! {

/// One entry of the clone requests: the hash of the request's entry, and the request.
#[derive(Debug, PartialEq, Eq)]
pub struct RequestedClone {
    pub entry_hash: EntryHash,
    pub clone_request: CloneRequest,
}

/// What a `RequestedClone` is, mathematically.
pub struct RequestedCloneView {
    pub entry_hash: Seq<u8>,
    pub dna_modifiers: DnaModifiersView,
}

impl View for RequestedClone {
    type V = RequestedCloneView;

    open spec fn view(&self) -> RequestedCloneView {
        RequestedCloneView {
            entry_hash: self.entry_hash.core@,
            dna_modifiers: self.clone_request.dna_modifiers@,
        }
    }
}

/// A step of the reconciliation.
#[derive(Debug, PartialEq, Eq)]
pub enum ReconcileAction {
    /// Enable the disabled clone `clone_id` of the request, and announce this
    /// agent as a provider of the request.
    Reenable { clone_id: String, request: EntryHash },
    /// Create and enable a clone with these modifiers, call its `init`, and
    /// announce this agent as a provider of the request.
    Create { request: EntryHash, dna_modifiers: DnaModifiers },
    /// Disable the clone `clone_id`, which no request asks for, and retract this
    /// agent as a provider of the request that had these modifiers.
    Disable { clone_id: String, dna_modifiers: DnaModifiers },
}

/// What a `ReconcileAction` is, mathematically.
pub enum ReconcileActionView {
    Reenable { clone_id: Seq<char>, request: Seq<u8> },
    Create { request: Seq<u8>, dna_modifiers: DnaModifiersView },
    Disable { clone_id: Seq<char>, dna_modifiers: DnaModifiersView },
}

impl View for ReconcileAction {
    type V = ReconcileActionView;

    open spec fn view(&self) -> ReconcileActionView {
        match self {
            ReconcileAction::Reenable { clone_id, request } => ReconcileActionView::Reenable {
                clone_id: clone_id@,
                request: request.core@,
            },
            ReconcileAction::Create { request, dna_modifiers } => ReconcileActionView::Create {
                request: request.core@,
                dna_modifiers: dna_modifiers@,
            },
            ReconcileAction::Disable { clone_id, dna_modifiers } => ReconcileActionView::Disable {
                clone_id: clone_id@,
                dna_modifiers: dna_modifiers@,
            },
        }
    }
}

pub open spec fn requests_view(requests: Seq<RequestedClone>) -> Seq<RequestedCloneView> {
    requests.map_values(|r: RequestedClone| r@)
}

pub open spec fn cells_view(cells: Seq<ClonedCell>) -> Seq<ClonedCellView> {
    cells.map_values(|c: ClonedCell| c@)
}

pub open spec fn actions_view(actions: Seq<ReconcileAction>) -> Seq<ReconcileActionView> {
    actions.map_values(|a: ReconcileAction| a@)
}

/// The index of the first cell at or after `i` whose modifiers are `m`.
pub open spec fn first_match_from(cells: Seq<ClonedCellView>, m: DnaModifiersView, i: nat) -> Option<int>
    decreases cells.len() - i,
{
    if i >= cells.len() {
        None
    } else if cells[i as int].dna_modifiers == m {
        Some(i as int)
    } else {
        first_match_from(cells, m, i + 1)
    }
}

/// The index of the first cell whose modifiers are `m`: the clone of a request for `m`.
pub open spec fn first_match(cells: Seq<ClonedCellView>, m: DnaModifiersView) -> Option<int> {
    first_match_from(cells, m, 0)
}


/// What `first_match_from` returns: the first index at or after `i` with modifiers `m`, or none if there is none.
pub proof fn lemma_first_match_from(cells: Seq<ClonedCellView>, m: DnaModifiersView, i: nat)
    ensures
        match first_match_from(cells, m, i) {
            Some(j) => i <= j < cells.len() && cells[j].dna_modifiers == m && forall|l: int|
                i <= l < j ==> #[trigger] cells[l].dna_modifiers != m,
            None => forall|l: int| i <= l < cells.len() ==> #[trigger] cells[l].dna_modifiers != m,
        },
    decreases cells.len() - i,
{
    if i < cells.len() && cells[i as int].dna_modifiers != m {
        lemma_first_match_from(cells, m, i + 1);
    }
}

/// What `first_match` returns: the first index with modifiers `m`, or none if no cell has them.
pub proof fn lemma_first_match(cells: Seq<ClonedCellView>, m: DnaModifiersView)
    ensures
        match first_match(cells, m) {
            Some(j) => 0 <= j < cells.len() && cells[j].dna_modifiers == m && forall|l: int|
                0 <= l < j ==> #[trigger] cells[l].dna_modifiers != m,
            None => forall|l: int| 0 <= l < cells.len() ==> #[trigger] cells[l].dna_modifiers != m,
        },
{
    lemma_first_match_from(cells, m, 0);
}

/// Whether some request asks for modifiers `m`.
pub open spec fn is_requested(requests: Seq<RequestedCloneView>, m: DnaModifiersView) -> bool {
    exists|k: int| 0 <= k < requests.len() && #[trigger] requests[k].dna_modifiers == m
}

/// The action for one request.
pub open spec fn request_step(cells: Seq<ClonedCellView>, request: RequestedCloneView) -> Seq<
    ReconcileActionView,
> {
    match first_match(cells, request.dna_modifiers) {
        Some(i) => if cells[i].enabled {
            Seq::empty()
        } else {
            seq![ReconcileActionView::Reenable { clone_id: cells[i].clone_id, request: request.entry_hash }]
        },
        None => seq![
            ReconcileActionView::Create {
                request: request.entry_hash,
                dna_modifiers: request.dna_modifiers,
            },
        ],
    }
}

/// The actions for the requests, in their order.
pub open spec fn request_steps(requests: Seq<RequestedCloneView>, cells: Seq<ClonedCellView>) -> Seq<
    ReconcileActionView,
>
    decreases requests.len(),
{
    if requests.len() == 0 {
        Seq::empty()
    } else {
        request_steps(requests.drop_last(), cells) + request_step(cells, requests.last())
    }
}

/// The action for one cell: disable it if it runs and no request asks for it.
pub open spec fn retirement_step(requests: Seq<RequestedCloneView>, cell: ClonedCellView) -> Seq<
    ReconcileActionView,
> {
    if cell.enabled && !is_requested(requests, cell.dna_modifiers) {
        seq![
            ReconcileActionView::Disable {
                clone_id: cell.clone_id,
                dna_modifiers: cell.dna_modifiers,
            },
        ]
    } else {
        Seq::empty()
    }
}

/// The actions for the cells, in their order.
pub open spec fn retirement_steps(cells: Seq<ClonedCellView>, requests: Seq<RequestedCloneView>) -> Seq<
    ReconcileActionView,
>
    decreases cells.len(),
{
    if cells.len() == 0 {
        Seq::empty()
    } else {
        retirement_steps(cells.drop_last(), requests) + retirement_step(requests, cells.last())
    }
}

/// The whole plan: the requests' actions, then the cells'.
pub open spec fn reconciliation_plan(requests: Seq<RequestedCloneView>, cells: Seq<ClonedCellView>) -> Seq<
    ReconcileActionView,
> {
    request_steps(requests, cells) + retirement_steps(cells, requests)
}

/// Finds the first cloned cell with the modifiers `m`.
pub fn find_clone(cells: &Vec<ClonedCell>, m: &DnaModifiers) -> (r: Option<usize>)
    ensures
        match r {
            Some(i) => first_match(cells_view(cells@), m@) == Some(i as int),
            None => first_match(cells_view(cells@), m@) is None,
        },
        r matches Some(i) ==> i < cells.len(),
{
    proof {
        lemma_first_match(cells_view(cells@), m@);
    }
    let ghost cv = cells_view(cells@);
    let mut i: usize = 0;
    while i < cells.len()
        invariant
            i <= cells.len(),
            cv == cells_view(cells@),
            first_match(cv, m@) == first_match_from(cv, m@, i as nat),
        decreases cells.len() - i,
    {
        if cells[i].dna_modifiers.same(m) {
            return Some(i);
        }
        i = i + 1;
    }
    None
}

/// Whether some request asks for the modifiers `m`.
pub fn requested(requests: &Vec<RequestedClone>, m: &DnaModifiers) -> (r: bool)
    ensures
        r == is_requested(requests_view(requests@), m@),
{
    let ghost rv = requests_view(requests@);
    let mut k: usize = 0;
    while k < requests.len()
        invariant
            k <= requests.len(),
            rv == requests_view(requests@),
            forall|j: int| 0 <= j < k ==> rv[j].dna_modifiers != m@,
        decreases requests.len() - k,
    {
        if requests[k].clone_request.dna_modifiers.same(m) {
            assert(rv[k as int].dna_modifiers == m@);
            return true;
        }
        k = k + 1;
    }
    false
}

/// Plans the reconciliation of the cloned cells of a role with the clone requests.
///
/// `requests` holds the requests in the order in which they are visited;
/// `cells` holds the cloned cells of the role.
pub fn plan_reconciliation(requests: &Vec<RequestedClone>, cells: &Vec<ClonedCell>) -> (plan: Vec<
    ReconcileAction,
>)
    ensures
        actions_view(plan@) == reconciliation_plan(requests_view(requests@), cells_view(cells@)),
{
    let ghost rv = requests_view(requests@);
    let ghost cv = cells_view(cells@);
    let mut plan: Vec<ReconcileAction> = Vec::new();
    let mut k: usize = 0;
    while k < requests.len()
        invariant
            k <= requests.len(),
            rv == requests_view(requests@),
            cv == cells_view(cells@),
            actions_view(plan@) == request_steps(rv.subrange(0, k as int), cv),
        decreases requests.len() - k,
    {
        let ghost before = actions_view(plan@);
        let request = &requests[k];
        assert(rv.subrange(0, k + 1).drop_last() =~= rv.subrange(0, k as int));
        assert(rv.subrange(0, k + 1).last() == rv[k as int]);
        match find_clone(cells, &request.clone_request.dna_modifiers) {
            Some(i) => {
                if !cells[i].enabled {
                    plan.push(
                        ReconcileAction::Reenable {
                            clone_id: cells[i].clone_id.clone(),
                            request: request.entry_hash.copy(),
                        },
                    );
                    assert(actions_view(plan@) =~= before + request_step(cv, rv[k as int]));
                } else {
                    assert(actions_view(plan@) =~= before + request_step(cv, rv[k as int]));
                }
            },
            None => {
                plan.push(
                    ReconcileAction::Create {
                        request: request.entry_hash.copy(),
                        dna_modifiers: request.clone_request.dna_modifiers.copy(),
                    },
                );
                assert(actions_view(plan@) =~= before + request_step(cv, rv[k as int]));
            },
        }
        k = k + 1;
    }
    assert(rv.subrange(0, requests.len() as int) =~= rv);
    let ghost head = actions_view(plan@);
    let mut j: usize = 0;
    while j < cells.len()
        invariant
            j <= cells.len(),
            rv == requests_view(requests@),
            cv == cells_view(cells@),
            head == request_steps(rv, cv),
            actions_view(plan@) == head + retirement_steps(cv.subrange(0, j as int), rv),
        decreases cells.len() - j,
    {
        let ghost before = actions_view(plan@);
        let cell = &cells[j];
        assert(cv.subrange(0, j + 1).drop_last() =~= cv.subrange(0, j as int));
        assert(cv.subrange(0, j + 1).last() == cv[j as int]);
        if cell.enabled && !requested(requests, &cell.dna_modifiers) {
            plan.push(
                ReconcileAction::Disable {
                    clone_id: cell.clone_id.clone(),
                    dna_modifiers: cell.dna_modifiers.copy(),
                },
            );
            assert(actions_view(plan@) =~= before + retirement_step(rv, cv[j as int]));
        } else {
            assert(actions_view(plan@) =~= before + retirement_step(rv, cv[j as int]));
        }
        proof {
            assert(head + retirement_steps(cv.subrange(0, j + 1), rv) =~= head + retirement_steps(
                cv.subrange(0, j as int),
                rv,
            ) + retirement_step(rv, cv[j as int]));
        }
        j = j + 1;
    }
    assert(cv.subrange(0, cells.len() as int) =~= cv);
    plan
}


/// The reconciliation of a role: keeps the cloned cells among the role's cells
/// and plans what makes them match the clone requests.
pub fn reconcile_cloned_cells(requests: &Vec<RequestedClone>, role_cells: &Vec<CellInfo>) -> (plan: Vec<
    ReconcileAction,
>)
    ensures
        actions_view(plan@) == reconciliation_plan(requests_view(requests@), spec_cloned_cells(role_cells@)),
{
    let cells = cloned_cells(role_cells);
    assert(cells_view(cells@) == spec_cloned_cells(role_cells@));
    plan_reconciliation(requests, &cells)
}

} // verus!
