use clone_manager::cells::{
    cloned_cells, dna_modifiers, CellInfo, CloneRequest, ClonedCell, DnaModifiers, ProvisionedCell,
    StemCell,
};
use clone_manager::hashes::EntryHash;
use clone_manager::reconcile::{
    plan_reconciliation, reconcile_cloned_cells, ReconcileAction, RequestedClone,
};

fn mods(seed: &str, properties: &[u8]) -> DnaModifiers {
    DnaModifiers { network_seed: seed.to_string(), properties: properties.to_vec() }
}

fn hash(n: u8) -> EntryHash {
    EntryHash { core: vec![n; 36] }
}

fn request(n: u8, seed: &str) -> RequestedClone {
    RequestedClone { entry_hash: hash(n), clone_request: CloneRequest { dna_modifiers: mods(seed, &[]) } }
}

fn cell(id: &str, seed: &str, enabled: bool) -> ClonedCell {
    ClonedCell { clone_id: id.to_string(), dna_modifiers: mods(seed, &[]), enabled }
}

/// Performs a plan on a list of cells, as the conductor would.
fn apply(cells: &mut Vec<ClonedCell>, plan: &[ReconcileAction], next_index: &mut u32) {
    for action in plan {
        match action {
            ReconcileAction::Reenable { clone_id, .. } => {
                for c in cells.iter_mut().filter(|c| &c.clone_id == clone_id) {
                    c.enabled = true;
                }
            }
            ReconcileAction::Create { dna_modifiers, .. } => {
                cells.push(ClonedCell {
                    clone_id: format!("role.{}", next_index),
                    dna_modifiers: DnaModifiers {
                        network_seed: dna_modifiers.network_seed.clone(),
                        properties: dna_modifiers.properties.clone(),
                    },
                    enabled: true,
                });
                *next_index += 1;
            }
            ReconcileAction::Disable { clone_id, .. } => {
                for c in cells.iter_mut().filter(|c| &c.clone_id == clone_id) {
                    c.enabled = false;
                }
            }
        }
    }
}

#[test]
fn nothing_requested_nothing_running_plans_nothing() {
    assert!(plan_reconciliation(&vec![], &vec![]).is_empty());
}

#[test]
fn disabled_clone_of_request_is_reenabled() {
    let plan = plan_reconciliation(&vec![request(1, "a")], &vec![cell("role.0", "a", false)]);
    assert_eq!(plan, vec![ReconcileAction::Reenable { clone_id: "role.0".to_string(), request: hash(1) }]);
}

#[test]
fn enabled_clone_of_request_is_left_alone() {
    let plan = plan_reconciliation(&vec![request(1, "a")], &vec![cell("role.0", "a", true)]);
    assert!(plan.is_empty());
}

#[test]
fn request_without_clone_gets_one() {
    let plan = plan_reconciliation(&vec![request(1, "a")], &vec![cell("role.0", "b", false)]);
    assert_eq!(plan, vec![ReconcileAction::Create { request: hash(1), dna_modifiers: mods("a", &[]) }]);
}

#[test]
fn properties_tell_clones_apart() {
    let requests = vec![RequestedClone {
        entry_hash: hash(1),
        clone_request: CloneRequest { dna_modifiers: mods("a", &[1, 2]) },
    }];
    let cells = vec![ClonedCell { clone_id: "role.0".to_string(), dna_modifiers: mods("a", &[1, 3]), enabled: true }];
    let plan = plan_reconciliation(&requests, &cells);
    assert_eq!(
        plan,
        vec![
            ReconcileAction::Create { request: hash(1), dna_modifiers: mods("a", &[1, 2]) },
            ReconcileAction::Disable { clone_id: "role.0".to_string(), dna_modifiers: mods("a", &[1, 3]) },
        ]
    );
}

#[test]
fn unrequested_running_clone_is_disabled_and_stopped_one_is_not() {
    let plan = plan_reconciliation(
        &vec![request(1, "a")],
        &vec![cell("role.0", "a", true), cell("role.1", "b", true), cell("role.2", "c", false)],
    );
    assert_eq!(plan, vec![ReconcileAction::Disable { clone_id: "role.1".to_string(), dna_modifiers: mods("b", &[]) }]);
}

#[test]
fn first_matching_clone_is_the_one_reenabled() {
    let plan = plan_reconciliation(
        &vec![request(1, "a")],
        &vec![cell("role.0", "a", false), cell("role.1", "a", true)],
    );
    assert_eq!(plan, vec![ReconcileAction::Reenable { clone_id: "role.0".to_string(), request: hash(1) }]);
}

#[test]
fn requests_come_first_then_retirements() {
    let plan = plan_reconciliation(
        &vec![request(1, "a"), request(2, "b"), request(3, "c")],
        &vec![cell("role.0", "x", true), cell("role.1", "b", false), cell("role.2", "c", true)],
    );
    assert_eq!(
        plan,
        vec![
            ReconcileAction::Create { request: hash(1), dna_modifiers: mods("a", &[]) },
            ReconcileAction::Reenable { clone_id: "role.1".to_string(), request: hash(2) },
            ReconcileAction::Disable { clone_id: "role.0".to_string(), dna_modifiers: mods("x", &[]) },
        ]
    );
}

#[test]
fn two_requests_for_the_same_modifiers_each_create_a_clone() {
    let plan = plan_reconciliation(&vec![request(1, "a"), request(2, "a")], &vec![]);
    assert_eq!(
        plan,
        vec![
            ReconcileAction::Create { request: hash(1), dna_modifiers: mods("a", &[]) },
            ReconcileAction::Create { request: hash(2), dna_modifiers: mods("a", &[]) },
        ]
    );
}

#[test]
fn reconciliation_converges() {
    let requests = vec![request(1, "a"), request(2, "b"), request(3, "a"), request(4, "d")];
    let mut cells = vec![
        cell("role.0", "b", false),
        cell("role.1", "x", true),
        cell("role.2", "a", false),
        cell("role.3", "y", false),
        cell("role.4", "b", true),
    ];
    let plan = plan_reconciliation(&requests, &cells);
    assert!(!plan.is_empty());
    let mut next_index = 5;
    apply(&mut cells, &plan, &mut next_index);
    assert!(plan_reconciliation(&requests, &cells).is_empty());
    for r in &requests {
        let first = cells.iter().find(|c| c.dna_modifiers == r.clone_request.dna_modifiers).unwrap();
        assert!(first.enabled);
    }
}

#[test]
fn only_cloned_cells_of_a_role_are_reconciled() {
    let role = vec![
        CellInfo::Provisioned(ProvisionedCell { dna_modifiers: mods("x", &[]) }),
        CellInfo::Cloned(cell("role.0", "a", false)),
        CellInfo::Stem(StemCell { dna_modifiers: mods("y", &[]) }),
        CellInfo::Cloned(cell("role.1", "z", true)),
    ];
    let kept = cloned_cells(&role);
    assert_eq!(kept, vec![cell("role.0", "a", false), cell("role.1", "z", true)]);
    let plan = reconcile_cloned_cells(&vec![request(1, "a")], &role);
    assert_eq!(
        plan,
        vec![
            ReconcileAction::Reenable { clone_id: "role.0".to_string(), request: hash(1) },
            ReconcileAction::Disable { clone_id: "role.1".to_string(), dna_modifiers: mods("z", &[]) },
        ]
    );
}

#[test]
fn dna_modifiers_of_each_kind_of_cell() {
    assert_eq!(dna_modifiers(&CellInfo::Provisioned(ProvisionedCell { dna_modifiers: mods("p", &[1]) })), mods("p", &[1]));
    assert_eq!(dna_modifiers(&CellInfo::Cloned(cell("role.0", "c", true))), mods("c", &[]));
    assert_eq!(dna_modifiers(&CellInfo::Stem(StemCell { dna_modifiers: mods("s", &[2]) })), mods("s", &[2]));
}

#[test]
fn modifiers_are_the_same_when_both_fields_are() {
    assert!(mods("a", &[1]).same(&mods("a", &[1])));
    assert!(!mods("a", &[1]).same(&mods("b", &[1])));
    assert!(!mods("a", &[1]).same(&mods("a", &[1, 0])));
}
