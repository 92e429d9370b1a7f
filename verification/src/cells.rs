//! Clone requests and the cells of an app, as plain values.
use vstd::prelude::*;
use crate::hashes::copy_bytes;
use crate::hashes::bytes_eq;

verus! {

/// The modifiers that tell one clone of a DNA from another: its network seed and
/// its (serialized) properties. Two modifiers are the same when both fields are.
#[derive(Debug, PartialEq, Eq)]
pub struct DnaModifiers {
    pub network_seed: String,
    pub properties: Vec<u8>,
}

/// What a `DnaModifiers` is, mathematically.
pub struct DnaModifiersView {
    pub network_seed: Seq<char>,
    pub properties: Seq<u8>,
}

impl View for DnaModifiers {
    type V = DnaModifiersView;

    open spec fn view(&self) -> DnaModifiersView {
        DnaModifiersView { network_seed: self.network_seed@, properties: self.properties@ }
    }
}

impl DnaModifiers {
    /// Equality of modifiers, field by field.
    pub fn same(&self, other: &DnaModifiers) -> (r: bool)
        ensures
            r == (self@ == other@),
    {
        let seeds_equal = self.network_seed == other.network_seed;
        let properties_equal = bytes_eq(&self.properties, &other.properties);
        seeds_equal && properties_equal
    }

    pub fn copy(&self) -> (r: DnaModifiers)
        ensures
            r@ == self@,
    {
        DnaModifiers { network_seed: self.network_seed.clone(), properties: copy_bytes(&self.properties) }
    }
}

/// A request that a clone of the DNA with these modifiers be kept running.
#[derive(Debug, PartialEq, Eq)]
pub struct CloneRequest {
    pub dna_modifiers: DnaModifiers,
}

/// The input of a zome call that creates a clone request.
#[derive(Debug, PartialEq, Eq)]
pub struct NewCloneRequest {
    pub clone_request: CloneRequest,
}

/// A cell that was cloned from a DNA of the app.
#[derive(Debug, PartialEq, Eq)]
pub struct ClonedCell {
    /// The conductor-local clone id (`<role>.<index>`).
    pub clone_id: String,
    pub dna_modifiers: DnaModifiers,
    pub enabled: bool,
}

/// What a `ClonedCell` is, mathematically.
pub struct ClonedCellView {
    pub clone_id: Seq<char>,
    pub dna_modifiers: DnaModifiersView,
    pub enabled: bool,
}

impl View for ClonedCell {
    type V = ClonedCellView;

    open spec fn view(&self) -> ClonedCellView {
        ClonedCellView { clone_id: self.clone_id@, dna_modifiers: self.dna_modifiers@, enabled: self.enabled }
    }
}

impl ClonedCell {
    pub fn copy(&self) -> (r: ClonedCell)
        ensures
            r@ == self@,
    {
        ClonedCell {
            clone_id: self.clone_id.clone(),
            dna_modifiers: self.dna_modifiers.copy(),
            enabled: self.enabled,
        }
    }
}

/// A cell provisioned when the app was installed.
#[derive(Debug, PartialEq, Eq)]
pub struct ProvisionedCell {
    pub dna_modifiers: DnaModifiers,
}

/// A cell whose DNA is installed but not yet instantiated.
#[derive(Debug, PartialEq, Eq)]
pub struct StemCell {
    pub dna_modifiers: DnaModifiers,
}

/// The three kinds of cell an app holds for a role.
#[derive(Debug, PartialEq, Eq)]
pub enum CellInfo {
    Provisioned(ProvisionedCell),
    Cloned(ClonedCell),
    Stem(StemCell),
}

/// The modifiers a cell was instantiated with, whatever its kind.
pub open spec fn spec_dna_modifiers(cell: CellInfo) -> DnaModifiersView {
    match cell {
        CellInfo::Provisioned(p) => p.dna_modifiers@,
        CellInfo::Cloned(c) => c.dna_modifiers@,
        CellInfo::Stem(s) => s.dna_modifiers@,
    }
}

/// Returns the modifiers of any kind of cell.
pub fn dna_modifiers(cell: &CellInfo) -> (r: DnaModifiers)
    ensures
        r@ == spec_dna_modifiers(*cell),
{
    match cell {
        CellInfo::Provisioned(provisioned) => provisioned.dna_modifiers.copy(),
        CellInfo::Cloned(cloned) => cloned.dna_modifiers.copy(),
        CellInfo::Stem(stem) => stem.dna_modifiers.copy(),
    }
}

/// The cloned cells among the cells of a role, in their order.
pub open spec fn spec_cloned_cells(cells: Seq<CellInfo>) -> Seq<ClonedCellView>
    decreases cells.len(),
{
    if cells.len() == 0 {
        Seq::empty()
    } else {
        let rest = spec_cloned_cells(cells.drop_last());
        match cells.last() {
            CellInfo::Cloned(c) => rest.push(c@),
            _ => rest,
        }
    }
}

/// Keeps the cloned cells of a role and drops the provisioned and stem cells.
pub fn cloned_cells(cells: &Vec<CellInfo>) -> (r: Vec<ClonedCell>)
    ensures
        r@.map_values(|c: ClonedCell| c@) == spec_cloned_cells(cells@),
{
    let mut r: Vec<ClonedCell> = Vec::new();
    let mut i: usize = 0;
    while i < cells.len()
        invariant
            i <= cells.len(),
            r@.map_values(|c: ClonedCell| c@) == spec_cloned_cells(cells@.subrange(0, i as int)),
        decreases cells.len() - i,
    {
        let ghost before = r@;
        assert(cells@.subrange(0, i + 1).drop_last() =~= cells@.subrange(0, i as int));
        match &cells[i] {
            CellInfo::Cloned(c) => {
                r.push(c.copy());
                assert(r@.map_values(|c: ClonedCell| c@) =~= before.map_values(|c: ClonedCell| c@).push(
                    c@,
                ));
            },
            _ => {},
        }
        i = i + 1;
    }
    assert(cells@.subrange(0, cells.len() as int) =~= cells@);
    r
}

} // verus!
