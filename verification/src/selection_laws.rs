//! What the selections of cells, records and links keep: each keeps exactly
//! the items of its input that pass its test, in their order, and drops the rest.
use vstd::prelude::*;
use crate::cells::{spec_cloned_cells, CellInfo, ClonedCell};
use crate::coordinator::{
    spec_action_targets, spec_agent_targets, spec_links_to, spec_own_links, spec_present, Link,
};
use crate::hashes::{spec_into_action_hash, spec_into_agent_pub_key, spec_into_entry_hash};

verus! {

/// A role without cells has no cloned cells; a cell added at the end of a role
/// adds itself to the cloned cells when it is a cloned cell, and nothing otherwise.
pub proof fn law_cloned_cells_push(cells: Seq<CellInfo>, cell: CellInfo)
    ensures
        spec_cloned_cells(Seq::<CellInfo>::empty()).len() == 0,
        match cell {
            CellInfo::Cloned(c) => spec_cloned_cells(cells.push(cell)) == spec_cloned_cells(cells).push(c@),
            _ => spec_cloned_cells(cells.push(cell)) == spec_cloned_cells(cells),
        },
{
    assert(cells.push(cell).drop_last() =~= cells);
}

/// Every cloned cell of a role is kept, and everything kept is a cloned cell of the role.
pub proof fn law_cloned_cells_members(cells: Seq<CellInfo>)
    ensures
        forall|j: int|
            0 <= j < cells.len() ==> (#[trigger] cells[j] matches CellInfo::Cloned(c) ==> spec_cloned_cells(
                cells,
            ).contains(c@)),
        forall|k: int|
            0 <= k < spec_cloned_cells(cells).len() ==> exists|j: int|
                0 <= j < cells.len() && (match #[trigger] cells[j] {
                    CellInfo::Cloned(c) => Some(c@),
                    _ => None,
                }) == Some(#[trigger] spec_cloned_cells(cells)[k]),
        spec_cloned_cells(cells).len() <= cells.len(),
    decreases cells.len(),
{
    if cells.len() > 0 {
        let front = cells.drop_last();
        let last = cells.last();
        law_cloned_cells_members(front);
        law_cloned_cells_push(front, last);
        assert(front.push(last) =~= cells);
        let r = spec_cloned_cells(cells);
        let rf = spec_cloned_cells(front);
        assert forall|j: int| 0 <= j < cells.len() implies (#[trigger] cells[j] matches CellInfo::Cloned(c)
            ==> r.contains(c@)) by {
            if j < front.len() {
                assert(cells[j] == front[j]);
                if let CellInfo::Cloned(c) = cells[j] {
                    let k = choose|k: int| 0 <= k < rf.len() && rf[k] == c@;
                    assert(r[k] == rf[k]);
                }
            } else {
                if let CellInfo::Cloned(c) = cells[j] {
                    assert(r[rf.len() as int] == c@);
                }
            }
        }
        assert forall|k: int| 0 <= k < r.len() implies exists|j: int|
            0 <= j < cells.len() && (match #[trigger] cells[j] {
                CellInfo::Cloned(c) => Some(c@),
                _ => None,
            }) == Some(#[trigger] r[k]) by {
            if k < rf.len() {
                assert(r[k] == rf[k]);
                let j = choose|j: int|
                    0 <= j < front.len() && (#[trigger] front[j] matches CellInfo::Cloned(c) && c@ == rf[k]);
                assert(cells[j] == front[j]);
            } else {
                assert(cells[cells.len() - 1] == last);
                assert(r.len() != rf.len());
                if let CellInfo::Cloned(c) = last {
                    assert(c@ == r[k]);
                }
                assert(cells[cells.len() - 1] matches CellInfo::Cloned(c) && c@ == r[k]);
            }
        }
    }
}

/// No records give no requests; a record added at the end adds its request when
/// it decoded as one, and nothing otherwise.
pub proof fn law_present_push<T>(items: Seq<Option<T>>, item: Option<T>)
    ensures
        spec_present(Seq::<Option<T>>::empty()).len() == 0,
        match item {
            Some(x) => spec_present(items.push(item)) == spec_present(items).push(x),
            None => spec_present(items.push(item)) == spec_present(items),
        },
{
    assert(items.push(item).drop_last() =~= items);
}

/// Every decoded request is kept, and everything kept was decoded.
pub proof fn law_present_members<T>(items: Seq<Option<T>>)
    ensures
        forall|j: int|
            0 <= j < items.len() ==> (#[trigger] items[j] matches Some(x) ==> spec_present(items).contains(x)),
        forall|k: int|
            0 <= k < spec_present(items).len() ==> exists|j: int|
                0 <= j < items.len() && #[trigger] items[j] == Some(#[trigger] spec_present(items)[k]),
        spec_present(items).len() <= items.len(),
    decreases items.len(),
{
    if items.len() > 0 {
        let front = items.drop_last();
        let last = items.last();
        law_present_members(front);
        law_present_push(front, last);
        assert(front.push(last) =~= items);
        let r = spec_present(items);
        let rf = spec_present(front);
        assert forall|j: int| 0 <= j < items.len() implies (#[trigger] items[j] matches Some(x) ==> r.contains(
            x,
        )) by {
            if j < front.len() {
                assert(items[j] == front[j]);
                if let Some(x) = items[j] {
                    let k = choose|k: int| 0 <= k < rf.len() && rf[k] == x;
                    assert(r[k] == rf[k]);
                }
            } else {
                if let Some(x) = items[j] {
                    assert(r[rf.len() as int] == x);
                }
            }
        }
        assert forall|k: int| 0 <= k < r.len() implies exists|j: int|
            0 <= j < items.len() && #[trigger] items[j] == Some(#[trigger] r[k]) by {
            if k < rf.len() {
                assert(r[k] == rf[k]);
                let j = choose|j: int| 0 <= j < front.len() && #[trigger] front[j] == Some(rf[k]);
                assert(items[j] == front[j]);
            } else {
                assert(items[items.len() - 1] == last);
            }
        }
    }
}

/// A link added at the end adds its target to the records to fetch when the
/// target is an action hash, and nothing otherwise.
pub proof fn law_action_targets_push(links: Seq<Link>, link: Link)
    ensures
        spec_action_targets(Seq::<Link>::empty()).len() == 0,
        match spec_into_action_hash(link.target) {
            Some(h) => spec_action_targets(links.push(link)) == spec_action_targets(links).push(h),
            None => spec_action_targets(links.push(link)) == spec_action_targets(links),
        },
{
    assert(links.push(link).drop_last() =~= links);
}

/// Every action-hash target is fetched, and only those.
pub proof fn law_action_targets_members(links: Seq<Link>)
    ensures
        forall|j: int|
            0 <= j < links.len() ==> (spec_into_action_hash(#[trigger] links[j].target) matches Some(h)
                ==> spec_action_targets(links).contains(h)),
        forall|k: int|
            0 <= k < spec_action_targets(links).len() ==> exists|j: int|
                0 <= j < links.len() && spec_into_action_hash(#[trigger] links[j].target) == Some(
                    #[trigger] spec_action_targets(links)[k],
                ),
        spec_action_targets(links).len() <= links.len(),
    decreases links.len(),
{
    if links.len() > 0 {
        let front = links.drop_last();
        let last = links.last();
        law_action_targets_members(front);
        law_action_targets_push(front, last);
        assert(front.push(last) =~= links);
        let r = spec_action_targets(links);
        let rf = spec_action_targets(front);
        assert forall|j: int| 0 <= j < links.len() implies (spec_into_action_hash(
            #[trigger] links[j].target,
        ) matches Some(h) ==> r.contains(h)) by {
            if j < front.len() {
                assert(links[j] == front[j]);
                if let Some(h) = spec_into_action_hash(links[j].target) {
                    let k = choose|k: int| 0 <= k < rf.len() && rf[k] == h;
                    assert(r[k] == rf[k]);
                }
            } else {
                if let Some(h) = spec_into_action_hash(links[j].target) {
                    assert(r[rf.len() as int] == h);
                }
            }
        }
        assert forall|k: int| 0 <= k < r.len() implies exists|j: int|
            0 <= j < links.len() && spec_into_action_hash(#[trigger] links[j].target) == Some(#[trigger] r[k]) by {
            if k < rf.len() {
                assert(r[k] == rf[k]);
                let j = choose|j: int|
                    0 <= j < front.len() && spec_into_action_hash(#[trigger] front[j].target) == Some(rf[k]);
                assert(links[j] == front[j]);
            } else {
                assert(links[links.len() - 1] == last);
            }
        }
    }
}

/// A link added at the end is retracted exactly when its target is this agent's
/// key, whatever links come before it.
pub proof fn law_own_links_push(links: Seq<Link>, link: Link, me: Seq<u8>)
    ensures
        spec_own_links(Seq::<Link>::empty(), me).len() == 0,
        spec_own_links(links.push(link), me) == if spec_into_agent_pub_key(link.target) == Some(me) {
            spec_own_links(links, me).push(link.create_link_hash.core@)
        } else {
            spec_own_links(links, me)
        },
{
    assert(links.push(link).drop_last() =~= links);
}

/// Every link to this agent is retracted, and only links to this agent are.
pub proof fn law_own_links_members(links: Seq<Link>, me: Seq<u8>)
    ensures
        forall|j: int|
            0 <= j < links.len() && spec_into_agent_pub_key(#[trigger] links[j].target) == Some(me)
                ==> spec_own_links(links, me).contains(links[j].create_link_hash.core@),
        forall|k: int|
            0 <= k < spec_own_links(links, me).len() ==> exists|j: int|
                0 <= j < links.len() && (if spec_into_agent_pub_key(#[trigger] links[j].target) == Some(me) {
                    Some(links[j].create_link_hash.core@)
                } else {
                    None
                }) == Some(#[trigger] spec_own_links(links, me)[k]),
        spec_own_links(links, me).len() <= links.len(),
    decreases links.len(),
{
    if links.len() > 0 {
        let front = links.drop_last();
        let last = links.last();
        law_own_links_members(front, me);
        law_own_links_push(front, last, me);
        assert(front.push(last) =~= links);
        let r = spec_own_links(links, me);
        let rf = spec_own_links(front, me);
        assert forall|j: int|
            0 <= j < links.len() && spec_into_agent_pub_key(#[trigger] links[j].target) == Some(me) implies r.contains(
            links[j].create_link_hash.core@,
        ) by {
            if j < front.len() {
                assert(links[j] == front[j]);
                let k = choose|k: int| 0 <= k < rf.len() && rf[k] == links[j].create_link_hash.core@;
                assert(r[k] == rf[k]);
            } else {
                assert(r[rf.len() as int] == links[j].create_link_hash.core@);
            }
        }
        assert forall|k: int| 0 <= k < r.len() implies exists|j: int|
            0 <= j < links.len() && (if spec_into_agent_pub_key(#[trigger] links[j].target) == Some(me) {
                Some(links[j].create_link_hash.core@)
            } else {
                None
            }) == Some(#[trigger] r[k]) by {
            if k < rf.len() {
                assert(r[k] == rf[k]);
                let j = choose|j: int|
                    0 <= j < front.len() && spec_into_agent_pub_key(#[trigger] front[j].target) == Some(me)
                        && front[j].create_link_hash.core@ == rf[k];
                assert(links[j] == front[j]);
            } else {
                assert(links[links.len() - 1] == last);
                assert(r.len() != rf.len());
                assert(spec_into_agent_pub_key(links[links.len() - 1].target) == Some(me));
                assert(links[links.len() - 1].create_link_hash.core@ == r[k]);
            }
        }
    } else {
        assert(spec_own_links(links, me).len() == 0);
    }
}

/// A link added at the end adds its target to the providers when the target is
/// an agent key, and nothing otherwise.
pub proof fn law_agent_targets_push(links: Seq<Link>, link: Link)
    ensures
        spec_agent_targets(Seq::<Link>::empty()).len() == 0,
        match spec_into_agent_pub_key(link.target) {
            Some(k) => spec_agent_targets(links.push(link)) == spec_agent_targets(links).push(k),
            None => spec_agent_targets(links.push(link)) == spec_agent_targets(links),
        },
{
    assert(links.push(link).drop_last() =~= links);
}

/// Every agent-key target is a provider, and every provider is such a target.
pub proof fn law_agent_targets_members(links: Seq<Link>)
    ensures
        forall|j: int|
            0 <= j < links.len() ==> (spec_into_agent_pub_key(#[trigger] links[j].target) matches Some(a)
                ==> spec_agent_targets(links).contains(a)),
        forall|k: int|
            0 <= k < spec_agent_targets(links).len() ==> exists|j: int|
                0 <= j < links.len() && spec_into_agent_pub_key(#[trigger] links[j].target) == Some(
                    #[trigger] spec_agent_targets(links)[k],
                ),
        spec_agent_targets(links).len() <= links.len(),
    decreases links.len(),
{
    if links.len() > 0 {
        let front = links.drop_last();
        let last = links.last();
        law_agent_targets_members(front);
        law_agent_targets_push(front, last);
        assert(front.push(last) =~= links);
        let r = spec_agent_targets(links);
        let rf = spec_agent_targets(front);
        assert forall|j: int| 0 <= j < links.len() implies (spec_into_agent_pub_key(
            #[trigger] links[j].target,
        ) matches Some(a) ==> r.contains(a)) by {
            if j < front.len() {
                assert(links[j] == front[j]);
                if let Some(a) = spec_into_agent_pub_key(links[j].target) {
                    let k = choose|k: int| 0 <= k < rf.len() && rf[k] == a;
                    assert(r[k] == rf[k]);
                }
            } else {
                if let Some(a) = spec_into_agent_pub_key(links[j].target) {
                    assert(r[rf.len() as int] == a);
                }
            }
        }
        assert forall|k: int| 0 <= k < r.len() implies exists|j: int|
            0 <= j < links.len() && spec_into_agent_pub_key(#[trigger] links[j].target) == Some(#[trigger] r[k]) by {
            if k < rf.len() {
                assert(r[k] == rf[k]);
                let j = choose|j: int|
                    0 <= j < front.len() && spec_into_agent_pub_key(#[trigger] front[j].target) == Some(rf[k]);
                assert(links[j] == front[j]);
            } else {
                assert(links[links.len() - 1] == last);
            }
        }
    }
}

/// A link added at the end is deleted with the request exactly when its target
/// is the request's entry hash, whatever links come before it.
pub proof fn law_links_to_push(links: Seq<Link>, link: Link, entry: Seq<u8>)
    ensures
        spec_links_to(Seq::<Link>::empty(), entry).len() == 0,
        spec_links_to(links.push(link), entry) == if spec_into_entry_hash(link.target) == Some(entry) {
            spec_links_to(links, entry).push(link.create_link_hash.core@)
        } else {
            spec_links_to(links, entry)
        },
{
    assert(links.push(link).drop_last() =~= links);
}

/// Every link to the request is deleted, and only links to the request are.
pub proof fn law_links_to_members(links: Seq<Link>, entry: Seq<u8>)
    ensures
        forall|j: int|
            0 <= j < links.len() && spec_into_entry_hash(#[trigger] links[j].target) == Some(entry)
                ==> spec_links_to(links, entry).contains(links[j].create_link_hash.core@),
        forall|k: int|
            0 <= k < spec_links_to(links, entry).len() ==> exists|j: int|
                0 <= j < links.len() && (if spec_into_entry_hash(#[trigger] links[j].target) == Some(entry) {
                    Some(links[j].create_link_hash.core@)
                } else {
                    None
                }) == Some(#[trigger] spec_links_to(links, entry)[k]),
        spec_links_to(links, entry).len() <= links.len(),
    decreases links.len(),
{
    if links.len() > 0 {
        let front = links.drop_last();
        let last = links.last();
        law_links_to_members(front, entry);
        law_links_to_push(front, last, entry);
        assert(front.push(last) =~= links);
        let r = spec_links_to(links, entry);
        let rf = spec_links_to(front, entry);
        assert forall|j: int|
            0 <= j < links.len() && spec_into_entry_hash(#[trigger] links[j].target) == Some(entry) implies r.contains(
            links[j].create_link_hash.core@,
        ) by {
            if j < front.len() {
                assert(links[j] == front[j]);
                let k = choose|k: int| 0 <= k < rf.len() && rf[k] == links[j].create_link_hash.core@;
                assert(r[k] == rf[k]);
            } else {
                assert(r[rf.len() as int] == links[j].create_link_hash.core@);
            }
        }
        assert forall|k: int| 0 <= k < r.len() implies exists|j: int|
            0 <= j < links.len() && (if spec_into_entry_hash(#[trigger] links[j].target) == Some(entry) {
                Some(links[j].create_link_hash.core@)
            } else {
                None
            }) == Some(#[trigger] r[k]) by {
            if k < rf.len() {
                assert(r[k] == rf[k]);
                let j = choose|j: int|
                    0 <= j < front.len() && spec_into_entry_hash(#[trigger] front[j].target) == Some(entry)
                        && front[j].create_link_hash.core@ == rf[k];
                assert(links[j] == front[j]);
            } else {
                assert(links[links.len() - 1] == last);
                assert(r.len() != rf.len());
                assert(spec_into_entry_hash(links[links.len() - 1].target) == Some(entry));
                assert(links[links.len() - 1].create_link_hash.core@ == r[k]);
            }
        }
    }
}

} // verus!
