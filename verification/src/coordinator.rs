//! The decisions of the clone manager's zome functions: what they keep of the
//! links, records and details that the host hands them.
use vstd::prelude::*;
use crate::cells::CloneRequest;
use crate::hashes::{
    spec_into_action_hash, spec_into_agent_pub_key, spec_into_entry_hash, ActionHash, AgentPubKey,
    EntryHash,
};
use crate::hashes::AnyLinkableHash;
use crate::integrity::GuestError;

verus! {

/// A link, as far as the zome functions read it.
#[derive(Debug, PartialEq, Eq)]
pub struct Link {
    pub target: AnyLinkableHash,
    pub create_link_hash: ActionHash,
}

/// The details the host gives of a hash: those of a record, or those of an
/// entry (with the part of them that the caller reads).
#[derive(Debug, PartialEq, Eq)]
pub enum Details<E> {
    Record,
    Entry(E),
}

/// The targets of the links that are action hashes, in order.
pub open spec fn spec_action_targets(links: Seq<Link>) -> Seq<Seq<u8>>
    decreases links.len(),
{
    if links.len() == 0 {
        Seq::empty()
    } else {
        let rest = spec_action_targets(links.drop_last());
        match spec_into_action_hash(links.last().target) {
            Some(h) => rest.push(h),
            None => rest,
        }
    }
}

/// The records to fetch for `get_all_clone_requests`: the targets of the links
/// of all clone requests that are action hashes.
pub fn clone_request_actions(links: &Vec<Link>) -> (r: Vec<ActionHash>)
    ensures
        r@.map_values(|h: ActionHash| h.core@) == spec_action_targets(links@),
{
    let mut r: Vec<ActionHash> = Vec::new();
    let mut i: usize = 0;
    while i < links.len()
        invariant
            i <= links.len(),
            r@.map_values(|h: ActionHash| h.core@) == spec_action_targets(links@.subrange(0, i as int)),
        decreases links.len() - i,
    {
        let ghost before = r@;
        assert(links@.subrange(0, i + 1).drop_last() =~= links@.subrange(0, i as int));
        match links[i].target.into_action_hash() {
            Some(h) => {
                r.push(h);
                assert(r@.map_values(|h: ActionHash| h.core@) =~= before.map_values(
                    |h: ActionHash| h.core@,
                ).push(h.core@));
            },
            None => {},
        }
        i = i + 1;
    }
    assert(links@.subrange(0, links.len() as int) =~= links@);
    r
}

/// The present values, in order.
pub open spec fn spec_present<T>(items: Seq<Option<T>>) -> Seq<T>
    decreases items.len(),
{
    if items.len() == 0 {
        Seq::empty()
    } else {
        let rest = spec_present(items.drop_last());
        match items.last() {
            Some(x) => rest.push(x),
            None => rest,
        }
    }
}

/// The clone requests that `get_all_clone_requests` returns: of the fetched
/// records, in order, those that exist, carry an entry, and decode as a clone
/// request (each item is `None` where one of these fails).
pub fn get_all_clone_requests(decoded: Vec<Option<CloneRequest>>) -> (r: Vec<CloneRequest>)
    ensures
        r@ == spec_present(decoded@),
{
    let ghost all = decoded@;
    let mut r: Vec<CloneRequest> = Vec::new();
    let mut rest = decoded;
    let mut i: usize = 0;
    let n = rest.len();
    while i < n
        invariant
            n == all.len(),
            i <= n,
            rest@ == all.subrange(i as int, n as int),
            r@ == spec_present(all.subrange(0, i as int)),
        decreases n - i,
    {
        let item = rest.remove(0);
        proof {
            assert(item == all[i as int]);
            assert(all.subrange(0, i + 1).drop_last() =~= all.subrange(0, i as int));
            assert(rest@ =~= all.subrange(i + 1, n as int));
        }
        match item {
            Some(request) => {
                r.push(request);
            },
            None => {},
        }
        i = i + 1;
    }
    assert(all.subrange(0, n as int) =~= all);
    r
}

/// The create-link hashes of the links whose target is the agent key `me`.
pub open spec fn spec_own_links(links: Seq<Link>, me: Seq<u8>) -> Seq<Seq<u8>>
    decreases links.len(),
{
    if links.len() == 0 {
        Seq::empty()
    } else {
        let rest = spec_own_links(links.drop_last(), me);
        if spec_into_agent_pub_key(links.last().target) == Some(me) {
            rest.push(links.last().create_link_hash.core@)
        } else {
            rest
        }
    }
}

/// The links that `retract_as_clone_provider_for_request` deletes: of the
/// provider links of a request, those that point to this agent, in order.
pub fn retract_as_clone_provider_for_request(links: &Vec<Link>, my_pub_key: &AgentPubKey) -> (r: Vec<
    ActionHash,
>)
    ensures
        r@.map_values(|h: ActionHash| h.core@) == spec_own_links(links@, my_pub_key.core@),
{
    let mut r: Vec<ActionHash> = Vec::new();
    let mut i: usize = 0;
    while i < links.len()
        invariant
            i <= links.len(),
            r@.map_values(|h: ActionHash| h.core@) == spec_own_links(
                links@.subrange(0, i as int),
                my_pub_key.core@,
            ),
        decreases links.len() - i,
    {
        let ghost before = r@;
        assert(links@.subrange(0, i + 1).drop_last() =~= links@.subrange(0, i as int));
        let link = &links[i];
        match link.target.into_agent_pub_key() {
            Some(agent) => {
                if agent.same(my_pub_key) {
                    r.push(link.create_link_hash.copy());
                    assert(r@.map_values(|h: ActionHash| h.core@) =~= before.map_values(
                        |h: ActionHash| h.core@,
                    ).push(link.create_link_hash.core@));
                }
            },
            None => {},
        }
        i = i + 1;
    }
    assert(links@.subrange(0, links.len() as int) =~= links@);
    r
}

/// The agent keys among the targets of the links, in order.
pub open spec fn spec_agent_targets(links: Seq<Link>) -> Seq<Seq<u8>>
    decreases links.len(),
{
    if links.len() == 0 {
        Seq::empty()
    } else {
        let rest = spec_agent_targets(links.drop_last());
        match spec_into_agent_pub_key(links.last().target) {
            Some(k) => rest.push(k),
            None => rest,
        }
    }
}

/// The providers of a request: the targets of its provider links that are agent keys, in order.
pub fn get_clone_providers_for_request(links: &Vec<Link>) -> (r: Vec<AgentPubKey>)
    ensures
        r@.map_values(|k: AgentPubKey| k.core@) == spec_agent_targets(links@),
{
    let mut r: Vec<AgentPubKey> = Vec::new();
    let mut i: usize = 0;
    while i < links.len()
        invariant
            i <= links.len(),
            r@.map_values(|k: AgentPubKey| k.core@) == spec_agent_targets(links@.subrange(0, i as int)),
        decreases links.len() - i,
    {
        let ghost before = r@;
        assert(links@.subrange(0, i + 1).drop_last() =~= links@.subrange(0, i as int));
        match links[i].target.into_agent_pub_key() {
            Some(k) => {
                r.push(k);
                assert(r@.map_values(|k: AgentPubKey| k.core@) =~= before.map_values(
                    |k: AgentPubKey| k.core@,
                ).push(k.core@));
            },
            None => {},
        }
        i = i + 1;
    }
    assert(links@.subrange(0, links.len() as int) =~= links@);
    r
}

/// The create-link hashes of the links whose target is the entry hash `entry`.
pub open spec fn spec_links_to(links: Seq<Link>, entry: Seq<u8>) -> Seq<Seq<u8>>
    decreases links.len(),
{
    if links.len() == 0 {
        Seq::empty()
    } else {
        let rest = spec_links_to(links.drop_last(), entry);
        if spec_into_entry_hash(links.last().target) == Some(entry) {
            rest.push(links.last().create_link_hash.core@)
        } else {
            rest
        }
    }
}

/// The links of all clone requests that `delete_clone_request` deletes: those
/// whose target is the request's entry hash, in order.
pub fn delete_clone_request_links(links: &Vec<Link>, clone_request_hash: &EntryHash) -> (r: Vec<
    ActionHash,
>)
    ensures
        r@.map_values(|h: ActionHash| h.core@) == spec_links_to(links@, clone_request_hash.core@),
{
    let mut r: Vec<ActionHash> = Vec::new();
    let mut i: usize = 0;
    while i < links.len()
        invariant
            i <= links.len(),
            r@.map_values(|h: ActionHash| h.core@) == spec_links_to(
                links@.subrange(0, i as int),
                clone_request_hash.core@,
            ),
        decreases links.len() - i,
    {
        let ghost before = r@;
        assert(links@.subrange(0, i + 1).drop_last() =~= links@.subrange(0, i as int));
        let link = &links[i];
        match link.target.into_entry_hash() {
            Some(hash) => {
                if hash.same(clone_request_hash) {
                    r.push(link.create_link_hash.copy());
                    assert(r@.map_values(|h: ActionHash| h.core@) =~= before.map_values(
                        |h: ActionHash| h.core@,
                    ).push(link.create_link_hash.core@));
                }
            },
            None => {},
        }
        i = i + 1;
    }
    assert(links@.subrange(0, links.len() as int) =~= links@);
    r
}

/// The actions that `delete_clone_request` deletes: those that created the
/// request's entry, which must have entry details.
pub fn delete_clone_request_actions<E>(details: Option<Details<E>>) -> (r: Result<E, GuestError>)
    ensures
        match details {
            Some(Details::Entry(e)) => r == Ok::<E, GuestError>(e),
            _ => r matches Err(err) && err.message@ == "Clone request not found"@,
        },
{
    match details {
        Some(Details::Entry(entry_details)) => Ok(entry_details),
        _ => Err(GuestError { message: "Clone request not found".to_owned() }),
    }
}

/// The entry that `get_clone_request` decodes: none for an unknown hash, an
/// error for the details of a record.
pub fn get_clone_request<E>(details: Option<Details<E>>) -> (r: Result<Option<E>, GuestError>)
    ensures
        match details {
            None => r == Ok::<Option<E>, GuestError>(None),
            Some(Details::Entry(e)) => r == Ok::<Option<E>, GuestError>(Some(e)),
            Some(Details::Record) => r matches Err(err) && err.message@ == "Malformed get details response"@,
        },
{
    match details {
        None => Ok(None),
        Some(Details::Entry(entry)) => Ok(Some(entry)),
        Some(Details::Record) => Err(GuestError { message: "Malformed get details response".to_owned() }),
    }
}

/// The deletes of a request's entry: none for an unknown hash, an error for the
/// details of a record.
pub fn get_all_deletes_for_clone_request<E>(details: Option<Details<E>>) -> (r: Result<
    Option<E>,
    GuestError,
>)
    ensures
        match details {
            None => r == Ok::<Option<E>, GuestError>(None),
            Some(Details::Entry(e)) => r == Ok::<Option<E>, GuestError>(Some(e)),
            Some(Details::Record) => r matches Err(err) && err.message@ == "Malformed details"@,
        },
{
    match details {
        None => Ok(None),
        Some(Details::Entry(deletes)) => Ok(Some(deletes)),
        Some(Details::Record) => Err(GuestError { message: "Malformed details".to_owned() }),
    }
}

/// `i` is the index of the oldest delete: no delete is older, and every delete
/// before it is newer. A stable sort by timestamp puts exactly this one first.
pub open spec fn is_oldest(timestamps: Seq<i64>, i: int) -> bool {
    &&& 0 <= i < timestamps.len()
    &&& forall|j: int| 0 <= j < timestamps.len() ==> timestamps[i] <= #[trigger] timestamps[j]
    &&& forall|j: int| 0 <= j < i ==> timestamps[i] < #[trigger] timestamps[j]
}

/// The index of the oldest of the deletes, given their timestamps: none if
/// there are none, and of several equally old the first.
pub fn get_oldest_delete_for_clone_request(timestamps: &Vec<i64>) -> (r: Option<usize>)
    ensures
        match r {
            None => timestamps@.len() == 0,
            Some(i) => is_oldest(timestamps@, i as int),
        },
{
    if timestamps.len() == 0 {
        return None;
    }
    let mut best: usize = 0;
    let mut i: usize = 1;
    while i < timestamps.len()
        invariant
            1 <= i <= timestamps.len(),
            best < i,
            forall|j: int| 0 <= j < i ==> timestamps@[best as int] <= #[trigger] timestamps@[j],
            forall|j: int| 0 <= j < best ==> timestamps@[best as int] < #[trigger] timestamps@[j],
        decreases timestamps.len() - i,
    {
        if timestamps[i] < timestamps[best] {
            best = i;
        }
        i = i + 1;
    }
    Some(best)
}

} // verus!
