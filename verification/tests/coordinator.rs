use clone_manager::cells::{CloneRequest, DnaModifiers};
use clone_manager::coordinator::{
    clone_request_actions, delete_clone_request_actions, delete_clone_request_links,
    get_all_clone_requests, get_all_deletes_for_clone_request, get_clone_providers_for_request,
    get_clone_request, get_oldest_delete_for_clone_request, retract_as_clone_provider_for_request, Details,
    Link,
};
use clone_manager::hashes::{ActionHash, AgentPubKey, AnyLinkableHash, EntryHash, LinkableHashType};

fn link(hash_type: LinkableHashType, target: u8, create: u8) -> Link {
    Link {
        target: AnyLinkableHash { hash_type, core: vec![target; 36] },
        create_link_hash: ActionHash { core: vec![create; 36] },
    }
}

fn request(seed: &str) -> CloneRequest {
    CloneRequest { dna_modifiers: DnaModifiers { network_seed: seed.to_string(), properties: vec![] } }
}

#[test]
fn all_clone_requests_are_read_from_action_targets() {
    let links = vec![
        link(LinkableHashType::Action, 1, 10),
        link(LinkableHashType::Entry, 2, 11),
        link(LinkableHashType::Action, 3, 12),
        link(LinkableHashType::External, 4, 13),
    ];
    let actions = clone_request_actions(&links);
    assert_eq!(actions, vec![ActionHash { core: vec![1; 36] }, ActionHash { core: vec![3; 36] }]);
}

#[test]
fn all_clone_requests_keep_the_decoded_ones_in_order() {
    let decoded = vec![Some(request("a")), None, Some(request("b")), None];
    assert_eq!(get_all_clone_requests(decoded), vec![request("a"), request("b")]);
    assert!(get_all_clone_requests(vec![None, None]).is_empty());
}

#[test]
fn retracting_deletes_only_own_provider_links() {
    let me = AgentPubKey { core: vec![7; 36] };
    let links = vec![
        link(LinkableHashType::Entry, 7, 10),
        link(LinkableHashType::Entry, 8, 11),
        link(LinkableHashType::Action, 7, 12),
        link(LinkableHashType::Entry, 7, 13),
    ];
    let deleted = retract_as_clone_provider_for_request(&links, &me);
    assert_eq!(deleted, vec![ActionHash { core: vec![10; 36] }, ActionHash { core: vec![13; 36] }]);
}

#[test]
fn providers_are_the_agent_targets() {
    let links = vec![
        link(LinkableHashType::Entry, 7, 10),
        link(LinkableHashType::External, 8, 11),
        link(LinkableHashType::Entry, 9, 12),
    ];
    let providers = get_clone_providers_for_request(&links);
    assert_eq!(providers, vec![AgentPubKey { core: vec![7; 36] }, AgentPubKey { core: vec![9; 36] }]);
}

#[test]
fn deleting_a_request_deletes_the_links_to_it() {
    let links = vec![
        link(LinkableHashType::Entry, 5, 10),
        link(LinkableHashType::Entry, 6, 11),
        link(LinkableHashType::Action, 5, 12),
        link(LinkableHashType::Entry, 5, 13),
    ];
    let deleted = delete_clone_request_links(&links, &EntryHash { core: vec![5; 36] });
    assert_eq!(deleted, vec![ActionHash { core: vec![10; 36] }, ActionHash { core: vec![13; 36] }]);
}

#[test]
fn deleting_a_request_needs_its_entry_details() {
    assert_eq!(delete_clone_request_actions(Some(Details::Entry(vec![1u8, 2]))).ok(), Some(vec![1u8, 2]));
    assert_eq!(
        delete_clone_request_actions::<Vec<u8>>(Some(Details::Record)).err().map(|e| e.message),
        Some("Clone request not found".to_string())
    );
    assert_eq!(
        delete_clone_request_actions::<Vec<u8>>(None).err().map(|e| e.message),
        Some("Clone request not found".to_string())
    );
}

#[test]
fn getting_a_request_reads_its_entry_details() {
    assert_eq!(get_clone_request::<u8>(None).ok(), Some(None));
    assert_eq!(get_clone_request(Some(Details::Entry(3u8))).ok(), Some(Some(3u8)));
    assert_eq!(
        get_clone_request::<u8>(Some(Details::Record)).err().map(|e| e.message),
        Some("Malformed get details response".to_string())
    );
}

#[test]
fn deletes_of_a_request_come_from_its_entry_details() {
    assert_eq!(get_all_deletes_for_clone_request::<u8>(None).ok(), Some(None));
    assert_eq!(get_all_deletes_for_clone_request(Some(Details::Entry(4u8))).ok(), Some(Some(4u8)));
    assert_eq!(
        get_all_deletes_for_clone_request::<u8>(Some(Details::Record)).err().map(|e| e.message),
        Some("Malformed details".to_string())
    );
}

#[test]
fn oldest_delete_is_the_first_with_the_smallest_timestamp() {
    assert_eq!(get_oldest_delete_for_clone_request(&vec![]), None);
    assert_eq!(get_oldest_delete_for_clone_request(&vec![5]), Some(0));
    assert_eq!(get_oldest_delete_for_clone_request(&vec![30, 10, 20, 10]), Some(1));
    assert_eq!(get_oldest_delete_for_clone_request(&vec![-3, 0, -3]), Some(0));
    let timestamps = vec![9, 4, 7, 4, 12, 3, 3];
    let mut order: Vec<usize> = (0..timestamps.len()).collect();
    order.sort_by(|a, b| timestamps[*a].cmp(&timestamps[*b]));
    assert_eq!(get_oldest_delete_for_clone_request(&timestamps), Some(order[0]));
}
