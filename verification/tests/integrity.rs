use clone_manager::cells::{CloneRequest, DnaModifiers};
use clone_manager::hashes::{AgentPubKey, AnyLinkableHash, LinkableHashType};
use clone_manager::integrity::{
    validate_create_clone_request, validate_create_link_all_clone_requests,
    validate_create_link_clone_provider_for_request, validate_create_link_clone_providers,
    validate_delete_clone_request, validate_delete_link_all_clone_requests,
    validate_delete_link_clone_provider_for_request, validate_delete_link_clone_providers,
    validate_linked_clone_request, validate_update_clone_request, CreateLink, DeleteLink,
    ValidateCallbackResult,
};
use hdi::prelude::{
    ActionHash, Create, Delete, EntryCreationAction, EntryHash, EntryType, LinkTag, RateWeight, Timestamp,
    Update,
};

fn linkable(hash_type: LinkableHashType, n: u8) -> AnyLinkableHash {
    AnyLinkableHash { hash_type, core: vec![n; 36] }
}

fn create_link(n: u8) -> CreateLink {
    CreateLink { author: AgentPubKey { core: vec![n; 36] } }
}

fn delete_link(n: u8) -> DeleteLink {
    DeleteLink { author: AgentPubKey { core: vec![n; 36] } }
}

fn tag() -> LinkTag {
    LinkTag::new(Vec::<u8>::new())
}

fn request() -> CloneRequest {
    CloneRequest { dna_modifiers: DnaModifiers { network_seed: "seed".to_string(), properties: vec![] } }
}

fn agent() -> hdi::prelude::AgentPubKey {
    hdi::prelude::AgentPubKey::from_raw_36(vec![7; 36])
}

fn creation() -> EntryCreationAction {
    EntryCreationAction::Create(Create {
        author: agent(),
        timestamp: Timestamp::from_micros(0),
        action_seq: 3,
        prev_action: ActionHash::from_raw_36(vec![1; 36]),
        entry_type: EntryType::AgentPubKey,
        entry_hash: EntryHash::from_raw_36(vec![2; 36]),
        weight: Default::default(),
    })
}

fn invalid(reason: &str) -> ValidateCallbackResult {
    ValidateCallbackResult::Invalid(reason.to_string())
}

#[test]
fn provider_link_from_entry_to_agent_is_valid() {
    let r = validate_create_link_clone_provider_for_request(
        create_link(1),
        linkable(LinkableHashType::Entry, 2),
        linkable(LinkableHashType::Entry, 3),
        tag(),
    );
    assert_eq!(r.ok(), Some(ValidateCallbackResult::Valid));
}

#[test]
fn provider_link_needs_an_entry_base() {
    for base in [LinkableHashType::Action, LinkableHashType::External] {
        let r = validate_create_link_clone_provider_for_request(
            create_link(1),
            linkable(base, 2),
            linkable(LinkableHashType::Entry, 3),
            tag(),
        );
        assert_eq!(r.ok(), Some(invalid("Base address for a CloneProviderForRequest link must be an EntryHash")));
    }
}

#[test]
fn provider_link_needs_an_agent_target() {
    let r = validate_create_link_clone_provider_for_request(
        create_link(1),
        linkable(LinkableHashType::Entry, 2),
        linkable(LinkableHashType::Action, 3),
        tag(),
    );
    assert_eq!(r.ok(), Some(invalid("Target address for a CloneProviderForRequest link must be an AgentPubKey")));
}

#[test]
fn only_the_author_deletes_a_provider_link() {
    let any = linkable(LinkableHashType::Entry, 2);
    let r = validate_delete_link_clone_provider_for_request(
        delete_link(1),
        create_link(1),
        linkable(LinkableHashType::Entry, 2),
        any,
        tag(),
    );
    assert_eq!(r.ok(), Some(ValidateCallbackResult::Valid));
    let r = validate_delete_link_clone_provider_for_request(
        delete_link(1),
        create_link(9),
        linkable(LinkableHashType::Entry, 2),
        linkable(LinkableHashType::Entry, 2),
        tag(),
    );
    assert_eq!(r.ok(), Some(invalid("Only authors can delete their own clone provider for request links")));
}

#[test]
fn clone_providers_links() {
    let ok = validate_create_link_clone_providers(
        create_link(1),
        linkable(LinkableHashType::Entry, 2),
        linkable(LinkableHashType::Entry, 3),
        tag(),
    );
    assert_eq!(ok.ok(), Some(ValidateCallbackResult::Valid));
    let bad_base = validate_create_link_clone_providers(
        create_link(1),
        linkable(LinkableHashType::External, 2),
        linkable(LinkableHashType::Entry, 3),
        tag(),
    );
    assert_eq!(bad_base.ok(), Some(invalid("Base address for a CloneProviders link must be an entry hash")));
    let bad_target = validate_create_link_clone_providers(
        create_link(1),
        linkable(LinkableHashType::Entry, 2),
        linkable(LinkableHashType::External, 3),
        tag(),
    );
    assert_eq!(bad_target.ok(), Some(invalid("Base address for a CloneProviders link must be an AgentPubKey")));
    let delete = validate_delete_link_clone_providers(
        delete_link(1),
        create_link(2),
        linkable(LinkableHashType::Entry, 2),
        linkable(LinkableHashType::Entry, 3),
        tag(),
    );
    assert_eq!(delete.ok(), Some(ValidateCallbackResult::Valid));
}

#[test]
fn clone_requests_are_created_and_deleted_but_never_updated() {
    assert_eq!(validate_create_clone_request(creation(), request()).ok(), Some(ValidateCallbackResult::Valid));
    let update = Update {
        author: agent(),
        timestamp: Timestamp::from_micros(10),
        action_seq: 4,
        prev_action: ActionHash::from_raw_36(vec![1; 36]),
        original_action_address: ActionHash::from_raw_36(vec![3; 36]),
        original_entry_address: EntryHash::from_raw_36(vec![2; 36]),
        entry_type: EntryType::AgentPubKey,
        entry_hash: EntryHash::from_raw_36(vec![4; 36]),
        weight: Default::default(),
    };
    assert_eq!(
        validate_update_clone_request(update, request(), creation(), request()).ok(),
        Some(invalid("Clone Requests cannot be updated"))
    );
    let delete = Delete {
        author: agent(),
        timestamp: Timestamp::from_micros(20),
        action_seq: 5,
        prev_action: ActionHash::from_raw_36(vec![1; 36]),
        deletes_address: ActionHash::from_raw_36(vec![3; 36]),
        deletes_entry_address: EntryHash::from_raw_36(vec![2; 36]),
        weight: RateWeight::default(),
    };
    assert_eq!(validate_delete_clone_request(delete, creation(), request()).ok(), Some(ValidateCallbackResult::Valid));
}

#[test]
fn all_clone_requests_link_must_target_an_entry() {
    let r = validate_create_link_all_clone_requests(
        create_link(1),
        linkable(LinkableHashType::Entry, 2),
        linkable(LinkableHashType::Entry, 5),
        tag(),
    );
    assert_eq!(r.ok().map(|h| h.core), Some(vec![5; 36]));
    let r = validate_create_link_all_clone_requests(
        create_link(1),
        linkable(LinkableHashType::Entry, 2),
        linkable(LinkableHashType::Action, 5),
        tag(),
    );
    assert_eq!(r.err().map(|e| e.message), Some("No action hash associated with link".to_string()));
}

#[test]
fn all_clone_requests_link_must_reach_a_clone_request() {
    assert_eq!(validate_linked_clone_request(true).ok(), Some(ValidateCallbackResult::Valid));
    assert_eq!(validate_linked_clone_request(false).ok(), Some(invalid("Linked action must reference an entry")));
    let delete = validate_delete_link_all_clone_requests(
        delete_link(1),
        create_link(2),
        linkable(LinkableHashType::Entry, 2),
        linkable(LinkableHashType::Entry, 3),
        tag(),
    );
    assert_eq!(delete.ok(), Some(ValidateCallbackResult::Valid));
}
