use clone_manager::entry_hash::{clone_request_entry_hash, entry_hash_from_hashed, ENTRY_SIZE_LIMIT};
use clone_manager::hashes::{bytes_eq, copy_bytes, AnyLinkableHash, EntryHash, LinkableHashType};

fn linkable(hash_type: LinkableHashType) -> AnyLinkableHash {
    AnyLinkableHash { hash_type, core: (0..36).collect() }
}

#[test]
fn linkable_hashes_convert_by_their_type() {
    let entry = linkable(LinkableHashType::Entry);
    assert_eq!(entry.into_entry_hash().map(|h| h.core), Some((0..36).collect::<Vec<u8>>()));
    assert_eq!(entry.into_agent_pub_key().map(|h| h.core), Some((0..36).collect::<Vec<u8>>()));
    assert!(entry.into_action_hash().is_none());
    let action = linkable(LinkableHashType::Action);
    assert!(action.into_entry_hash().is_none());
    assert!(action.into_agent_pub_key().is_none());
    assert_eq!(action.into_action_hash().map(|h| h.core), Some((0..36).collect::<Vec<u8>>()));
    let external = linkable(LinkableHashType::External);
    assert!(external.into_entry_hash().is_none());
    assert!(external.into_agent_pub_key().is_none());
    assert!(external.into_action_hash().is_none());
}

#[test]
fn bytes_compare_and_copy() {
    assert!(bytes_eq(&vec![1, 2, 3], &vec![1, 2, 3]));
    assert!(!bytes_eq(&vec![1, 2, 3], &vec![1, 2]));
    assert!(!bytes_eq(&vec![1, 2, 3], &vec![1, 2, 4]));
    assert_eq!(copy_bytes(&vec![4, 5]), vec![4, 5]);
    assert!(EntryHash { core: vec![1; 36] }.same(&EntryHash { core: vec![1; 36] }));
}

#[test]
fn request_entry_hash_is_the_holochain_entry_hash() {
    let bytes: Vec<u8> = vec![0x81, 0xa1, 0x61, 0x01];
    let hash = clone_request_entry_hash(&bytes).ok().unwrap();
    let entry = hdi::prelude::Entry::app(hdi::prelude::SerializedBytes::from(hdi::prelude::UnsafeBytes::from(
        bytes.clone(),
    )))
    .unwrap();
    let expected = holo_hash::HoloHashed::<hdi::prelude::Entry>::from_content_sync(entry).hash;
    assert_eq!(hash.core, expected.get_raw_36().to_vec());
    assert_eq!(hash.core.len(), 36);
    assert_ne!(hash.core, bytes);
}

#[test]
fn different_requests_have_different_hashes() {
    let a = clone_request_entry_hash(&vec![1, 2, 3]).ok().unwrap();
    let b = clone_request_entry_hash(&vec![1, 2, 4]).ok().unwrap();
    let a_again = clone_request_entry_hash(&vec![1, 2, 3]).ok().unwrap();
    assert_ne!(a, b);
    assert_eq!(a, a_again);
}

#[test]
fn too_large_request_is_refused() {
    let bytes = vec![0u8; ENTRY_SIZE_LIMIT + 1];
    assert_eq!(clone_request_entry_hash(&bytes).err().map(|e| e.size), Some(ENTRY_SIZE_LIMIT + 1));
    let at_limit = vec![0u8; ENTRY_SIZE_LIMIT];
    assert!(clone_request_entry_hash(&at_limit).is_ok());
}

#[test]
fn hashing_outcome_becomes_a_hash_or_a_size_error() {
    assert_eq!(entry_hash_from_hashed(3, Some(vec![9; 36])).ok(), Some(EntryHash { core: vec![9; 36] }));
    assert_eq!(entry_hash_from_hashed(4000001, None).err().map(|e| e.size), Some(4000001));
}
