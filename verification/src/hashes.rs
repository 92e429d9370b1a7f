//! Holochain hashes as plain values.
//!
//! A Holochain hash is 39 bytes: a 3-byte prefix that names its type,
//! then 32 bytes of digest and 4 bytes of DHT location. The types below keep
//! the 36 bytes after the prefix (`core`); the prefix is given by the Rust type,
//! or, for a linkable hash, by its `hash_type` field.
use vstd::prelude::*;

verus! {

/// Compares two byte strings.
pub fn bytes_eq(a: &Vec<u8>, b: &Vec<u8>) -> (r: bool)
    ensures
        r == (a@ == b@),
{
    if a.len() != b.len() {
        return false;
    }
    let mut i: usize = 0;
    while i < a.len()
        invariant
            a.len() == b.len(),
            i <= a.len(),
            forall|j: int| 0 <= j < i ==> a@[j] == b@[j],
        decreases a.len() - i,
    {
        if a[i] != b[i] {
            return false;
        }
        i = i + 1;
    }
    assert(a@ =~= b@);
    true
}

/// Copies a byte string.
pub fn copy_bytes(a: &Vec<u8>) -> (r: Vec<u8>)
    ensures
        r@ == a@,
{
    let mut r: Vec<u8> = Vec::new();
    let mut i: usize = 0;
    while i < a.len()
        invariant
            i <= a.len(),
            r@ == a@.subrange(0, i as int),
        decreases a.len() - i,
    {
        r.push(a[i]);
        i = i + 1;
        assert(r@ =~= a@.subrange(0, i as int));
    }
    assert(a@.subrange(0, a.len() as int) =~= a@);
    r
}

/// The hash of an entry.
#[derive(Debug, PartialEq, Eq)]
pub struct EntryHash {
    pub core: Vec<u8>,
}

/// The hash of an action.
#[derive(Debug, PartialEq, Eq)]
pub struct ActionHash {
    pub core: Vec<u8>,
}

/// The public key of an agent.
#[derive(Debug, PartialEq, Eq)]
pub struct AgentPubKey {
    pub core: Vec<u8>,
}

/// The three types a linkable hash can have (the prefixes `AnyLinkableHash` accepts).
#[derive(Debug, PartialEq, Eq, Structural, Clone, Copy)]
pub enum LinkableHashType {
    Entry,
    Action,
    External,
}

/// A hash that a link may have as its base or target.
#[derive(Debug, PartialEq, Eq)]
pub struct AnyLinkableHash {
    pub hash_type: LinkableHashType,
    pub core: Vec<u8>,
}

impl EntryHash {
    pub fn copy(&self) -> (r: EntryHash)
        ensures
            r.core@ == self.core@,
    {
        EntryHash { core: copy_bytes(&self.core) }
    }

    /// Hash equality (the prefixes are equal, so the cores decide).
    pub fn same(&self, other: &EntryHash) -> (r: bool)
        ensures
            r == (self.core@ == other.core@),
    {
        bytes_eq(&self.core, &other.core)
    }
}

impl ActionHash {
    pub fn copy(&self) -> (r: ActionHash)
        ensures
            r.core@ == self.core@,
    {
        ActionHash { core: copy_bytes(&self.core) }
    }
}

impl AgentPubKey {
    pub fn copy(&self) -> (r: AgentPubKey)
        ensures
            r.core@ == self.core@,
    {
        AgentPubKey { core: copy_bytes(&self.core) }
    }

    /// Key equality (the prefixes are equal, so the cores decide).
    pub fn same(&self, other: &AgentPubKey) -> (r: bool)
        ensures
            r == (self.core@ == other.core@),
    {
        bytes_eq(&self.core, &other.core)
    }
}

/// `AnyLinkableHash::into_entry_hash`: the same bytes as an entry hash, if the hash has the entry type.
pub open spec fn spec_into_entry_hash(h: AnyLinkableHash) -> Option<Seq<u8>> {
    if h.hash_type == LinkableHashType::Entry {
        Some(h.core@)
    } else {
        None
    }
}

/// `AnyLinkableHash::into_action_hash`: the same bytes as an action hash, if the hash has the action type.
pub open spec fn spec_into_action_hash(h: AnyLinkableHash) -> Option<Seq<u8>> {
    if h.hash_type == LinkableHashType::Action {
        Some(h.core@)
    } else {
        None
    }
}

/// `AnyLinkableHash::into_agent_pub_key`: an agent key is linked as an entry, so any
/// hash of the entry type is read back as an agent key with the same bytes.
pub open spec fn spec_into_agent_pub_key(h: AnyLinkableHash) -> Option<Seq<u8>> {
    if h.hash_type == LinkableHashType::Entry {
        Some(h.core@)
    } else {
        None
    }
}

impl AnyLinkableHash {
    pub fn into_entry_hash(&self) -> (r: Option<EntryHash>)
        ensures
            r is Some == spec_into_entry_hash(*self) is Some,
            r matches Some(e) ==> Some(e.core@) == spec_into_entry_hash(*self),
    {
        match self.hash_type {
            LinkableHashType::Entry => Some(EntryHash { core: copy_bytes(&self.core) }),
            _ => None,
        }
    }

    pub fn into_action_hash(&self) -> (r: Option<ActionHash>)
        ensures
            r is Some == spec_into_action_hash(*self) is Some,
            r matches Some(a) ==> Some(a.core@) == spec_into_action_hash(*self),
    {
        match self.hash_type {
            LinkableHashType::Action => Some(ActionHash { core: copy_bytes(&self.core) }),
            _ => None,
        }
    }

    pub fn into_agent_pub_key(&self) -> (r: Option<AgentPubKey>)
        ensures
            r is Some == spec_into_agent_pub_key(*self) is Some,
            r matches Some(a) ==> Some(a.core@) == spec_into_agent_pub_key(*self),
    {
        match self.hash_type {
            LinkableHashType::Entry => Some(AgentPubKey { core: copy_bytes(&self.core) }),
            _ => None,
        }
    }
}

} // verus!
