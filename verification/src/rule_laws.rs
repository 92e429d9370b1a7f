//! What the conversions of hashes, the modifiers of cells and the validation
//! rules decide, stated over their inputs.
use vstd::prelude::*;
use crate::cells::{spec_dna_modifiers, CellInfo};
use crate::hashes::{
    spec_into_action_hash, spec_into_agent_pub_key, spec_into_entry_hash, AnyLinkableHash, LinkableHashType,
};
use crate::integrity::{
    spec_validate_create_link_clone_provider_for_request, spec_validate_create_link_clone_providers,
    spec_validate_delete_link_clone_provider_for_request, CreateLink, DeleteLink, ValidateCallbackResultView,
};

verus! {

/// A linkable hash converts to exactly one of an entry hash, an action hash or
/// neither (an external hash), by its type; an agent key is read from exactly the
/// hashes an entry hash is; a conversion keeps the bytes.
pub proof fn law_linkable_hash_conversions(h: AnyLinkableHash)
    ensures
        spec_into_entry_hash(h) is Some <==> h.hash_type == LinkableHashType::Entry,
        spec_into_action_hash(h) is Some <==> h.hash_type == LinkableHashType::Action,
        !(spec_into_entry_hash(h) is Some && spec_into_action_hash(h) is Some),
        spec_into_agent_pub_key(h) == spec_into_entry_hash(h),
        spec_into_entry_hash(h) matches Some(b) ==> b == h.core@,
        spec_into_action_hash(h) matches Some(b) ==> b == h.core@,
{
}

/// Every kind of cell gives the modifiers it holds.
pub proof fn law_dna_modifiers(cell: CellInfo)
    ensures
        cell matches CellInfo::Provisioned(p) ==> spec_dna_modifiers(cell) == p.dna_modifiers@,
        cell matches CellInfo::Cloned(c) ==> spec_dna_modifiers(cell) == c.dna_modifiers@,
        cell matches CellInfo::Stem(s) ==> spec_dna_modifiers(cell) == s.dna_modifiers@,
{
}

/// A provider link is valid exactly when both its base and its target are of the
/// entry type (agent keys are linked as entries); a wrong base is reported first.
pub proof fn law_provider_link_rule(base: AnyLinkableHash, target: AnyLinkableHash)
    ensures
        spec_validate_create_link_clone_provider_for_request(base, target) == ValidateCallbackResultView::Valid
            <==> (base.hash_type == LinkableHashType::Entry && target.hash_type == LinkableHashType::Entry),
        base.hash_type != LinkableHashType::Entry ==> spec_validate_create_link_clone_provider_for_request(
            base,
            target,
        ) == ValidateCallbackResultView::Invalid(
            "Base address for a CloneProviderForRequest link must be an EntryHash"@,
        ),
        base.hash_type == LinkableHashType::Entry && target.hash_type != LinkableHashType::Entry
            ==> spec_validate_create_link_clone_provider_for_request(base, target)
            == ValidateCallbackResultView::Invalid(
            "Target address for a CloneProviderForRequest link must be an AgentPubKey"@,
        ),
        spec_validate_create_link_clone_providers(base, target) == ValidateCallbackResultView::Valid <==> (
        base.hash_type == LinkableHashType::Entry && target.hash_type == LinkableHashType::Entry),
        base.hash_type != LinkableHashType::Entry ==> spec_validate_create_link_clone_providers(base, target)
            == ValidateCallbackResultView::Invalid("Base address for a CloneProviders link must be an entry hash"@),
        base.hash_type == LinkableHashType::Entry && target.hash_type != LinkableHashType::Entry
            ==> spec_validate_create_link_clone_providers(base, target) == ValidateCallbackResultView::Invalid(
            "Base address for a CloneProviders link must be an AgentPubKey"@,
        ),
{
}

/// A provider link may be deleted exactly by its author.
pub proof fn law_provider_link_deletion(action: DeleteLink, original_action: CreateLink)
    ensures
        spec_validate_delete_link_clone_provider_for_request(action, original_action)
            == ValidateCallbackResultView::Valid <==> action.author.core@ == original_action.author.core@,
        action.author.core@ != original_action.author.core@ ==> spec_validate_delete_link_clone_provider_for_request(
            action,
            original_action,
        ) == ValidateCallbackResultView::Invalid(
            "Only authors can delete their own clone provider for request links"@,
        ),
{
}

} // verus!
