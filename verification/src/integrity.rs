//! Validation rules of the clone manager's entries and links.
use vstd::prelude::*;
use hdi::prelude::{Delete, EntryCreationAction, EntryRateWeight, LinkTag, RateWeight, Update};
use crate::cells::CloneRequest;
use crate::hashes::{
    spec_into_agent_pub_key, spec_into_entry_hash, AgentPubKey, AnyLinkableHash, EntryHash,
};

verus! {

#[verifier::external_type_specification]
#[verifier::external_body]
pub struct ExLinkTag(LinkTag);

#[verifier::external_type_specification]
#[verifier::external_body]
pub struct ExEntryCreationAction(EntryCreationAction);

#[verifier::external_type_specification]
#[verifier::external_body]
pub struct ExRateWeight(RateWeight);

#[verifier::external_type_specification]
#[verifier::external_body]
pub struct ExEntryRateWeight(EntryRateWeight);

#[verifier::external_type_specification]
#[verifier::external_body]
#[verifier::reject_recursive_types(W)]
pub struct ExUpdate<W>(Update<W>);

#[verifier::external_type_specification]
#[verifier::external_body]
#[verifier::reject_recursive_types(W)]
pub struct ExDelete<W>(Delete<W>);

/// The verdict of a validation rule.
#[derive(Debug, PartialEq, Eq)]
pub enum ValidateCallbackResult {
    Valid,
    Invalid(String),
}

/// What a `ValidateCallbackResult` is, mathematically.
pub enum ValidateCallbackResultView {
    Valid,
    Invalid(Seq<char>),
}

impl View for ValidateCallbackResult {
    type V = ValidateCallbackResultView;

    open spec fn view(&self) -> ValidateCallbackResultView {
        match self {
            ValidateCallbackResult::Valid => ValidateCallbackResultView::Valid,
            ValidateCallbackResult::Invalid(reason) => ValidateCallbackResultView::Invalid(reason@),
        }
    }
}

/// An error that a zome function returns to its caller.
#[derive(Debug, PartialEq, Eq)]
pub struct GuestError {
    pub message: String,
}

/// The action that creates a link, as far as the rules read it.
#[derive(Debug, PartialEq, Eq)]
pub struct CreateLink {
    pub author: AgentPubKey,
}

/// The action that deletes a link, as far as the rules read it.
#[derive(Debug, PartialEq, Eq)]
pub struct DeleteLink {
    pub author: AgentPubKey,
}

/// A link from a clone request to a provider: its base must be an entry hash and
/// its target an agent key.
pub open spec fn spec_validate_create_link_clone_provider_for_request(
    base_address: AnyLinkableHash,
    target_address: AnyLinkableHash,
) -> ValidateCallbackResultView {
    if spec_into_entry_hash(base_address) is None {
        ValidateCallbackResultView::Invalid(
            "Base address for a CloneProviderForRequest link must be an EntryHash"@,
        )
    } else if spec_into_agent_pub_key(target_address) is None {
        ValidateCallbackResultView::Invalid(
            "Target address for a CloneProviderForRequest link must be an AgentPubKey"@,
        )
    } else {
        ValidateCallbackResultView::Valid
    }
}

pub fn validate_create_link_clone_provider_for_request(
    _action: CreateLink,
    base_address: AnyLinkableHash,
    target_address: AnyLinkableHash,
    _tag: LinkTag,
) -> (r: Result<ValidateCallbackResult, GuestError>)
    ensures
        r matches Ok(v) && v@ == spec_validate_create_link_clone_provider_for_request(
            base_address,
            target_address,
        ),
{
    if base_address.into_entry_hash().is_none() {
        return Ok(
            ValidateCallbackResult::Invalid(
                "Base address for a CloneProviderForRequest link must be an EntryHash".to_owned(),
            ),
        );
    }
    if target_address.into_agent_pub_key().is_none() {
        return Ok(
            ValidateCallbackResult::Invalid(
                "Target address for a CloneProviderForRequest link must be an AgentPubKey".to_owned(),
            ),
        );
    }
    Ok(ValidateCallbackResult::Valid)
}

/// Only the author of a provider link may delete it.
pub open spec fn spec_validate_delete_link_clone_provider_for_request(
    action: DeleteLink,
    original_action: CreateLink,
) -> ValidateCallbackResultView {
    if action.author.core@ != original_action.author.core@ {
        ValidateCallbackResultView::Invalid(
            "Only authors can delete their own clone provider for request links"@,
        )
    } else {
        ValidateCallbackResultView::Valid
    }
}

pub fn validate_delete_link_clone_provider_for_request(
    action: DeleteLink,
    original_action: CreateLink,
    _base: AnyLinkableHash,
    _target: AnyLinkableHash,
    _tag: LinkTag,
) -> (r: Result<ValidateCallbackResult, GuestError>)
    ensures
        r matches Ok(v) && v@ == spec_validate_delete_link_clone_provider_for_request(action, original_action),
{
    if !action.author.same(&original_action.author) {
        return Ok(
            ValidateCallbackResult::Invalid(
                "Only authors can delete their own clone provider for request links".to_owned(),
            ),
        );
    }
    Ok(ValidateCallbackResult::Valid)
}

/// A link of the clone providers: its base must be an entry hash and its target
/// an agent key. The message for a wrong target speaks of the base address.
pub open spec fn spec_validate_create_link_clone_providers(
    base_address: AnyLinkableHash,
    target_address: AnyLinkableHash,
) -> ValidateCallbackResultView {
    if spec_into_entry_hash(base_address) is None {
        ValidateCallbackResultView::Invalid("Base address for a CloneProviders link must be an entry hash"@)
    } else if spec_into_agent_pub_key(target_address) is None {
        ValidateCallbackResultView::Invalid("Base address for a CloneProviders link must be an AgentPubKey"@)
    } else {
        ValidateCallbackResultView::Valid
    }
}

pub fn validate_create_link_clone_providers(
    _action: CreateLink,
    base_address: AnyLinkableHash,
    target_address: AnyLinkableHash,
    _tag: LinkTag,
) -> (r: Result<ValidateCallbackResult, GuestError>)
    ensures
        r matches Ok(v) && v@ == spec_validate_create_link_clone_providers(base_address, target_address),
{
    if base_address.into_entry_hash().is_none() {
        return Ok(
            ValidateCallbackResult::Invalid(
                "Base address for a CloneProviders link must be an entry hash".to_owned(),
            ),
        );
    }
    if target_address.into_agent_pub_key().is_none() {
        return Ok(
            ValidateCallbackResult::Invalid(
                "Base address for a CloneProviders link must be an AgentPubKey".to_owned(),
            ),
        );
    }
    Ok(ValidateCallbackResult::Valid)
}

/// Any provider link may be deleted.
pub fn validate_delete_link_clone_providers(
    _action: DeleteLink,
    _original_action: CreateLink,
    _base: AnyLinkableHash,
    _target: AnyLinkableHash,
    _tag: LinkTag,
) -> (r: Result<ValidateCallbackResult, GuestError>)
    ensures
        r matches Ok(v) && v@ == ValidateCallbackResultView::Valid,
{
    Ok(ValidateCallbackResult::Valid)
}

/// Any clone request may be created.
pub fn validate_create_clone_request(_action: EntryCreationAction, _clone_request: CloneRequest) -> (r: Result<
    ValidateCallbackResult,
    GuestError,
>)
    ensures
        r matches Ok(v) && v@ == ValidateCallbackResultView::Valid,
{
    Ok(ValidateCallbackResult::Valid)
}

/// No clone request may be updated.
pub fn validate_update_clone_request(
    _action: Update,
    _clone_request: CloneRequest,
    _original_action: EntryCreationAction,
    _original_clone_request: CloneRequest,
) -> (r: Result<ValidateCallbackResult, GuestError>)
    ensures
        r matches Ok(v) && v@ == ValidateCallbackResultView::Invalid("Clone Requests cannot be updated"@),
{
    Ok(ValidateCallbackResult::Invalid("Clone Requests cannot be updated".to_owned()))
}

/// Any clone request may be deleted.
pub fn validate_delete_clone_request(
    _action: Delete,
    _original_action: EntryCreationAction,
    _original_clone_request: CloneRequest,
) -> (r: Result<ValidateCallbackResult, GuestError>)
    ensures
        r matches Ok(v) && v@ == ValidateCallbackResultView::Valid,
{
    Ok(ValidateCallbackResult::Valid)
}

/// The first step of validating a link of all clone requests: its target must
/// be an entry hash, which names the entry to fetch; any other target fails the
/// validation with an error.
pub fn validate_create_link_all_clone_requests(
    _action: CreateLink,
    _base_address: AnyLinkableHash,
    target_address: AnyLinkableHash,
    _tag: LinkTag,
) -> (r: Result<EntryHash, GuestError>)
    ensures
        match r {
            Ok(h) => spec_into_entry_hash(target_address) == Some(h.core@),
            Err(e) => spec_into_entry_hash(target_address) is None && e.message@
                == "No action hash associated with link"@,
        },
{
    match target_address.into_entry_hash() {
        Some(h) => Ok(h),
        None => Err(GuestError { message: "No action hash associated with link".to_owned() }),
    }
}

/// The second step of validating a link of all clone requests: the fetched
/// target entry must be a clone request.
pub fn validate_linked_clone_request(entry_is_clone_request: bool) -> (r: Result<
    ValidateCallbackResult,
    GuestError,
>)
    ensures
        r matches Ok(v) && v@ == (if entry_is_clone_request {
            ValidateCallbackResultView::Valid
        } else {
            ValidateCallbackResultView::Invalid("Linked action must reference an entry"@)
        }),
{
    if !entry_is_clone_request {
        return Ok(ValidateCallbackResult::Invalid("Linked action must reference an entry".to_owned()));
    }
    Ok(ValidateCallbackResult::Valid)
}

/// Any link of all clone requests may be deleted.
pub fn validate_delete_link_all_clone_requests(
    _action: DeleteLink,
    _original_action: CreateLink,
    _base: AnyLinkableHash,
    _target: AnyLinkableHash,
    _tag: LinkTag,
) -> (r: Result<ValidateCallbackResult, GuestError>)
    ensures
        r matches Ok(v) && v@ == ValidateCallbackResultView::Valid,
{
    Ok(ValidateCallbackResult::Valid)
}

} // verus!
