use vstd::prelude::*;

verus! {

/// Relies on near_sdk::env::predecessor_account_id: the account that made the
/// current call. Which account that is depends on the host's context; the host
/// hands out only valid account ids (near_sdk aborts on any other), and a valid
/// id has between 2 and 64 characters.
#[verifier::external_body]
pub(crate) fn caller_account() -> (r: String)
    ensures
        2 <= r@.len() <= 64,
{
    near_sdk::env::predecessor_account_id().to_string()
}

/// Relies on near_sdk::env::state_exists: whether the host already holds a
/// stored state for this store. It depends on the host's storage alone.
#[verifier::external_body]
pub(crate) fn stored_state_exists() -> (r: bool) {
    near_sdk::env::state_exists()
}

} // verus!
