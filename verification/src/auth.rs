use vstd::prelude::*;

use crate::env::Env;
use crate::errors::ContractError;
use crate::types::{Address, STATUS_ARCHIVED};

verus! {

/// Demands `owner`'s authorization for the current invocation, which must
/// carry it (the ledger aborts an invocation that does not).
pub fn authorize(env: &mut Env, owner: &Address) -> (r: Result<(), ContractError>)
    requires
        old(env).authorizes(*owner),
    ensures
        old(env).steps(*final(env), seq![*owner], Seq::empty()),
        r == Ok::<(), ContractError>(()),
{
    env.require_auth(owner);
    Ok(())
}

/// What `check_active` answers for `status`.
pub open spec fn active_check(status: u32) -> Result<(), ContractError> {
    if status == STATUS_ARCHIVED {
        Err(ContractError::InvalidOrganization)
    } else {
        Ok(())
    }
}

/// Refuses a record whose status is archived.
pub fn check_active(status: u32) -> (r: Result<(), ContractError>)
    ensures
        r == active_check(status),
        r is Ok <==> status != STATUS_ARCHIVED,
{
    if status == STATUS_ARCHIVED {
        return Err(ContractError::InvalidOrganization);
    }
    Ok(())
}

} // verus!
