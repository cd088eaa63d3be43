use vstd::prelude::*;

verus! {

/// The errors that the contracts return to their callers.
#[derive(Debug, Clone, Copy, PartialEq, Eq, Structural)]
pub enum ContractError {
    Unauthorized,
    AlreadyExists,
    NotFound,
    InvalidRole,
    InvalidOrganization,
    InvalidProject,
    InvalidDeployment,
    StorageFailure,
    ValidationFailure,
}

impl ContractError {
    /// The numeric error code that the contracts expose on the ledger.
    pub open spec fn spec_code(&self) -> u32 {
        match self {
            ContractError::Unauthorized => 1,
            ContractError::AlreadyExists => 2,
            ContractError::NotFound => 3,
            ContractError::InvalidRole => 4,
            ContractError::InvalidOrganization => 5,
            ContractError::InvalidProject => 6,
            ContractError::InvalidDeployment => 7,
            ContractError::StorageFailure => 8,
            ContractError::ValidationFailure => 9,
        }
    }

    /// The numeric error code of this error.
    #[verifier::when_used_as_spec(spec_code)]
    pub fn code(&self) -> (c: u32)
        ensures
            c == self.spec_code(),
    {
        match self {
            ContractError::Unauthorized => 1,
            ContractError::AlreadyExists => 2,
            ContractError::NotFound => 3,
            ContractError::InvalidRole => 4,
            ContractError::InvalidOrganization => 5,
            ContractError::InvalidProject => 6,
            ContractError::InvalidDeployment => 7,
            ContractError::StorageFailure => 8,
            ContractError::ValidationFailure => 9,
        }
    }
}

/// Distinct errors have distinct codes, so a code names its error.
pub proof fn lemma_code_injective(a: ContractError, b: ContractError)
    requires
        a.spec_code() == b.spec_code(),
    ensures
        a == b,
{
}

} // verus!
