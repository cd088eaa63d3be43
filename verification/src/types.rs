use vstd::prelude::*;

verus! {

/// Status of an organization or project that is in use.
pub const STATUS_ACTIVE: u32 = 0;

/// Status of an organization or project that has been archived for good.
pub const STATUS_ARCHIVED: u32 = 1;

/// A ledger address (an account or a contract), held by its strkey text.
#[derive(Debug, Clone, PartialEq, Eq)]
pub struct Address {
    pub strkey: String,
}

impl View for Address {
    type V = Seq<char>;

    open spec fn view(&self) -> Seq<char> {
        self.strkey@
    }
}

impl Address {
    /// The address whose strkey is `strkey`.
    pub fn new(strkey: String) -> (a: Address)
        ensures
            a.strkey == strkey,
    {
        Address { strkey }
    }

    /// Whether two values name the same address.
    pub fn same(&self, other: &Address) -> (r: bool)
        ensures
            r == (self@ == other@),
    {
        self.strkey == other.strkey
    }

    /// A copy of this address.
    pub(crate) fn duplicate(&self) -> (r: Address)
        ensures
            r == *self,
    {
        Address { strkey: self.strkey.clone() }
    }
}

/// The role of a user within an organization, from the most to the least
/// privileged.
#[derive(Debug, Clone, Copy, PartialEq, Eq, Structural)]
pub enum Role {
    Owner,
    Admin,
    Developer,
    Viewer,
}

impl Role {
    /// The rank of the role: 0 for the most privileged, 3 for the least.
    pub open spec fn spec_rank(&self) -> u32 {
        match self {
            Role::Owner => 0,
            Role::Admin => 1,
            Role::Developer => 2,
            Role::Viewer => 3,
        }
    }

    /// The rank of the role, as stored on the ledger.
    #[verifier::when_used_as_spec(spec_rank)]
    pub fn rank(&self) -> (r: u32)
        ensures
            r == self.spec_rank(),
    {
        match self {
            Role::Owner => 0,
            Role::Admin => 1,
            Role::Developer => 2,
            Role::Viewer => 3,
        }
    }
}

/// What the organization contract keeps of an organization.
#[derive(Debug, Clone, PartialEq, Eq)]
pub struct OrgInfo {
    pub owner: Address,
    pub metadata_hash: [u8; 32],
    pub created_at: u64,
    pub status: u32,
}

impl OrgInfo {
    /// A copy of this record.
    pub(crate) fn duplicate(&self) -> (r: OrgInfo)
        ensures
            r == *self,
    {
        OrgInfo {
            owner: self.owner.duplicate(),
            metadata_hash: self.metadata_hash,
            created_at: self.created_at,
            status: self.status,
        }
    }
}

/// What the project contract keeps of a project.
#[derive(Debug, Clone, Copy, PartialEq, Eq)]
pub struct ProjectInfo {
    pub org_id: u32,
    pub project_hash: [u8; 32],
    pub created_at: u64,
    pub status: u32,
}

/// What the deployment contract keeps of one recorded deployment.
#[derive(Debug, Clone, PartialEq, Eq)]
pub struct DeploymentInfo {
    pub contract_id: [u8; 32],
    pub artifact_hash: [u8; 32],
    pub version: u32,
    pub timestamp: u64,
    pub network: String,
}

impl DeploymentInfo {
    /// A copy of this record.
    pub(crate) fn duplicate(&self) -> (r: DeploymentInfo)
        ensures
            r == *self,
    {
        DeploymentInfo {
            contract_id: self.contract_id,
            artifact_hash: self.artifact_hash,
            version: self.version,
            timestamp: self.timestamp,
            network: self.network.clone(),
        }
    }
}

} // verus!
