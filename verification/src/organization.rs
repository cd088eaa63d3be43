use vstd::prelude::*;

use crate::auth::{authorize, check_active};
use crate::env::{Env, Event};
use crate::errors::ContractError;
use crate::events;
use crate::table::Table;
use crate::types::{Address, OrgInfo, STATUS_ACTIVE, STATUS_ARCHIVED};

verus! {

/// The keys of the organization contract's storage.
#[derive(Debug, Clone, Copy, PartialEq, Eq, Structural)]
pub enum OrgDataKey {
    /// The owner that the contract was initialized with.
    Config,
    /// The organization with this id.
    Org(u32),
}

/// The organization contract: organizations that its configured owner
/// creates, and that each organization's owner transfers, edits and
/// archives.
pub struct OrganizationContract {
    owner: Option<Address>,
    orgs: Table<u32, OrgInfo>,
}

/// The organization contract's storage, as the contract's behaviour is
/// stated over it.
pub struct OrgState {
    /// The owner stored under `OrgDataKey::Config`.
    pub owner: Option<Address>,
    /// The organizations stored under `OrgDataKey::Org`.
    pub orgs: Map<u32, OrgInfo>,
}

impl View for OrganizationContract {
    type V = OrgState;

    closed spec fn view(&self) -> OrgState {
        OrgState { owner: self.owner, orgs: self.orgs@ }
    }
}

impl OrgState {
    /// Whether the storage holds an entry under `key`.
    pub open spec fn has(self, key: OrgDataKey) -> bool {
        match key {
            OrgDataKey::Config => self.owner is Some,
            OrgDataKey::Org(org_id) => self.orgs.contains_key(org_id),
        }
    }

    /// The storage after initialization with `owner`.
    pub open spec fn init(self, owner: Address) -> OrgState {
        OrgState { owner: Some(owner), ..self }
    }

    /// What `get` answers for `org_id`.
    pub open spec fn get(self, org_id: u32) -> Result<OrgInfo, ContractError> {
        if self.orgs.contains_key(org_id) {
            Ok(self.orgs[org_id])
        } else {
            Err(ContractError::NotFound)
        }
    }

    /// The storage with `org` stored for `org_id`.
    pub open spec fn put(self, org_id: u32, org: OrgInfo) -> OrgState {
        OrgState { orgs: self.orgs.insert(org_id, org), ..self }
    }

    /// The outcome of `create`: the new storage and the new organization.
    pub open spec fn create(self, env: Env, org_id: u32, metadata_hash: [u8; 32]) -> Result<
        (OrgState, OrgInfo),
        ContractError,
    > {
        match self.owner {
            None => Err(ContractError::StorageFailure),
            Some(owner) => if self.orgs.contains_key(org_id) {
                Err(ContractError::AlreadyExists)
            } else {
                let org = OrgInfo {
                    owner,
                    metadata_hash,
                    created_at: env.timestamp,
                    status: STATUS_ACTIVE,
                };
                Ok((self.put(org_id, org), org))
            },
        }
    }

    /// The organization `org_id` if it may be changed: it exists and is not
    /// archived.
    pub open spec fn editable(self, org_id: u32) -> Result<OrgInfo, ContractError> {
        match self.get(org_id) {
            Err(e) => Err(e),
            Ok(org) => if org.status == STATUS_ARCHIVED {
                Err(ContractError::InvalidOrganization)
            } else {
                Ok(org)
            },
        }
    }

    /// The outcome of `transfer`.
    pub open spec fn transfer(self, org_id: u32, new_owner: Address) -> Result<
        (OrgState, OrgInfo),
        ContractError,
    > {
        match self.editable(org_id) {
            Err(e) => Err(e),
            Ok(org) => {
                let org = OrgInfo { owner: new_owner, ..org };
                Ok((self.put(org_id, org), org))
            },
        }
    }

    /// The outcome of `update_metadata`.
    pub open spec fn update_metadata(self, org_id: u32, new_hash: [u8; 32]) -> Result<
        (OrgState, OrgInfo),
        ContractError,
    > {
        match self.editable(org_id) {
            Err(e) => Err(e),
            Ok(org) => {
                let org = OrgInfo { metadata_hash: new_hash, ..org };
                Ok((self.put(org_id, org), org))
            },
        }
    }

    /// The outcome of `archive`.
    pub open spec fn archive(self, org_id: u32) -> Result<(OrgState, OrgInfo), ContractError> {
        match self.editable(org_id) {
            Err(e) => Err(e),
            Ok(org) => {
                let org = OrgInfo { status: STATUS_ARCHIVED, ..org };
                Ok((self.put(org_id, org), org))
            },
        }
    }

    /// The addresses whose authorization `create` requires: the configured
    /// owner, once there is one.
    pub open spec fn create_requests(self) -> Seq<Address> {
        match self.owner {
            None => Seq::empty(),
            Some(owner) => seq![owner],
        }
    }

    /// The addresses whose authorization `transfer`, `update_metadata` and
    /// `archive` require: the organization's owner, when it exists.
    pub open spec fn edit_requests(self, org_id: u32) -> Seq<Address> {
        if self.orgs.contains_key(org_id) {
            seq![self.orgs[org_id].owner]
        } else {
            Seq::empty()
        }
    }

    /// Every stored organization is either active or archived.
    pub open spec fn statuses_valid(self) -> bool {
        forall|id: u32| #[trigger] self.orgs.contains_key(id) ==> (self.orgs[id].status
            == STATUS_ACTIVE || self.orgs[id].status == STATUS_ARCHIVED)
    }
}

/// The outcome of an entry point that changes one organization: the
/// authorizations of `requests` are required; on success the storage and
/// the returned record are those of `spec`, and `events` are published; on
/// failure the storage is unchanged, nothing is published, and the error is
/// that of `spec`.
pub open spec fn org_step(
    spec: Result<(OrgState, OrgInfo), ContractError>,
    r: Result<OrgInfo, ContractError>,
    before: OrgState,
    after: OrgState,
    env_before: Env,
    env_after: Env,
    requests: Seq<Address>,
    events: Seq<Event>,
) -> bool {
    match r {
        Ok(org) => spec == Ok::<(OrgState, OrgInfo), ContractError>((after, org))
            && env_before.steps(env_after, requests, events),
        Err(e) => spec == Err::<(OrgState, OrgInfo), ContractError>(e) && after == before
            && env_before.steps(env_after, requests, Seq::empty()),
    }
}

impl OrganizationContract {
    /// The contract's storage is well formed.
    pub closed spec fn wf(&self) -> bool {
        self.orgs.wf()
    }

    /// A contract with empty storage.
    pub fn new() -> (c: OrganizationContract)
        ensures
            c.wf(),
            c@.owner is None,
            c@.orgs == Map::<u32, OrgInfo>::empty(),
    {
        OrganizationContract { owner: None, orgs: Table::new() }
    }

    /// Whether the storage holds an entry under `key`.
    pub fn has(&self, key: &OrgDataKey) -> (r: bool)
        requires
            self.wf(),
        ensures
            r == self@.has(*key),
    {
        match key {
            OrgDataKey::Config => self.owner.is_some(),
            OrgDataKey::Org(org_id) => self.orgs.contains_key(org_id),
        }
    }

    /// Stores the owner who may create organizations. A contract is
    /// initialized once.
    pub fn init(&mut self, owner: Address)
        requires
            old(self).wf(),
            !old(self)@.has(OrgDataKey::Config),
        ensures
            final(self).wf(),
            final(self)@ == old(self)@.init(owner),
    {
        self.owner = Some(owner);
    }

    /// Creates organization `org_id`, owned by the configured owner, who must
    /// authorize the call.
    pub fn create(&mut self, env: &mut Env, org_id: u32, metadata_hash: [u8; 32]) -> (r: Result<
        OrgInfo,
        ContractError,
    >)
        requires
            old(self).wf(),
            old(env).authorizes_all(old(self)@.create_requests()),
        ensures
            final(self).wf(),
            org_step(
                old(self)@.create(*old(env), org_id, metadata_hash),
                r,
                old(self)@,
                final(self)@,
                *old(env),
                *final(env),
                old(self)@.create_requests(),
                seq![Event::OrgCreated { org_id, owner: old(self)@.owner.unwrap() }],
            ),
    {
        let owner = match &self.owner {
            Some(owner) => owner.duplicate(),
            None => return Err(ContractError::StorageFailure),
        };
        assert(self@.create_requests()[0] == owner);
        if let Err(e) = authorize(env, &owner) {
            return Err(e);
        }
        if self.has(&OrgDataKey::Org(org_id)) {
            return Err(ContractError::AlreadyExists);
        }
        let org = OrgInfo {
            owner: owner.duplicate(),
            metadata_hash,
            created_at: env.timestamp,
            status: STATUS_ACTIVE,
        };
        self.orgs.insert(org_id, org.duplicate());
        events::org_created(env, org_id, &owner);
        Ok(org)
    }

    /// The addresses whose authorization `create` demands: the configured
    /// owner, once there is one.
    pub fn create_auths(&self) -> (r: Vec<Address>)
        ensures
            r@ == self@.create_requests(),
    {
        let mut r = Vec::new();
        if let Some(owner) = &self.owner {
            r.push(owner.duplicate());
        }
        assert(r@ =~= self@.create_requests());
        r
    }

    /// The addresses whose authorization `transfer`, `update_metadata` and
    /// `archive` demand for `org_id`: the organization's owner, when it
    /// exists.
    pub fn edit_auths(&self, org_id: u32) -> (r: Vec<Address>)
        requires
            self.wf(),
        ensures
            r@ == self@.edit_requests(org_id),
    {
        let mut r = Vec::new();
        if let Ok(org) = self.get(org_id) {
            r.push(org.owner);
        }
        assert(r@ =~= self@.edit_requests(org_id));
        r
    }

    /// The organization `org_id` if it may be changed; demands its owner's
    /// authorization.
    fn editable(&self, env: &mut Env, org_id: u32) -> (r: Result<OrgInfo, ContractError>)
        requires
            self.wf(),
            old(env).authorizes_all(self@.edit_requests(org_id)),
        ensures
            r == self@.editable(org_id),
            old(env).steps(*final(env), self@.edit_requests(org_id), Seq::empty()),
    {
        let org = match self.get(org_id) {
            Ok(org) => org,
            Err(e) => return Err(e),
        };
        assert(self@.edit_requests(org_id)[0] == org.owner);
        if let Err(e) = authorize(env, &org.owner) {
            return Err(e);
        }
        if let Err(e) = check_active(org.status) {
            return Err(e);
        }
        Ok(org)
    }

    /// Hands organization `org_id` to `new_owner`; its current owner must
    /// authorize the call, and it must not be archived.
    pub fn transfer(&mut self, env: &mut Env, org_id: u32, new_owner: Address) -> (r: Result<
        OrgInfo,
        ContractError,
    >)
        requires
            old(self).wf(),
            old(env).authorizes_all(old(self)@.edit_requests(org_id)),
        ensures
            final(self).wf(),
            org_step(
                old(self)@.transfer(org_id, new_owner),
                r,
                old(self)@,
                final(self)@,
                *old(env),
                *final(env),
                old(self)@.edit_requests(org_id),
                seq![
                    Event::OrgTransferred {
                        org_id,
                        old_owner: old(self)@.orgs[org_id].owner,
                        new_owner,
                    },
                ],
            ),
    {
        let mut org = match self.editable(env, org_id) {
            Ok(org) => org,
            Err(e) => return Err(e),
        };
        let old_owner = org.owner.duplicate();
        org.owner = new_owner.duplicate();
        self.orgs.insert(org_id, org.duplicate());
        events::org_transferred(env, org_id, &old_owner, &new_owner);
        Ok(org)
    }

    /// Replaces the metadata hash of organization `org_id`; its owner must
    /// authorize the call, and it must not be archived.
    pub fn update_metadata(&mut self, env: &mut Env, org_id: u32, new_hash: [u8; 32]) -> (r:
        Result<OrgInfo, ContractError>)
        requires
            old(self).wf(),
            old(env).authorizes_all(old(self)@.edit_requests(org_id)),
        ensures
            final(self).wf(),
            org_step(
                old(self)@.update_metadata(org_id, new_hash),
                r,
                old(self)@,
                final(self)@,
                *old(env),
                *final(env),
                old(self)@.edit_requests(org_id),
                Seq::empty(),
            ),
    {
        let mut org = match self.editable(env, org_id) {
            Ok(org) => org,
            Err(e) => return Err(e),
        };
        org.metadata_hash = new_hash;
        self.orgs.insert(org_id, org.duplicate());
        Ok(org)
    }

    /// Archives organization `org_id` for good; its owner must authorize the
    /// call, and it must not be archived already.
    pub fn archive(&mut self, env: &mut Env, org_id: u32) -> (r: Result<OrgInfo, ContractError>)
        requires
            old(self).wf(),
            old(env).authorizes_all(old(self)@.edit_requests(org_id)),
        ensures
            final(self).wf(),
            org_step(
                old(self)@.archive(org_id),
                r,
                old(self)@,
                final(self)@,
                *old(env),
                *final(env),
                old(self)@.edit_requests(org_id),
                seq![Event::OrgArchived { org_id }],
            ),
    {
        let mut org = match self.editable(env, org_id) {
            Ok(org) => org,
            Err(e) => return Err(e),
        };
        org.status = STATUS_ARCHIVED;
        self.orgs.insert(org_id, org.duplicate());
        events::org_archived(env, org_id);
        Ok(org)
    }

    /// Puts into the storage a record that the ledger already holds for
    /// `org_id`, so that an invocation starts from the ledger's state.
    pub fn restore_org(&mut self, org_id: u32, info: OrgInfo)
        requires
            old(self).wf(),
        ensures
            final(self).wf(),
            final(self)@ == old(self)@.put(org_id, info),
    {
        self.orgs.insert(org_id, info);
    }

    /// The organization `org_id`.
    pub fn get(&self, org_id: u32) -> (r: Result<OrgInfo, ContractError>)
        requires
            self.wf(),
        ensures
            r == self@.get(org_id),
    {
        match self.orgs.get(&org_id) {
            Some(org) => Ok(org.duplicate()),
            None => Err(ContractError::NotFound),
        }
    }
}

/// What `create` stores is what `get` then returns: an active organization
/// owned by the configured owner, stamped with the ledger time and carrying
/// the given metadata hash.
pub proof fn lemma_create_then_get(
    s: OrgState,
    env: Env,
    org_id: u32,
    metadata_hash: [u8; 32],
    after: OrgState,
    org: OrgInfo,
)
    requires
        s.create(env, org_id, metadata_hash) == Ok::<(OrgState, OrgInfo), ContractError>((after, org)),
    ensures
        after.get(org_id) == Ok::<OrgInfo, ContractError>(org),
        s.owner == Some(org.owner),
        org.metadata_hash == metadata_hash,
        org.created_at == env.timestamp,
        org.status == STATUS_ACTIVE,
        !s.has(OrgDataKey::Org(org_id)),
{
}

/// An organization id is created at most once: creating an id that exists
/// is answered `AlreadyExists`.
pub proof fn lemma_create_existing_refused(s: OrgState, env: Env, org_id: u32, metadata_hash: [u8; 32])
    requires
        s.has(OrgDataKey::Config),
        s.has(OrgDataKey::Org(org_id)),
    ensures
        s.create(env, org_id, metadata_hash) == Err::<(OrgState, OrgInfo), ContractError>(
            ContractError::AlreadyExists,
        ),
{
}

/// Before `init`, no organization can be created: the missing owner is
/// answered `StorageFailure`.
pub proof fn lemma_uninitialized_refuses(s: OrgState, env: Env, org_id: u32, metadata_hash: [u8; 32])
    requires
        !s.has(OrgDataKey::Config),
    ensures
        s.create(env, org_id, metadata_hash) == Err::<(OrgState, OrgInfo), ContractError>(
            ContractError::StorageFailure,
        ),
{
}

/// Only the owner acts on an organization: creating demands the
/// configured owner's authorization, and transferring, editing and
/// archiving demand the organization owner's, exactly once; an unknown
/// organization is answered `NotFound` and demands none.
pub proof fn lemma_owner_authorization_required(
    s: OrgState,
    org_id: u32,
    new_owner: Address,
    hash: [u8; 32],
)
    ensures
        s.owner matches Some(o) ==> s.create_requests() == seq![o],
        s.owner is None ==> s.create_requests() == Seq::<Address>::empty(),
        s.has(OrgDataKey::Org(org_id)) ==> s.edit_requests(org_id) == seq![s.orgs[org_id].owner],
        !s.has(OrgDataKey::Org(org_id)) ==> {
            &&& s.edit_requests(org_id) == Seq::<Address>::empty()
            &&& s.transfer(org_id, new_owner) == Err::<(OrgState, OrgInfo), ContractError>(
                ContractError::NotFound,
            )
            &&& s.update_metadata(org_id, hash) == Err::<(OrgState, OrgInfo), ContractError>(
                ContractError::NotFound,
            )
            &&& s.archive(org_id) == Err::<(OrgState, OrgInfo), ContractError>(
                ContractError::NotFound,
            )
        },
{
}

/// Archiving is for good: an archived organization can no longer be
/// transferred, edited or archived again; each is answered
/// `InvalidOrganization`.
pub proof fn lemma_archived_is_final(
    s: OrgState,
    org_id: u32,
    new_owner: Address,
    hash: [u8; 32],
)
    requires
        s.has(OrgDataKey::Org(org_id)),
        s.orgs[org_id].status == STATUS_ARCHIVED,
    ensures
        s.transfer(org_id, new_owner) == Err::<(OrgState, OrgInfo), ContractError>(
            ContractError::InvalidOrganization,
        ),
        s.update_metadata(org_id, hash) == Err::<(OrgState, OrgInfo), ContractError>(
            ContractError::InvalidOrganization,
        ),
        s.archive(org_id) == Err::<(OrgState, OrgInfo), ContractError>(
            ContractError::InvalidOrganization,
        ),
{
}

/// A transfer hands the organization over: `get` shows the new owner and
/// nothing else changed in the record, and from then on transferring,
/// editing and archiving it demand the new owner's authorization alone.
pub proof fn lemma_transfer_hands_over(
    s: OrgState,
    org_id: u32,
    new_owner: Address,
    after: OrgState,
    org: OrgInfo,
)
    requires
        s.transfer(org_id, new_owner) == Ok::<(OrgState, OrgInfo), ContractError>((after, org)),
    ensures
        after.get(org_id) == Ok::<OrgInfo, ContractError>(org),
        org == (OrgInfo { owner: new_owner, ..s.orgs[org_id] }),
        s.edit_requests(org_id) == seq![s.orgs[org_id].owner],
        after.edit_requests(org_id) == seq![new_owner],
{
}

/// `update_metadata` and `archive` change only the field they are about,
/// and `get` then returns the changed record.
pub proof fn lemma_edits_then_get(s: OrgState, org_id: u32, hash: [u8; 32])
    ensures
        s.update_metadata(org_id, hash) matches Ok((after, org)) ==> {
            &&& after.get(org_id) == Ok::<OrgInfo, ContractError>(org)
            &&& org == (OrgInfo { metadata_hash: hash, ..s.orgs[org_id] })
        },
        s.archive(org_id) matches Ok((after, org)) ==> {
            &&& after.get(org_id) == Ok::<OrgInfo, ContractError>(org)
            &&& org == (OrgInfo { status: STATUS_ARCHIVED, ..s.orgs[org_id] })
            &&& s.orgs[org_id].status != STATUS_ARCHIVED
        },
{
}

/// Every entry point changes at most the organization it names: the owner
/// and all other organizations stay as they were.
pub proof fn lemma_other_orgs_untouched(
    s: OrgState,
    env: Env,
    org_id: u32,
    other: u32,
    new_owner: Address,
    hash: [u8; 32],
)
    requires
        other != org_id,
    ensures
        s.create(env, org_id, hash) matches Ok((after, _)) ==> after.owner == s.owner
            && after.get(other) == s.get(other),
        s.transfer(org_id, new_owner) matches Ok((after, _)) ==> after.owner == s.owner
            && after.get(other) == s.get(other),
        s.update_metadata(org_id, hash) matches Ok((after, _)) ==> after.owner == s.owner
            && after.get(other) == s.get(other),
        s.archive(org_id) matches Ok((after, _)) ==> after.owner == s.owner && after.get(other)
            == s.get(other),
{
}

/// Every entry point keeps each stored organization active or archived.
pub proof fn lemma_statuses_stay_valid(
    s: OrgState,
    env: Env,
    org_id: u32,
    new_owner: Address,
    hash: [u8; 32],
    owner: Address,
)
    requires
        s.statuses_valid(),
    ensures
        s.init(owner).statuses_valid(),
        s.create(env, org_id, hash) matches Ok((after, _)) ==> after.statuses_valid(),
        s.transfer(org_id, new_owner) matches Ok((after, _)) ==> after.statuses_valid(),
        s.update_metadata(org_id, hash) matches Ok((after, _)) ==> after.statuses_valid(),
        s.archive(org_id) matches Ok((after, _)) ==> after.statuses_valid(),
{
}

/// `get` reads the stored organizations: it returns the record stored for
/// the id, and `NotFound` exactly when none is stored.
pub proof fn lemma_get_reads_storage(s: OrgState, org_id: u32)
    ensures
        s.orgs.contains_key(org_id) ==> s.get(org_id) == Ok::<OrgInfo, ContractError>(s.orgs[org_id]),
        !s.orgs.contains_key(org_id) ==> s.get(org_id) == Err::<OrgInfo, ContractError>(
            ContractError::NotFound,
        ),
{
}

/// Creating is owed on an initialized contract for an id not yet used: it
/// stores the one new record, owned by the configured owner, and keeps the
/// owner and every other organization.
pub proof fn lemma_create_succeeds(s: OrgState, env: Env, org_id: u32, hash: [u8; 32])
    requires
        s.owner is Some,
        !s.orgs.contains_key(org_id),
    ensures
        s.create(env, org_id, hash) matches Ok((after, org)) && {
            &&& org == (OrgInfo {
                owner: s.owner.unwrap(),
                metadata_hash: hash,
                created_at: env.timestamp,
                status: STATUS_ACTIVE,
            })
            &&& after.orgs == s.orgs.insert(org_id, org)
            &&& after.owner == s.owner
        },
{
}

/// Transferring, editing and archiving are owed on every stored
/// organization that is not archived, whoever owns it: each changes only
/// its own field of that one record, and keeps the configured owner and
/// every other organization.
pub proof fn lemma_edits_succeed(s: OrgState, org_id: u32, new_owner: Address, hash: [u8; 32])
    requires
        s.orgs.contains_key(org_id),
        s.orgs[org_id].status != STATUS_ARCHIVED,
    ensures
        s.transfer(org_id, new_owner) matches Ok((after, org)) && {
            &&& org == (OrgInfo { owner: new_owner, ..s.orgs[org_id] })
            &&& after.orgs == s.orgs.insert(org_id, org)
            &&& after.owner == s.owner
        },
        s.update_metadata(org_id, hash) matches Ok((after, org)) && {
            &&& org == (OrgInfo { metadata_hash: hash, ..s.orgs[org_id] })
            &&& after.orgs == s.orgs.insert(org_id, org)
            &&& after.owner == s.owner
        },
        s.archive(org_id) matches Ok((after, org)) && {
            &&& org == (OrgInfo { status: STATUS_ARCHIVED, ..s.orgs[org_id] })
            &&& after.orgs == s.orgs.insert(org_id, org)
            &&& after.owner == s.owner
        },
{
}

/// The current owner can always hand an organization on: after a transfer
/// to `next`, a second transfer by `next` to `third` succeeds and leaves
/// `third` as the owner, the rest of the record unchanged.
pub proof fn lemma_transfer_chains(
    s: OrgState,
    org_id: u32,
    next: Address,
    third: Address,
    after: OrgState,
    org: OrgInfo,
)
    requires
        s.transfer(org_id, next) == Ok::<(OrgState, OrgInfo), ContractError>((after, org)),
    ensures
        after.edit_requests(org_id) == seq![next],
        after.transfer(org_id, third) matches Ok((last, org3)) && {
            &&& org3 == (OrgInfo { owner: third, ..s.orgs[org_id] })
            &&& last.get(org_id) == Ok::<OrgInfo, ContractError>(org3)
        },
{
}

/// `has` tells whether the storage holds an entry under the key, and `init`
/// stores the owner and nothing else.
pub proof fn lemma_has_and_init(s: OrgState, org_id: u32, owner: Address)
    ensures
        s.has(OrgDataKey::Config) <==> s.owner is Some,
        s.has(OrgDataKey::Org(org_id)) <==> s.orgs.contains_key(org_id),
        s.init(owner).owner == Some(owner),
        s.init(owner).orgs == s.orgs,
{
}

} // verus!
