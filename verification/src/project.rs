use vstd::prelude::*;

use crate::auth::{authorize, check_active};
use crate::env::{Env, Event};
use crate::errors::ContractError;
use crate::events;
use crate::table::Table;
use crate::types::{Address, ProjectInfo, STATUS_ACTIVE, STATUS_ARCHIVED};

verus! {

/// The keys of the project contract's storage.
#[derive(Debug, Clone, Copy, PartialEq, Eq, Structural)]
pub enum ProjDataKey {
    /// The contract's configuration.
    Config,
    /// The project with this id.
    Project(u32),
}

/// The project contract's configuration.
#[derive(Debug, Clone, PartialEq, Eq)]
pub struct ProjConfig {
    /// The address that registers and archives projects.
    pub admin: Address,
}

impl ProjConfig {
    /// A copy of this configuration.
    fn duplicate(&self) -> (r: ProjConfig)
        ensures
            r == *self,
    {
        ProjConfig { admin: self.admin.duplicate() }
    }
}

/// The project contract: projects that the configured admin registers
/// under organizations and archives.
pub struct ProjectContract {
    config: Option<ProjConfig>,
    projects: Table<u32, ProjectInfo>,
}

/// The project contract's storage, as the contract's behaviour is stated
/// over it.
pub struct ProjState {
    /// The configuration stored under `ProjDataKey::Config`.
    pub config: Option<ProjConfig>,
    /// The projects stored under `ProjDataKey::Project`.
    pub projects: Map<u32, ProjectInfo>,
}

impl View for ProjectContract {
    type V = ProjState;

    closed spec fn view(&self) -> ProjState {
        ProjState { config: self.config, projects: self.projects@ }
    }
}

impl ProjState {
    /// Whether the storage holds an entry under `key`.
    pub open spec fn has(self, key: ProjDataKey) -> bool {
        match key {
            ProjDataKey::Config => self.config is Some,
            ProjDataKey::Project(project_id) => self.projects.contains_key(project_id),
        }
    }

    /// The storage after initialization with `admin`.
    pub open spec fn init(self, admin: Address) -> ProjState {
        ProjState { config: Some(ProjConfig { admin }), ..self }
    }

    /// What `get` answers for `project_id`.
    pub open spec fn get(self, project_id: u32) -> Result<ProjectInfo, ContractError> {
        if self.projects.contains_key(project_id) {
            Ok(self.projects[project_id])
        } else {
            Err(ContractError::NotFound)
        }
    }

    /// The storage with `project` stored for `project_id`.
    pub open spec fn put(self, project_id: u32, project: ProjectInfo) -> ProjState {
        ProjState { projects: self.projects.insert(project_id, project), ..self }
    }

    /// The outcome of `register`: the new storage and the new project.
    pub open spec fn register(
        self,
        env: Env,
        project_id: u32,
        org_id: u32,
        project_hash: [u8; 32],
    ) -> Result<(ProjState, ProjectInfo), ContractError> {
        match self.config {
            None => Err(ContractError::StorageFailure),
            Some(cfg) => if self.projects.contains_key(project_id) {
                Err(ContractError::AlreadyExists)
            } else {
                let project = ProjectInfo {
                    org_id,
                    project_hash,
                    created_at: env.timestamp,
                    status: STATUS_ACTIVE,
                };
                Ok((self.put(project_id, project), project))
            },
        }
    }

    /// The outcome of `archive`: the new storage and the archived project.
    pub open spec fn archive(self, project_id: u32) -> Result<
        (ProjState, ProjectInfo),
        ContractError,
    > {
        match self.config {
            None => Err(ContractError::StorageFailure),
            Some(cfg) => match self.get(project_id) {
                Err(e) => Err(e),
                Ok(project) => if project.status == STATUS_ARCHIVED {
                    Err(ContractError::InvalidOrganization)
                } else {
                    let project = ProjectInfo { status: STATUS_ARCHIVED, ..project };
                    Ok((self.put(project_id, project), project))
                },
            },
        }
    }

    /// The addresses whose authorization `register` requires: the admin,
    /// once the contract is initialized.
    pub open spec fn register_requests(self) -> Seq<Address> {
        match self.config {
            None => Seq::empty(),
            Some(cfg) => seq![cfg.admin],
        }
    }

    /// The addresses whose authorization `archive` requires: the admin, once
    /// the contract is initialized and the project exists.
    pub open spec fn archive_requests(self, project_id: u32) -> Seq<Address> {
        match self.config {
            Some(cfg) if self.projects.contains_key(project_id) => seq![cfg.admin],
            _ => Seq::empty(),
        }
    }

    /// Every stored project is either active or archived.
    pub open spec fn statuses_valid(self) -> bool {
        forall|id: u32| #[trigger] self.projects.contains_key(id) ==> (self.projects[id].status
            == STATUS_ACTIVE || self.projects[id].status == STATUS_ARCHIVED)
    }
}

/// The outcome of an entry point that changes one project: the
/// authorizations of `requests` are required; on success the storage and
/// the returned record are those of `spec`, and `events` are published; on
/// failure the storage is unchanged, nothing is published, and the error is
/// that of `spec`.
pub open spec fn project_step(
    spec: Result<(ProjState, ProjectInfo), ContractError>,
    r: Result<ProjectInfo, ContractError>,
    before: ProjState,
    after: ProjState,
    env_before: Env,
    env_after: Env,
    requests: Seq<Address>,
    events: Seq<Event>,
) -> bool {
    match r {
        Ok(project) => spec == Ok::<(ProjState, ProjectInfo), ContractError>((after, project))
            && env_before.steps(env_after, requests, events),
        Err(e) => spec == Err::<(ProjState, ProjectInfo), ContractError>(e) && after == before
            && env_before.steps(env_after, requests, Seq::empty()),
    }
}

impl ProjectContract {
    /// The contract's storage is well formed.
    pub closed spec fn wf(&self) -> bool {
        self.projects.wf()
    }

    /// A contract with empty storage.
    pub fn new() -> (c: ProjectContract)
        ensures
            c.wf(),
            c@.config is None,
            c@.projects == Map::<u32, ProjectInfo>::empty(),
    {
        ProjectContract { config: None, projects: Table::new() }
    }

    /// Whether the storage holds an entry under `key`.
    pub fn has(&self, key: &ProjDataKey) -> (r: bool)
        requires
            self.wf(),
        ensures
            r == self@.has(*key),
    {
        match key {
            ProjDataKey::Config => self.config.is_some(),
            ProjDataKey::Project(project_id) => self.projects.contains_key(project_id),
        }
    }

    /// Stores the admin who registers and archives projects. A contract is
    /// initialized once.
    pub fn init(&mut self, admin: Address)
        requires
            old(self).wf(),
            !old(self)@.has(ProjDataKey::Config),
        ensures
            final(self).wf(),
            final(self)@ == old(self)@.init(admin),
    {
        self.config = Some(ProjConfig { admin });
    }

    /// The addresses whose authorization `register` demands: the admin, once
    /// the contract is initialized.
    pub fn register_auths(&self) -> (r: Vec<Address>)
        ensures
            r@ == self@.register_requests(),
    {
        let mut r = Vec::new();
        if let Some(cfg) = &self.config {
            r.push(cfg.admin.duplicate());
        }
        assert(r@ =~= self@.register_requests());
        r
    }

    /// The addresses whose authorization `archive` demands for
    /// `project_id`: the admin, once the contract is initialized and the
    /// project exists.
    pub fn archive_auths(&self, project_id: u32) -> (r: Vec<Address>)
        requires
            self.wf(),
        ensures
            r@ == self@.archive_requests(project_id),
    {
        let mut r = Vec::new();
        if let Some(cfg) = &self.config {
            if self.projects.contains_key(&project_id) {
                r.push(cfg.admin.duplicate());
            }
        }
        assert(r@ =~= self@.archive_requests(project_id));
        r
    }

    /// Registers project `project_id` under organization `org_id`; the admin
    /// must authorize the call.
    pub fn register(
        &mut self,
        env: &mut Env,
        project_id: u32,
        org_id: u32,
        project_hash: [u8; 32],
    ) -> (r: Result<ProjectInfo, ContractError>)
        requires
            old(self).wf(),
            old(env).authorizes_all(old(self)@.register_requests()),
        ensures
            final(self).wf(),
            project_step(
                old(self)@.register(*old(env), project_id, org_id, project_hash),
                r,
                old(self)@,
                final(self)@,
                *old(env),
                *final(env),
                old(self)@.register_requests(),
                seq![Event::ProjectCreated { project_id, org_id }],
            ),
    {
        let cfg = match &self.config {
            Some(cfg) => cfg.duplicate(),
            None => return Err(ContractError::StorageFailure),
        };
        assert(self@.register_requests()[0] == cfg.admin);
        if let Err(e) = authorize(env, &cfg.admin) {
            return Err(e);
        }
        if self.has(&ProjDataKey::Project(project_id)) {
            return Err(ContractError::AlreadyExists);
        }
        let project = ProjectInfo {
            org_id,
            project_hash,
            created_at: env.timestamp,
            status: STATUS_ACTIVE,
        };
        self.projects.insert(project_id, project);
        events::project_created(env, project_id, org_id);
        Ok(project)
    }

    /// Archives project `project_id` for good; the admin must authorize the
    /// call, and the project must not be archived already.
    pub fn archive(&mut self, env: &mut Env, project_id: u32) -> (r: Result<
        ProjectInfo,
        ContractError,
    >)
        requires
            old(self).wf(),
            old(env).authorizes_all(old(self)@.archive_requests(project_id)),
        ensures
            final(self).wf(),
            project_step(
                old(self)@.archive(project_id),
                r,
                old(self)@,
                final(self)@,
                *old(env),
                *final(env),
                old(self)@.archive_requests(project_id),
                seq![Event::ProjectArchived { project_id }],
            ),
    {
        let cfg = match &self.config {
            Some(cfg) => cfg.duplicate(),
            None => return Err(ContractError::StorageFailure),
        };
        let mut project = match self.get(project_id) {
            Ok(project) => project,
            Err(e) => return Err(e),
        };
        assert(self@.archive_requests(project_id)[0] == cfg.admin);
        if let Err(e) = authorize(env, &cfg.admin) {
            return Err(e);
        }
        if let Err(e) = check_active(project.status) {
            return Err(e);
        }
        project.status = STATUS_ARCHIVED;
        self.projects.insert(project_id, project);
        events::project_archived(env, project_id);
        Ok(project)
    }

    /// Puts into the storage a record that the ledger already holds for
    /// `project_id`, so that an invocation starts from the ledger's state.
    pub fn restore_project(&mut self, project_id: u32, info: ProjectInfo)
        requires
            old(self).wf(),
        ensures
            final(self).wf(),
            final(self)@ == old(self)@.put(project_id, info),
    {
        self.projects.insert(project_id, info);
    }

    /// The project `project_id`.
    pub fn get(&self, project_id: u32) -> (r: Result<ProjectInfo, ContractError>)
        requires
            self.wf(),
        ensures
            r == self@.get(project_id),
    {
        match self.projects.get(&project_id) {
            Some(project) => Ok(*project),
            None => Err(ContractError::NotFound),
        }
    }
}

/// What `register` stores is what `get` then returns: an active project of
/// the given organization, stamped with the ledger time.
pub proof fn lemma_register_then_get(
    s: ProjState,
    env: Env,
    project_id: u32,
    org_id: u32,
    project_hash: [u8; 32],
    after: ProjState,
    project: ProjectInfo,
)
    requires
        s.register(env, project_id, org_id, project_hash) == Ok::<(ProjState, ProjectInfo), ContractError>(
            (after, project),
        ),
    ensures
        after.get(project_id) == Ok::<ProjectInfo, ContractError>(project),
        project == (ProjectInfo {
            org_id,
            project_hash,
            created_at: env.timestamp,
            status: STATUS_ACTIVE,
        }),
        !s.has(ProjDataKey::Project(project_id)),
{
}

/// A project id is registered at most once: registering an id that exists
/// is answered `AlreadyExists`.
pub proof fn lemma_register_existing_refused(
    s: ProjState,
    env: Env,
    project_id: u32,
    org_id: u32,
    project_hash: [u8; 32],
)
    requires
        s.has(ProjDataKey::Config),
        s.has(ProjDataKey::Project(project_id)),
    ensures
        s.register(env, project_id, org_id, project_hash) == Err::<(ProjState, ProjectInfo), ContractError>(
            ContractError::AlreadyExists,
        ),
{
}

/// Before `init`, nothing can be registered or archived: the missing
/// configuration is answered `StorageFailure`.
pub proof fn lemma_uninitialized_refuses(
    s: ProjState,
    env: Env,
    project_id: u32,
    org_id: u32,
    project_hash: [u8; 32],
)
    requires
        !s.has(ProjDataKey::Config),
    ensures
        s.register(env, project_id, org_id, project_hash) == Err::<(ProjState, ProjectInfo), ContractError>(
            ContractError::StorageFailure,
        ),
        s.archive(project_id) == Err::<(ProjState, ProjectInfo), ContractError>(
            ContractError::StorageFailure,
        ),
{
}

/// Only the admin registers and archives: registering demands the admin's
/// authorization once the contract is initialized, and archiving demands it
/// once the project exists too.
pub proof fn lemma_admin_authorization_required(s: ProjState, project_id: u32)
    ensures
        s.config matches Some(cfg) ==> s.register_requests() == seq![cfg.admin],
        s.config matches Some(cfg) ==> s.has(ProjDataKey::Project(project_id))
            ==> s.archive_requests(project_id) == seq![cfg.admin],
        !s.has(ProjDataKey::Project(project_id)) ==> s.archive_requests(project_id) == Seq::<
            Address,
        >::empty(),
{
}

/// Archiving is for good: once the contract is initialized, archiving an
/// archived project again is answered `InvalidOrganization`.
pub proof fn lemma_archived_is_final(s: ProjState, project_id: u32)
    requires
        s.has(ProjDataKey::Config),
        s.has(ProjDataKey::Project(project_id)),
        s.projects[project_id].status == STATUS_ARCHIVED,
    ensures
        s.archive(project_id) == Err::<(ProjState, ProjectInfo), ContractError>(
            ContractError::InvalidOrganization,
        ),
{
}

/// `archive` changes only the status of the project it names, and `get`
/// then returns the archived record.
pub proof fn lemma_archive_then_get(s: ProjState, project_id: u32, other: u32)
    requires
        other != project_id,
    ensures
        s.archive(project_id) matches Ok((after, project)) ==> {
            &&& after.get(project_id) == Ok::<ProjectInfo, ContractError>(project)
            &&& project == (ProjectInfo { status: STATUS_ARCHIVED, ..s.projects[project_id] })
            &&& after.get(other) == s.get(other)
            &&& after.config == s.config
        },
{
}

/// Every entry point keeps each stored project active or archived.
pub proof fn lemma_statuses_stay_valid(
    s: ProjState,
    env: Env,
    project_id: u32,
    org_id: u32,
    project_hash: [u8; 32],
    admin: Address,
)
    requires
        s.statuses_valid(),
    ensures
        s.init(admin).statuses_valid(),
        s.register(env, project_id, org_id, project_hash) matches Ok((after, _)) ==> after.statuses_valid(),
        s.archive(project_id) matches Ok((after, _)) ==> after.statuses_valid(),
{
}

/// `get` reads the stored projects: it returns the record stored for the
/// id, and `NotFound` exactly when none is stored.
pub proof fn lemma_get_reads_storage(s: ProjState, project_id: u32)
    ensures
        s.projects.contains_key(project_id) ==> s.get(project_id) == Ok::<ProjectInfo, ContractError>(
            s.projects[project_id],
        ),
        !s.projects.contains_key(project_id) ==> s.get(project_id) == Err::<ProjectInfo, ContractError>(
            ContractError::NotFound,
        ),
{
}

/// Registering is owed on an initialized contract for an id not yet used:
/// it stores the one new record and keeps the configuration and every other
/// project, so `get` of any other id answers as before.
pub proof fn lemma_register_succeeds(
    s: ProjState,
    env: Env,
    project_id: u32,
    org_id: u32,
    project_hash: [u8; 32],
    other: u32,
)
    requires
        s.config is Some,
        !s.projects.contains_key(project_id),
        other != project_id,
    ensures
        s.register(env, project_id, org_id, project_hash) matches Ok((after, project)) && {
            &&& project == (ProjectInfo {
                org_id,
                project_hash,
                created_at: env.timestamp,
                status: STATUS_ACTIVE,
            })
            &&& after.projects == s.projects.insert(project_id, project)
            &&& after.config == s.config
            &&& after.get(other) == s.get(other)
        },
{
}

/// A successful registration touches only its own project: the
/// configuration and every other project stay as they were.
pub proof fn lemma_register_keeps_others(
    s: ProjState,
    env: Env,
    project_id: u32,
    org_id: u32,
    project_hash: [u8; 32],
    other: u32,
)
    requires
        other != project_id,
    ensures
        s.register(env, project_id, org_id, project_hash) matches Ok((after, _)) ==> {
            &&& after.get(other) == s.get(other)
            &&& after.config == s.config
        },
{
}

/// Archiving is owed on an initialized contract for every stored project
/// that is not archived: it sets that record's status alone and keeps the
/// configuration and every other project.
pub proof fn lemma_archive_succeeds(s: ProjState, project_id: u32)
    requires
        s.config is Some,
        s.projects.contains_key(project_id),
        s.projects[project_id].status != STATUS_ARCHIVED,
    ensures
        s.archive(project_id) matches Ok((after, project)) && {
            &&& project == (ProjectInfo { status: STATUS_ARCHIVED, ..s.projects[project_id] })
            &&& after.projects == s.projects.insert(project_id, project)
            &&& after.config == s.config
        },
{
}

/// `has` tells whether the storage holds an entry under the key, and `init`
/// stores the admin and nothing else.
pub proof fn lemma_has_and_init(s: ProjState, project_id: u32, admin: Address)
    ensures
        s.has(ProjDataKey::Config) <==> s.config is Some,
        s.has(ProjDataKey::Project(project_id)) <==> s.projects.contains_key(project_id),
        s.init(admin).config == Some(ProjConfig { admin }),
        s.init(admin).projects == s.projects,
{
}

} // verus!
