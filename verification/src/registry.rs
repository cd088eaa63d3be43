use vstd::prelude::*;

use crate::auth::authorize;
use crate::env::Env;
use crate::errors::ContractError;
use crate::table::Table;
use crate::types::{Address, DeploymentInfo, OrgInfo, ProjectInfo};

verus! {

/// The keys of the registry contract's storage.
#[derive(Debug, Clone, Copy, PartialEq, Eq, Structural)]
pub enum RegDataKey {
    /// The contract's configuration.
    Config,
    /// The indexed organization with this id.
    OrgIndex(u32),
    /// The indexed project with this id.
    ProjectIndex(u32),
    /// The indexed deployment of a project and version.
    DeploymentIndex(u32, u32),
    /// The highest version indexed for a project.
    DeploymentCount(u32),
}

/// The registry contract's configuration.
#[derive(Debug, Clone, PartialEq, Eq)]
pub struct RegConfig {
    /// The address that indexes records.
    pub admin: Address,
    pub org_contract: Address,
    pub project_contract: Address,
    pub deployment_contract: Address,
}

impl RegConfig {
    /// A copy of this configuration.
    fn duplicate(&self) -> (r: RegConfig)
        ensures
            r == *self,
    {
        RegConfig {
            admin: self.admin.duplicate(),
            org_contract: self.org_contract.duplicate(),
            project_contract: self.project_contract.duplicate(),
            deployment_contract: self.deployment_contract.duplicate(),
        }
    }
}

/// The registry contract: an index of organizations, projects and
/// deployments that the configured admin fills and anyone looks up.
pub struct RegistryContract {
    config: Option<RegConfig>,
    orgs: Table<u32, OrgInfo>,
    projects: Table<u32, ProjectInfo>,
    deployments: Table<(u32, u32), DeploymentInfo>,
    counts: Table<u32, u32>,
}

/// The registry contract's storage, as the contract's behaviour is stated
/// over it.
pub struct RegState {
    /// The configuration stored under `RegDataKey::Config`.
    pub config: Option<RegConfig>,
    /// The organizations stored under `RegDataKey::OrgIndex`.
    pub orgs: Map<u32, OrgInfo>,
    /// The projects stored under `RegDataKey::ProjectIndex`.
    pub projects: Map<u32, ProjectInfo>,
    /// The deployments stored under `RegDataKey::DeploymentIndex`.
    pub deployments: Map<(u32, u32), DeploymentInfo>,
    /// The highest versions stored under `RegDataKey::DeploymentCount`.
    pub counts: Map<u32, u32>,
}

impl View for RegistryContract {
    type V = RegState;

    closed spec fn view(&self) -> RegState {
        RegState {
            config: self.config,
            orgs: self.orgs@,
            projects: self.projects@,
            deployments: self.deployments@,
            counts: self.counts@,
        }
    }
}

impl RegState {
    /// Whether the storage holds an entry under `key`.
    pub open spec fn has(self, key: RegDataKey) -> bool {
        match key {
            RegDataKey::Config => self.config is Some,
            RegDataKey::OrgIndex(org_id) => self.orgs.contains_key(org_id),
            RegDataKey::ProjectIndex(project_id) => self.projects.contains_key(project_id),
            RegDataKey::DeploymentIndex(project_id, version) => self.deployments.contains_key(
                (project_id, version),
            ),
            RegDataKey::DeploymentCount(project_id) => self.counts.contains_key(project_id),
        }
    }

    /// The storage after initialization with the given configuration.
    pub open spec fn init(self, config: RegConfig) -> RegState {
        RegState { config: Some(config), ..self }
    }

    /// The highest version indexed for `project_id`, 0 when none was.
    pub open spec fn count(self, project_id: u32) -> u32 {
        if self.counts.contains_key(project_id) {
            self.counts[project_id]
        } else {
            0
        }
    }

    /// Whether indexing may go on: the contract is initialized.
    pub open spec fn admission(self) -> Result<(), ContractError> {
        match self.config {
            None => Err(ContractError::StorageFailure),
            Some(_) => Ok(()),
        }
    }

    /// The addresses whose authorization indexing requires: the admin, once
    /// the contract is initialized.
    pub open spec fn admission_requests(self) -> Seq<Address> {
        match self.config {
            None => Seq::empty(),
            Some(cfg) => seq![cfg.admin],
        }
    }

    /// The outcome of `index_org`: the new storage.
    pub open spec fn index_org(self, org_id: u32, info: OrgInfo) -> Result<
        RegState,
        ContractError,
    > {
        match self.admission() {
            Err(e) => Err(e),
            Ok(()) => Ok(RegState { orgs: self.orgs.insert(org_id, info), ..self }),
        }
    }

    /// The outcome of `index_project`: the new storage.
    pub open spec fn index_project(self, project_id: u32, info: ProjectInfo) -> Result<
        RegState,
        ContractError,
    > {
        match self.admission() {
            Err(e) => Err(e),
            Ok(()) => Ok(RegState { projects: self.projects.insert(project_id, info), ..self }),
        }
    }

    /// The outcome of `index_deployment`: the new storage, whose count for
    /// the project is raised to `version` when `version` is higher.
    pub open spec fn index_deployment(
        self,
        project_id: u32,
        version: u32,
        info: DeploymentInfo,
    ) -> Result<RegState, ContractError> {
        match self.admission() {
            Err(e) => Err(e),
            Ok(()) => Ok(
                RegState {
                    deployments: self.deployments.insert((project_id, version), info),
                    counts: if version > self.count(project_id) {
                        self.counts.insert(project_id, version)
                    } else {
                        self.counts
                    },
                    ..self
                },
            ),
        }
    }

    /// What `lookup_org` answers.
    pub open spec fn lookup_org(self, org_id: u32) -> Result<OrgInfo, ContractError> {
        if self.orgs.contains_key(org_id) {
            Ok(self.orgs[org_id])
        } else {
            Err(ContractError::NotFound)
        }
    }

    /// What `lookup_project` answers.
    pub open spec fn lookup_project(self, project_id: u32) -> Result<ProjectInfo, ContractError> {
        if self.projects.contains_key(project_id) {
            Ok(self.projects[project_id])
        } else {
            Err(ContractError::NotFound)
        }
    }

    /// What `lookup_deployment` answers.
    pub open spec fn lookup_deployment(self, project_id: u32, version: u32) -> Result<
        DeploymentInfo,
        ContractError,
    > {
        if self.deployments.contains_key((project_id, version)) {
            Ok(self.deployments[(project_id, version)])
        } else {
            Err(ContractError::NotFound)
        }
    }

    /// No indexed deployment has a version above its project's count.
    pub open spec fn counts_bound_versions(self) -> bool {
        forall|project_id: u32, version: u32|
            #[trigger] self.deployments.contains_key((project_id, version)) ==> version <= self.count(
                project_id,
            )
    }
}

/// The outcome of an indexing entry point: the admin's authorization is
/// required once the contract is initialized, and nothing is published; on
/// success the storage is that of `spec`; on failure the storage is
/// unchanged and the error is that of `spec`.
pub open spec fn index_step(
    spec: Result<RegState, ContractError>,
    r: Result<(), ContractError>,
    before: RegState,
    after: RegState,
    env_before: Env,
    env_after: Env,
) -> bool {
    &&& env_before.steps(env_after, before.admission_requests(), Seq::empty())
    &&& match r {
        Ok(()) => spec == Ok::<RegState, ContractError>(after),
        Err(e) => spec == Err::<RegState, ContractError>(e) && after == before,
    }
}

impl RegistryContract {
    /// The contract's storage is well formed.
    pub closed spec fn wf(&self) -> bool {
        &&& self.orgs.wf()
        &&& self.projects.wf()
        &&& self.deployments.wf()
        &&& self.counts.wf()
    }

    /// A contract with empty storage.
    pub fn new() -> (c: RegistryContract)
        ensures
            c.wf(),
            c@.config is None,
            c@.orgs == Map::<u32, OrgInfo>::empty(),
            c@.projects == Map::<u32, ProjectInfo>::empty(),
            c@.deployments == Map::<(u32, u32), DeploymentInfo>::empty(),
            c@.counts == Map::<u32, u32>::empty(),
    {
        RegistryContract {
            config: None,
            orgs: Table::new(),
            projects: Table::new(),
            deployments: Table::new(),
            counts: Table::new(),
        }
    }

    /// Whether the storage holds an entry under `key`.
    pub fn has(&self, key: &RegDataKey) -> (r: bool)
        requires
            self.wf(),
        ensures
            r == self@.has(*key),
    {
        match key {
            RegDataKey::Config => self.config.is_some(),
            RegDataKey::OrgIndex(org_id) => self.orgs.contains_key(org_id),
            RegDataKey::ProjectIndex(project_id) => self.projects.contains_key(project_id),
            RegDataKey::DeploymentIndex(project_id, version) => self.deployments.contains_key(
                &(*project_id, *version),
            ),
            RegDataKey::DeploymentCount(project_id) => self.counts.contains_key(project_id),
        }
    }

    /// Stores the admin and the addresses of the three source contracts. A
    /// contract is initialized once.
    pub fn init(
        &mut self,
        admin: Address,
        org_contract: Address,
        project_contract: Address,
        deployment_contract: Address,
    )
        requires
            old(self).wf(),
            !old(self)@.has(RegDataKey::Config),
        ensures
            final(self).wf(),
            final(self)@ == old(self)@.init(
                RegConfig { admin, org_contract, project_contract, deployment_contract },
            ),
    {
        self.config = Some(RegConfig { admin, org_contract, project_contract, deployment_contract });
    }

    /// Whether indexing may go on; demands the admin's authorization.
    fn admission(&self, env: &mut Env) -> (r: Result<(), ContractError>)
        requires
            old(env).authorizes_all(self@.admission_requests()),
        ensures
            r == self@.admission(),
            old(env).steps(*final(env), self@.admission_requests(), Seq::empty()),
    {
        let cfg = match &self.config {
            Some(cfg) => cfg.duplicate(),
            None => return Err(ContractError::StorageFailure),
        };
        assert(self@.admission_requests()[0] == cfg.admin);
        authorize(env, &cfg.admin)
    }

    /// The addresses whose authorization indexing demands: the admin, once
    /// the contract is initialized.
    pub fn index_auths(&self) -> (r: Vec<Address>)
        ensures
            r@ == self@.admission_requests(),
    {
        let mut r = Vec::new();
        if let Some(cfg) = &self.config {
            r.push(cfg.admin.duplicate());
        }
        assert(r@ =~= self@.admission_requests());
        r
    }

    /// Indexes organization `org_id`, replacing what was indexed for it; the
    /// admin must authorize the call.
    pub fn index_org(&mut self, env: &mut Env, org_id: u32, info: OrgInfo) -> (r: Result<(), ContractError>)
        requires
            old(self).wf(),
            old(env).authorizes_all(old(self)@.admission_requests()),
        ensures
            final(self).wf(),
            index_step(old(self)@.index_org(org_id, info), r, old(self)@, final(self)@, *old(env), *final(env)),
    {
        if let Err(e) = self.admission(env) {
            return Err(e);
        }
        self.orgs.insert(org_id, info);
        Ok(())
    }

    /// Indexes project `project_id`, replacing what was indexed for it; the
    /// admin must authorize the call.
    pub fn index_project(&mut self, env: &mut Env, project_id: u32, info: ProjectInfo) -> (r: Result<
        (),
        ContractError,
    >)
        requires
            old(self).wf(),
            old(env).authorizes_all(old(self)@.admission_requests()),
        ensures
            final(self).wf(),
            index_step(old(self)@.index_project(project_id, info), r, old(self)@, final(self)@, *old(env), *final(env)),
    {
        if let Err(e) = self.admission(env) {
            return Err(e);
        }
        self.projects.insert(project_id, info);
        Ok(())
    }

    /// Indexes deployment `version` of `project_id`, replacing what was
    /// indexed for it, and raises the project's count to `version` when it
    /// is higher; the admin must authorize the call.
    pub fn index_deployment(
        &mut self,
        env: &mut Env,
        project_id: u32,
        version: u32,
        info: DeploymentInfo,
    ) -> (r: Result<(), ContractError>)
        requires
            old(self).wf(),
            old(env).authorizes_all(old(self)@.admission_requests()),
        ensures
            final(self).wf(),
            index_step(
                old(self)@.index_deployment(project_id, version, info),
                r,
                old(self)@,
                final(self)@,
                *old(env),
                *final(env),
            ),
    {
        if let Err(e) = self.admission(env) {
            return Err(e);
        }
        let idx = match self.counts.get(&project_id) {
            Some(count) => *count,
            None => 0,
        };
        if version > idx {
            self.counts.insert(project_id, version);
        }
        self.deployments.insert((project_id, version), info);
        Ok(())
    }

    /// Puts into the storage an organization that the ledger already holds
    /// in the index, so that an invocation starts from the ledger's state.
    pub fn restore_org(&mut self, org_id: u32, info: OrgInfo)
        requires
            old(self).wf(),
        ensures
            final(self).wf(),
            final(self)@ == (RegState { orgs: old(self)@.orgs.insert(org_id, info), ..old(self)@ }),
    {
        self.orgs.insert(org_id, info);
    }

    /// Puts into the storage a project that the ledger already holds in the
    /// index, so that an invocation starts from the ledger's state.
    pub fn restore_project(&mut self, project_id: u32, info: ProjectInfo)
        requires
            old(self).wf(),
        ensures
            final(self).wf(),
            final(self)@ == (RegState {
                projects: old(self)@.projects.insert(project_id, info),
                ..old(self)@
            }),
    {
        self.projects.insert(project_id, info);
    }

    /// Puts into the storage a deployment that the ledger already holds in
    /// the index, so that an invocation starts from the ledger's state.
    pub fn restore_deployment(&mut self, project_id: u32, version: u32, info: DeploymentInfo)
        requires
            old(self).wf(),
        ensures
            final(self).wf(),
            final(self)@ == (RegState {
                deployments: old(self)@.deployments.insert((project_id, version), info),
                ..old(self)@
            }),
    {
        self.deployments.insert((project_id, version), info);
    }

    /// Puts into the storage the highest version that the ledger already
    /// holds for `project_id`, so that an invocation starts from the
    /// ledger's state.
    pub fn restore_count(&mut self, project_id: u32, count: u32)
        requires
            old(self).wf(),
        ensures
            final(self).wf(),
            final(self)@ == (RegState { counts: old(self)@.counts.insert(project_id, count), ..old(self)@ }),
    {
        self.counts.insert(project_id, count);
    }

    /// The highest version indexed for `project_id`; 0 when none was.
    pub fn deployment_count(&self, project_id: u32) -> (r: u32)
        requires
            self.wf(),
        ensures
            r == self@.count(project_id),
    {
        match self.counts.get(&project_id) {
            Some(count) => *count,
            None => 0,
        }
    }

    /// The indexed organization `org_id`.
    pub fn lookup_org(&self, org_id: u32) -> (r: Result<OrgInfo, ContractError>)
        requires
            self.wf(),
        ensures
            r == self@.lookup_org(org_id),
    {
        match self.orgs.get(&org_id) {
            Some(info) => Ok(info.duplicate()),
            None => Err(ContractError::NotFound),
        }
    }

    /// The indexed project `project_id`.
    pub fn lookup_project(&self, project_id: u32) -> (r: Result<ProjectInfo, ContractError>)
        requires
            self.wf(),
        ensures
            r == self@.lookup_project(project_id),
    {
        match self.projects.get(&project_id) {
            Some(info) => Ok(*info),
            None => Err(ContractError::NotFound),
        }
    }

    /// The indexed deployment `version` of `project_id`.
    pub fn lookup_deployment(&self, project_id: u32, version: u32) -> (r: Result<
        DeploymentInfo,
        ContractError,
    >)
        requires
            self.wf(),
        ensures
            r == self@.lookup_deployment(project_id, version),
    {
        match self.deployments.get(&(project_id, version)) {
            Some(info) => Ok(info.duplicate()),
            None => Err(ContractError::NotFound),
        }
    }
}

/// A lookup returns what was last indexed under its key, and indexing one
/// key leaves the lookups of every other key as they were.
pub proof fn lemma_index_then_lookup(
    s: RegState,
    org_id: u32,
    org: OrgInfo,
    project_id: u32,
    project: ProjectInfo,
    version: u32,
    deployment: DeploymentInfo,
    other: u32,
    other_version: u32,
)
    requires
        other != org_id,
        other != project_id,
    ensures
        s.index_org(org_id, org) matches Ok(after) ==> {
            &&& after.lookup_org(org_id) == Ok::<OrgInfo, ContractError>(org)
            &&& after.lookup_org(other) == s.lookup_org(other)
        },
        s.index_project(project_id, project) matches Ok(after) ==> {
            &&& after.lookup_project(project_id) == Ok::<ProjectInfo, ContractError>(project)
            &&& after.lookup_project(other) == s.lookup_project(other)
        },
        s.index_deployment(project_id, version, deployment) matches Ok(after) ==> {
            &&& after.lookup_deployment(project_id, version) == Ok::<DeploymentInfo, ContractError>(
                deployment,
            )
            &&& after.lookup_deployment(other, other_version) == s.lookup_deployment(
                other,
                other_version,
            )
        },
{
}

/// Indexing needs the contract to be initialized (`StorageFailure`, with no
/// authorization demanded, otherwise); once it is, indexing demands the
/// admin's authorization and always succeeds, replacing an earlier entry.
pub proof fn lemma_index_admission(
    s: RegState,
    org_id: u32,
    org: OrgInfo,
    project_id: u32,
    project: ProjectInfo,
    version: u32,
    deployment: DeploymentInfo,
)
    ensures
        !s.has(RegDataKey::Config) ==> {
            &&& s.admission_requests() == Seq::<Address>::empty()
            &&& s.index_org(org_id, org) == Err::<RegState, ContractError>(
                ContractError::StorageFailure,
            )
            &&& s.index_project(project_id, project) == Err::<RegState, ContractError>(
                ContractError::StorageFailure,
            )
            &&& s.index_deployment(project_id, version, deployment) == Err::<
                RegState,
                ContractError,
            >(ContractError::StorageFailure)
        },
        s.config matches Some(cfg) ==> {
            &&& s.admission_requests() == seq![cfg.admin]
            &&& s.index_org(org_id, org) is Ok
            &&& s.index_project(project_id, project) is Ok
            &&& s.index_deployment(project_id, version, deployment) is Ok
        },
{
}

/// A project's count is the highest version indexed for it: indexing sets
/// it to the larger of the old count and the version, so it never goes
/// down, and no indexed version of the project exceeds it.
pub proof fn lemma_count_tracks_highest_version(
    s: RegState,
    project_id: u32,
    version: u32,
    deployment: DeploymentInfo,
    other: u32,
    config: RegConfig,
)
    requires
        s.counts_bound_versions(),
        other != project_id,
    ensures
        s.init(config).counts_bound_versions(),
        s.index_deployment(project_id, version, deployment) matches Ok(after) ==> {
            &&& after.count(project_id) == if version > s.count(project_id) {
                version
            } else {
                s.count(project_id)
            }
            &&& after.count(project_id) >= s.count(project_id)
            &&& after.count(other) == s.count(other)
            &&& after.counts_bound_versions()
        },
{
    if let Ok(after) = s.index_deployment(project_id, version, deployment) {
        assert forall|p: u32, v: u32| #[trigger] after.deployments.contains_key((p, v)) implies v
            <= after.count(p) by {
            if (p, v) != (project_id, version) {
                assert(s.deployments.contains_key((p, v)));
            }
        }
    }
}

/// The lookups read the stored index: each returns the entry stored under
/// its key, `NotFound` exactly when none is stored; `count` is the stored
/// count, 0 when none is stored.
pub proof fn lemma_reads_storage(s: RegState, org_id: u32, project_id: u32, version: u32)
    ensures
        s.orgs.contains_key(org_id) ==> s.lookup_org(org_id) == Ok::<OrgInfo, ContractError>(
            s.orgs[org_id],
        ),
        !s.orgs.contains_key(org_id) ==> s.lookup_org(org_id) == Err::<OrgInfo, ContractError>(
            ContractError::NotFound,
        ),
        s.projects.contains_key(project_id) ==> s.lookup_project(project_id) == Ok::<
            ProjectInfo,
            ContractError,
        >(s.projects[project_id]),
        !s.projects.contains_key(project_id) ==> s.lookup_project(project_id) == Err::<
            ProjectInfo,
            ContractError,
        >(ContractError::NotFound),
        s.deployments.contains_key((project_id, version)) ==> s.lookup_deployment(project_id, version)
            == Ok::<DeploymentInfo, ContractError>(s.deployments[(project_id, version)]),
        !s.deployments.contains_key((project_id, version)) ==> s.lookup_deployment(
            project_id,
            version,
        ) == Err::<DeploymentInfo, ContractError>(ContractError::NotFound),
        s.counts.contains_key(project_id) ==> s.count(project_id) == s.counts[project_id],
        !s.counts.contains_key(project_id) ==> s.count(project_id) == 0,
{
}

/// Indexing on an initialized contract writes its one entry and nothing
/// else (but the count, for a deployment): every other table, and every
/// other key of its own table, stay as they were.
pub proof fn lemma_index_writes_one_entry(
    s: RegState,
    org_id: u32,
    org: OrgInfo,
    project_id: u32,
    project: ProjectInfo,
    version: u32,
    deployment: DeploymentInfo,
)
    requires
        s.config is Some,
    ensures
        s.index_org(org_id, org) matches Ok(after) && {
            &&& after.orgs == s.orgs.insert(org_id, org)
            &&& after.projects == s.projects
            &&& after.deployments == s.deployments
            &&& after.counts == s.counts
            &&& after.config == s.config
        },
        s.index_project(project_id, project) matches Ok(after) && {
            &&& after.projects == s.projects.insert(project_id, project)
            &&& after.orgs == s.orgs
            &&& after.deployments == s.deployments
            &&& after.counts == s.counts
            &&& after.config == s.config
        },
        s.index_deployment(project_id, version, deployment) matches Ok(after) && {
            &&& after.deployments == s.deployments.insert((project_id, version), deployment)
            &&& after.orgs == s.orgs
            &&& after.projects == s.projects
            &&& after.config == s.config
            &&& after.counts.remove(project_id) == s.counts.remove(project_id)
        },
{
}

/// Indexing a deployment leaves the lookup of every other project and
/// version as it was, other versions of the same project included.
pub proof fn lemma_index_deployment_keeps_other_versions(
    s: RegState,
    project_id: u32,
    version: u32,
    deployment: DeploymentInfo,
    p: u32,
    v: u32,
)
    requires
        (p, v) != (project_id, version),
    ensures
        s.index_deployment(project_id, version, deployment) matches Ok(after) ==> after.lookup_deployment(
            p,
            v,
        ) == s.lookup_deployment(p, v),
{
}

/// `has` tells whether the storage holds an entry under the key, and `init`
/// stores the configuration and nothing else.
pub proof fn lemma_has_and_init(
    s: RegState,
    org_id: u32,
    project_id: u32,
    version: u32,
    config: RegConfig,
)
    ensures
        s.has(RegDataKey::Config) <==> s.config is Some,
        s.has(RegDataKey::OrgIndex(org_id)) <==> s.orgs.contains_key(org_id),
        s.has(RegDataKey::ProjectIndex(project_id)) <==> s.projects.contains_key(project_id),
        s.has(RegDataKey::DeploymentIndex(project_id, version)) <==> s.deployments.contains_key(
            (project_id, version),
        ),
        s.has(RegDataKey::DeploymentCount(project_id)) <==> s.counts.contains_key(project_id),
        s.init(config).config == Some(config),
        s.init(config).orgs == s.orgs,
        s.init(config).projects == s.projects,
        s.init(config).deployments == s.deployments,
        s.init(config).counts == s.counts,
{
}

} // verus!
