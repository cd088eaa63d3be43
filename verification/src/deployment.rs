use vstd::prelude::*;

use crate::auth::authorize;
use crate::env::{Env, Event};
use crate::errors::ContractError;
use crate::events;
use crate::table::Table;
use crate::types::{Address, DeploymentInfo};

verus! {

/// The keys of the deployment contract's storage.
#[derive(Debug, Clone, Copy, PartialEq, Eq, Structural)]
pub enum DepDataKey {
    /// The contract's configuration.
    Config,
    /// Deployment `version` of a project.
    Deployment(u32, u32),
    /// How many deployments a project has.
    DeploymentCount(u32),
}

/// The deployment contract's configuration.
#[derive(Debug, Clone, PartialEq, Eq)]
pub struct DepConfig {
    /// The address that records deployments.
    pub admin: Address,
}

impl DepConfig {
    /// A copy of this configuration.
    fn duplicate(&self) -> (r: DepConfig)
        ensures
            r == *self,
    {
        DepConfig { admin: self.admin.duplicate() }
    }
}

/// The deployment contract: numbered deployments of each project, recorded
/// by the configured admin, version 1 first.
pub struct DeploymentContract {
    config: Option<DepConfig>,
    deployments: Table<(u32, u32), DeploymentInfo>,
    counts: Table<u32, u32>,
}

/// The deployment contract's storage, as the contract's behaviour is stated
/// over it.
pub struct DepState {
    /// The configuration stored under `DepDataKey::Config`.
    pub config: Option<DepConfig>,
    /// The deployments stored under `DepDataKey::Deployment`, by project and
    /// version.
    pub deployments: Map<(u32, u32), DeploymentInfo>,
    /// The counts stored under `DepDataKey::DeploymentCount`.
    pub counts: Map<u32, u32>,
}

impl View for DeploymentContract {
    type V = DepState;

    closed spec fn view(&self) -> DepState {
        DepState { config: self.config, deployments: self.deployments@, counts: self.counts@ }
    }
}

impl DepState {
    /// Whether the storage holds an entry under `key`.
    pub open spec fn has(self, key: DepDataKey) -> bool {
        match key {
            DepDataKey::Config => self.config is Some,
            DepDataKey::Deployment(project_id, version) => self.deployments.contains_key(
                (project_id, version),
            ),
            DepDataKey::DeploymentCount(project_id) => self.counts.contains_key(project_id),
        }
    }

    /// The storage after initialization with `admin`.
    pub open spec fn init(self, admin: Address) -> DepState {
        DepState { config: Some(DepConfig { admin }), ..self }
    }

    /// What `count` answers: the stored count, 0 when there is none.
    pub open spec fn count(self, project_id: u32) -> u32 {
        if self.counts.contains_key(project_id) {
            self.counts[project_id]
        } else {
            0
        }
    }

    /// What `get` answers for deployment `version` of `project_id`.
    pub open spec fn get(self, project_id: u32, version: u32) -> Result<DeploymentInfo, ContractError> {
        if self.deployments.contains_key((project_id, version)) {
            Ok(self.deployments[(project_id, version)])
        } else {
            Err(ContractError::NotFound)
        }
    }

    /// `record` would overflow the project's count: the contract is
    /// initialized and the count is already the largest `u32`.
    pub open spec fn record_overflows(self, project_id: u32) -> bool {
        &&& self.config is Some
        &&& self.count(project_id) == u32::MAX
    }

    /// The outcome of `record`: the new storage and the recorded deployment,
    /// numbered one past the project's count.
    pub open spec fn record(
        self,
        env: Env,
        project_id: u32,
        contract_id: [u8; 32],
        artifact_hash: [u8; 32],
        network: String,
    ) -> Result<(DepState, DeploymentInfo), ContractError> {
        match self.config {
            None => Err(ContractError::StorageFailure),
            Some(_) => {
                let version = (self.count(project_id) + 1) as u32;
                let deployment = DeploymentInfo {
                    contract_id,
                    artifact_hash,
                    version,
                    timestamp: env.timestamp,
                    network,
                };
                Ok(
                    (
                        DepState {
                            deployments: self.deployments.insert((project_id, version), deployment),
                            counts: self.counts.insert(project_id, version),
                            ..self
                        },
                        deployment,
                    ),
                )
            },
        }
    }

    /// The addresses whose authorization `record` requires: the admin, once
    /// the contract is initialized.
    pub open spec fn record_requests(self) -> Seq<Address> {
        match self.config {
            None => Seq::empty(),
            Some(cfg) => seq![cfg.admin],
        }
    }

    /// The deployments of each project are exactly versions 1 to its count.
    pub open spec fn versions_dense(self) -> bool {
        forall|project_id: u32, version: u32|
            #[trigger] self.deployments.contains_key((project_id, version)) <==> 1 <= version
                <= self.count(project_id)
    }
}

impl DeploymentContract {
    /// The contract's storage is well formed.
    pub closed spec fn wf(&self) -> bool {
        self.deployments.wf() && self.counts.wf()
    }

    /// A contract with empty storage.
    pub fn new() -> (c: DeploymentContract)
        ensures
            c.wf(),
            c@.config is None,
            c@.deployments == Map::<(u32, u32), DeploymentInfo>::empty(),
            c@.counts == Map::<u32, u32>::empty(),
    {
        DeploymentContract { config: None, deployments: Table::new(), counts: Table::new() }
    }

    /// Whether the storage holds an entry under `key`.
    pub fn has(&self, key: &DepDataKey) -> (r: bool)
        requires
            self.wf(),
        ensures
            r == self@.has(*key),
    {
        match key {
            DepDataKey::Config => self.config.is_some(),
            DepDataKey::Deployment(project_id, version) => self.deployments.contains_key(
                &(*project_id, *version),
            ),
            DepDataKey::DeploymentCount(project_id) => self.counts.contains_key(project_id),
        }
    }

    /// Stores the admin who records deployments. A contract is initialized
    /// once.
    pub fn init(&mut self, admin: Address)
        requires
            old(self).wf(),
            !old(self)@.has(DepDataKey::Config),
        ensures
            final(self).wf(),
            final(self)@ == old(self)@.init(admin),
    {
        self.config = Some(DepConfig { admin });
    }

    /// The addresses whose authorization `record` demands: the admin, once
    /// the contract is initialized.
    pub fn record_auths(&self) -> (r: Vec<Address>)
        ensures
            r@ == self@.record_requests(),
    {
        let mut r = Vec::new();
        if let Some(cfg) = &self.config {
            r.push(cfg.admin.duplicate());
        }
        assert(r@ =~= self@.record_requests());
        r
    }

    /// Records the next deployment of `project_id`; the admin must authorize
    /// the call. The project's count must leave room for one more version.
    pub fn record(
        &mut self,
        env: &mut Env,
        project_id: u32,
        contract_id: [u8; 32],
        artifact_hash: [u8; 32],
        network: String,
    ) -> (r: Result<DeploymentInfo, ContractError>)
        requires
            old(self).wf(),
            !old(self)@.record_overflows(project_id),
            old(env).authorizes_all(old(self)@.record_requests()),
        ensures
            final(self).wf(),
            match r {
                Ok(deployment) => {
                    &&& old(self)@.record(*old(env), project_id, contract_id, artifact_hash, network)
                        == Ok::<(DepState, DeploymentInfo), ContractError>((final(self)@, deployment))
                    &&& old(env).steps(
                        *final(env),
                        old(self)@.record_requests(),
                        seq![Event::DeploymentRecorded { project_id, version: deployment.version }],
                    )
                },
                Err(e) => {
                    &&& old(self)@.record(*old(env), project_id, contract_id, artifact_hash, network)
                        == Err::<(DepState, DeploymentInfo), ContractError>(e)
                    &&& final(self)@ == old(self)@
                    &&& old(env).steps(*final(env), old(self)@.record_requests(), Seq::empty())
                },
            },
    {
        let cfg = match &self.config {
            Some(cfg) => cfg.duplicate(),
            None => return Err(ContractError::StorageFailure),
        };
        assert(self@.record_requests()[0] == cfg.admin);
        if let Err(e) = authorize(env, &cfg.admin) {
            return Err(e);
        }
        let count = self.count(project_id);
        let version = count + 1;
        let timestamp = env.timestamp;
        let deployment = DeploymentInfo { contract_id, artifact_hash, version, timestamp, network };
        self.deployments.insert((project_id, version), deployment.duplicate());
        self.counts.insert(project_id, version);
        events::deployment_recorded(env, project_id, version);
        Ok(deployment)
    }

    /// Puts into the storage a deployment that the ledger already holds, so
    /// that an invocation starts from the ledger's state.
    pub fn restore_deployment(&mut self, project_id: u32, version: u32, info: DeploymentInfo)
        requires
            old(self).wf(),
        ensures
            final(self).wf(),
            final(self)@ == (DepState {
                deployments: old(self)@.deployments.insert((project_id, version), info),
                ..old(self)@
            }),
    {
        self.deployments.insert((project_id, version), info);
    }

    /// Puts into the storage the count that the ledger already holds for
    /// `project_id`, so that an invocation starts from the ledger's state.
    pub fn restore_count(&mut self, project_id: u32, count: u32)
        requires
            old(self).wf(),
        ensures
            final(self).wf(),
            final(self)@ == (DepState { counts: old(self)@.counts.insert(project_id, count), ..old(self)@ }),
    {
        self.counts.insert(project_id, count);
    }

    /// Deployment `version` of `project_id`.
    pub fn get(&self, project_id: u32, version: u32) -> (r: Result<DeploymentInfo, ContractError>)
        requires
            self.wf(),
        ensures
            r == self@.get(project_id, version),
    {
        match self.deployments.get(&(project_id, version)) {
            Some(deployment) => Ok(deployment.duplicate()),
            None => Err(ContractError::NotFound),
        }
    }

    /// How many deployments `project_id` has; 0 when none was recorded.
    pub fn count(&self, project_id: u32) -> (r: u32)
        requires
            self.wf(),
        ensures
            r == self@.count(project_id),
            self@.counts.contains_key(project_id) ==> r == self@.counts[project_id],
            !self@.counts.contains_key(project_id) ==> r == 0,
    {
        match self.counts.get(&project_id) {
            Some(count) => *count,
            None => 0,
        }
    }
}

/// `record` numbers deployments one past the project's count, bumps the
/// count to that number, and `get` then returns the recorded deployment.
pub proof fn lemma_record_then_get(
    s: DepState,
    env: Env,
    project_id: u32,
    contract_id: [u8; 32],
    artifact_hash: [u8; 32],
    network: String,
    after: DepState,
    deployment: DeploymentInfo,
)
    requires
        !s.record_overflows(project_id),
        s.record(env, project_id, contract_id, artifact_hash, network) == Ok::<
            (DepState, DeploymentInfo),
            ContractError,
        >((after, deployment)),
    ensures
        deployment.version == s.count(project_id) + 1,
        after.count(project_id) == deployment.version,
        after.get(project_id, deployment.version) == Ok::<DeploymentInfo, ContractError>(deployment),
        deployment == (DeploymentInfo {
            contract_id,
            artifact_hash,
            version: deployment.version,
            timestamp: env.timestamp,
            network,
        }),
{
}

/// Recording keeps every other deployment and every other project's count
/// as they were.
pub proof fn lemma_record_keeps_others(
    s: DepState,
    env: Env,
    project_id: u32,
    contract_id: [u8; 32],
    artifact_hash: [u8; 32],
    network: String,
    other_project: u32,
    other_version: u32,
)
    requires
        !s.record_overflows(project_id),
        s.record(env, project_id, contract_id, artifact_hash, network) is Ok,
        other_project != project_id || other_version != s.count(project_id) + 1,
    ensures
        ({
            let after = s.record(env, project_id, contract_id, artifact_hash, network)->Ok_0.0;
            &&& after.get(other_project, other_version) == s.get(other_project, other_version)
            &&& other_project != project_id ==> after.count(other_project) == s.count(other_project)
            &&& after.config == s.config
        }),
{
}

/// Before `init` nothing can be recorded (`StorageFailure`, demanding no
/// authorization); after it, every record demands the admin's authorization
/// and succeeds.
pub proof fn lemma_record_admission(
    s: DepState,
    env: Env,
    project_id: u32,
    contract_id: [u8; 32],
    artifact_hash: [u8; 32],
    network: String,
)
    ensures
        !s.has(DepDataKey::Config) ==> {
            &&& s.record(env, project_id, contract_id, artifact_hash, network) == Err::<
                (DepState, DeploymentInfo),
                ContractError,
            >(ContractError::StorageFailure)
            &&& s.record_requests() == Seq::<Address>::empty()
        },
        s.config matches Some(cfg) ==> {
            &&& s.record(env, project_id, contract_id, artifact_hash, network) is Ok
            &&& s.record_requests() == seq![cfg.admin]
        },
{
}

/// The versions of each project are exactly 1 to its count: this holds of
/// an empty storage and every entry point keeps it, so `count` is the
/// number of deployments that `get` finds for the project.
pub proof fn lemma_versions_stay_dense(
    s: DepState,
    env: Env,
    project_id: u32,
    contract_id: [u8; 32],
    artifact_hash: [u8; 32],
    network: String,
    admin: Address,
)
    requires
        s.versions_dense(),
        !s.record_overflows(project_id),
    ensures
        (DepState {
            config: None,
            deployments: Map::empty(),
            counts: Map::empty(),
        }).versions_dense(),
        s.init(admin).versions_dense(),
        s.record(env, project_id, contract_id, artifact_hash, network) matches Ok((after, _))
            ==> after.versions_dense(),
{
    if let Ok((after, d)) = s.record(env, project_id, contract_id, artifact_hash, network) {
        assert forall|p: u32, v: u32| #[trigger] after.deployments.contains_key((p, v)) <==> 1 <= v
            <= after.count(p) by {
            if p == project_id {
                assert(s.deployments.contains_key((p, v)) <==> 1 <= v <= s.count(p));
            } else {
                assert(s.deployments.contains_key((p, v)) <==> 1 <= v <= s.count(p));
            }
        }
    }
}

/// One call of `record`, with what it was given.
pub struct RecordCall {
    pub env: Env,
    pub project_id: u32,
    pub contract_id: [u8; 32],
    pub artifact_hash: [u8; 32],
    pub network: String,
}

impl DepState {
    /// The empty storage of a contract that was just deployed.
    pub open spec fn empty() -> DepState {
        DepState { config: None, deployments: Map::empty(), counts: Map::empty() }
    }

    /// The storage that `call` leaves, whether it succeeds or not.
    pub open spec fn after_record(self, call: RecordCall) -> DepState {
        match self.record(call.env, call.project_id, call.contract_id, call.artifact_hash, call.network) {
            Ok((after, _)) => after,
            Err(_) => self,
        }
    }
}

/// The storage after `calls`, in order, starting from `s`.
pub open spec fn run_records(s: DepState, calls: Seq<RecordCall>) -> DepState
    decreases calls.len(),
{
    if calls.len() == 0 {
        s
    } else {
        run_records(s, calls.drop_last()).after_record(calls.last())
    }
}

/// Every call of `calls`, made in turn from `s`, leaves room for one more
/// version of its project, as `record` requires.
pub open spec fn records_fit(s: DepState, calls: Seq<RecordCall>) -> bool
    decreases calls.len(),
{
    if calls.len() == 0 {
        true
    } else {
        &&& records_fit(s, calls.drop_last())
        &&& !run_records(s, calls.drop_last()).record_overflows(calls.last().project_id)
    }
}

/// How many of `calls` are for `project_id`.
pub open spec fn calls_for(calls: Seq<RecordCall>, project_id: u32) -> nat
    decreases calls.len(),
{
    if calls.len() == 0 {
        0
    } else {
        calls_for(calls.drop_last(), project_id) + if calls.last().project_id == project_id {
            1nat
        } else {
            0nat
        }
    }
}

/// Running `a` then `b` is running `a + b`.
proof fn lemma_run_append(s: DepState, a: Seq<RecordCall>, b: Seq<RecordCall>)
    ensures
        run_records(s, a + b) == run_records(run_records(s, a), b),
        records_fit(s, a + b) <==> records_fit(s, a) && records_fit(run_records(s, a), b),
    decreases b.len(),
{
    if b.len() == 0 {
        assert(a + b =~= a);
    } else {
        assert((a + b).drop_last() =~= a + b.drop_last());
        assert((a + b).last() == b.last());
        lemma_run_append(s, a, b.drop_last());
    }
}

/// Deployments stay dense along any run that `record` admits, so in every
/// reached state `get` finds exactly versions 1 to the project's count, and
/// the configuration never changes.
pub proof fn lemma_run_stays_dense(s: DepState, calls: Seq<RecordCall>)
    requires
        s.versions_dense(),
        records_fit(s, calls),
    ensures
        run_records(s, calls).versions_dense(),
        run_records(s, calls).config == s.config,
        forall|project_id: u32, version: u32|
            (#[trigger] run_records(s, calls).get(project_id, version) is Ok) <==> 1 <= version
                <= run_records(s, calls).count(project_id),
    decreases calls.len(),
{
    if calls.len() > 0 {
        let c = calls.last();
        lemma_run_stays_dense(s, calls.drop_last());
        let t = run_records(s, calls.drop_last());
        lemma_versions_stay_dense(
            t,
            c.env,
            c.project_id,
            c.contract_id,
            c.artifact_hash,
            c.network,
            arbitrary(),
        );
    }
    let u = run_records(s, calls);
    assert forall|project_id: u32, version: u32|
        (#[trigger] u.get(project_id, version) is Ok) <==> 1 <= version <= u.count(project_id) by {
        assert(u.deployments.contains_key((project_id, version)) <==> 1 <= version <= u.count(
            project_id,
        ));
    }
}

/// On an initialized contract every admitted record succeeds, so a
/// project's count grows by exactly the number of records made for it, and
/// on an uninitialized one nothing changes.
pub proof fn lemma_run_counts(s: DepState, calls: Seq<RecordCall>, project_id: u32)
    requires
        records_fit(s, calls),
    ensures
        s.config is Some ==> run_records(s, calls).count(project_id) == s.count(project_id)
            + calls_for(calls, project_id),
        s.config is None ==> run_records(s, calls) == s,
    decreases calls.len(),
{
    if calls.len() > 0 {
        lemma_run_counts(s, calls.drop_last(), project_id);
        lemma_run_config(s, calls.drop_last());
    }
}

/// A run keeps the configuration.
proof fn lemma_run_config(s: DepState, calls: Seq<RecordCall>)
    ensures
        run_records(s, calls).config == s.config,
    decreases calls.len(),
{
    if calls.len() > 0 {
        lemma_run_config(s, calls.drop_last());
    }
}

/// A stored deployment stays as it is along any run that `record` admits.
proof fn lemma_run_keeps_entry(
    s: DepState,
    calls: Seq<RecordCall>,
    project_id: u32,
    version: u32,
    deployment: DeploymentInfo,
)
    requires
        s.versions_dense(),
        records_fit(s, calls),
        s.get(project_id, version) == Ok::<DeploymentInfo, ContractError>(deployment),
    ensures
        run_records(s, calls).get(project_id, version) == Ok::<DeploymentInfo, ContractError>(
            deployment,
        ),
    decreases calls.len(),
{
    if calls.len() > 0 {
        lemma_run_keeps_entry(s, calls.drop_last(), project_id, version, deployment);
        lemma_run_stays_dense(s, calls.drop_last());
        let t = run_records(s, calls.drop_last());
        assert(t.deployments.contains_key((project_id, version)));
    }
}

/// A recorded deployment stays readable: whatever records come after it,
/// for its project or for others, `get` of its project and version returns
/// it.
pub proof fn lemma_recorded_stays_readable(
    s: DepState,
    earlier: Seq<RecordCall>,
    call: RecordCall,
    later: Seq<RecordCall>,
    after: DepState,
    deployment: DeploymentInfo,
)
    requires
        s.versions_dense(),
        records_fit(s, earlier.push(call) + later),
        run_records(s, earlier).record(
            call.env,
            call.project_id,
            call.contract_id,
            call.artifact_hash,
            call.network,
        ) == Ok::<(DepState, DeploymentInfo), ContractError>((after, deployment)),
    ensures
        run_records(s, earlier.push(call) + later).get(call.project_id, deployment.version) == Ok::<
            DeploymentInfo,
            ContractError,
        >(deployment),
{
    let first = earlier.push(call);
    lemma_run_append(s, first, later);
    assert(first.drop_last() =~= earlier);
    assert(first.last() == call);
    let t = run_records(s, earlier);
    lemma_run_stays_dense(s, earlier);
    lemma_record_then_get(
        t,
        call.env,
        call.project_id,
        call.contract_id,
        call.artifact_hash,
        call.network,
        after,
        deployment,
    );
    lemma_versions_stay_dense(
        t,
        call.env,
        call.project_id,
        call.contract_id,
        call.artifact_hash,
        call.network,
        arbitrary(),
    );
    lemma_run_keeps_entry(after, later, call.project_id, deployment.version, deployment);
}

/// From a freshly initialized contract, a project's count is the number of
/// records made for it, and `get` finds exactly versions 1 to that count.
pub proof fn lemma_fresh_run(admin: Address, calls: Seq<RecordCall>, project_id: u32, version: u32)
    requires
        records_fit(DepState::empty().init(admin), calls),
    ensures
        run_records(DepState::empty().init(admin), calls).count(project_id) == calls_for(
            calls,
            project_id,
        ),
        run_records(DepState::empty().init(admin), calls).get(project_id, version) is Ok <==> 1
            <= version <= calls_for(calls, project_id),
{
    let s = DepState::empty().init(admin);
    lemma_versions_stay_dense(
        DepState::empty(),
        arbitrary(),
        project_id,
        arbitrary(),
        arbitrary(),
        arbitrary(),
        admin,
    );
    lemma_run_counts(s, calls, project_id);
    lemma_run_stays_dense(s, calls);
}

/// `count` is the stored count of the project, 0 when none is stored, and
/// `get` returns the deployment stored under the project and version,
/// `NotFound` exactly when none is stored.
pub proof fn lemma_reads_storage(s: DepState, project_id: u32, version: u32)
    ensures
        s.counts.contains_key(project_id) ==> s.count(project_id) == s.counts[project_id],
        !s.counts.contains_key(project_id) ==> s.count(project_id) == 0,
        s.deployments.contains_key((project_id, version)) ==> s.get(project_id, version) == Ok::<
            DeploymentInfo,
            ContractError,
        >(s.deployments[(project_id, version)]),
        !s.deployments.contains_key((project_id, version)) ==> s.get(project_id, version) == Err::<
            DeploymentInfo,
            ContractError,
        >(ContractError::NotFound),
{
}

/// Recording is owed on an initialized contract: it stores the deployment
/// under the version one past the stored count, sets the count to that
/// version, and keeps the configuration, every other deployment and every
/// other project's count.
pub proof fn lemma_record_succeeds(
    s: DepState,
    env: Env,
    project_id: u32,
    contract_id: [u8; 32],
    artifact_hash: [u8; 32],
    network: String,
    count: u32,
)
    requires
        s.config is Some,
        s.counts.contains_key(project_id) ==> count == s.counts[project_id],
        !s.counts.contains_key(project_id) ==> count == 0,
        count < u32::MAX,
    ensures
        s.record(env, project_id, contract_id, artifact_hash, network) matches Ok((after, d)) && {
            &&& d == (DeploymentInfo {
                contract_id,
                artifact_hash,
                version: (count + 1) as u32,
                timestamp: env.timestamp,
                network,
            })
            &&& after.deployments == s.deployments.insert((project_id, d.version), d)
            &&& after.counts == s.counts.insert(project_id, d.version)
            &&& after.config == s.config
        },
{
}

/// `has` tells whether the storage holds an entry under the key, and `init`
/// stores the admin and nothing else.
pub proof fn lemma_has_and_init(s: DepState, project_id: u32, version: u32, admin: Address)
    ensures
        s.has(DepDataKey::Config) <==> s.config is Some,
        s.has(DepDataKey::Deployment(project_id, version)) <==> s.deployments.contains_key(
            (project_id, version),
        ),
        s.has(DepDataKey::DeploymentCount(project_id)) <==> s.counts.contains_key(project_id),
        s.init(admin).config == Some(DepConfig { admin }),
        s.init(admin).deployments == s.deployments,
        s.init(admin).counts == s.counts,
{
}

} // verus!
