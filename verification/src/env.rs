use vstd::prelude::*;

use crate::types::{Address, Role};

verus! {

/// Who has authorized the current invocation.
#[derive(Debug, Clone)]
pub enum Auths {
    /// Every address's authorization is granted.
    All,
    /// Only the listed addresses have authorized the invocation.
    Only(Vec<Address>),
}

/// An event published by a contract, with its topics and data.
#[derive(Debug, Clone, PartialEq, Eq)]
pub enum Event {
    OrgCreated { org_id: u32, owner: Address },
    OrgTransferred { org_id: u32, old_owner: Address, new_owner: Address },
    OrgArchived { org_id: u32 },
    ProjectCreated { project_id: u32, org_id: u32 },
    ProjectArchived { project_id: u32 },
    DeploymentRecorded { project_id: u32, version: u32 },
    RoleGranted { org_id: u32, user: Address, role: Role },
    RoleRevoked { org_id: u32, user: Address },
}

impl Event {
    /// The short symbol that is the event's first topic.
    pub fn topic(&self) -> (s: &'static str)
        ensures
            s@ == match self {
                Event::OrgCreated { .. } => "org_creat"@,
                Event::OrgTransferred { .. } => "org_xfer"@,
                Event::OrgArchived { .. } => "org_archv"@,
                Event::ProjectCreated { .. } => "proj_crea"@,
                Event::ProjectArchived { .. } => "proj_arch"@,
                Event::DeploymentRecorded { .. } => "deploy_re"@,
                Event::RoleGranted { .. } => "role_grnt"@,
                Event::RoleRevoked { .. } => "role_revk"@,
            },
    {
        match self {
            Event::OrgCreated { .. } => "org_creat",
            Event::OrgTransferred { .. } => "org_xfer",
            Event::OrgArchived { .. } => "org_archv",
            Event::ProjectCreated { .. } => "proj_crea",
            Event::ProjectArchived { .. } => "proj_arch",
            Event::DeploymentRecorded { .. } => "deploy_re",
            Event::RoleGranted { .. } => "role_grnt",
            Event::RoleRevoked { .. } => "role_revk",
        }
    }
}

/// The ledger environment of one contract invocation: the ledger's
/// timestamp, the authorizations that came with the invocation, the
/// addresses whose authorization the contract required so far, and the
/// events it published so far.
#[derive(Debug, Clone)]
pub struct Env {
    pub timestamp: u64,
    pub auths: Auths,
    pub auth_requests: Vec<Address>,
    pub events: Vec<Event>,
}

impl Env {
    /// Whether the invocation carries `addr`'s authorization.
    pub open spec fn authorizes(&self, addr: Address) -> bool {
        ||| self.auths is All
        ||| exists|i: int|
            0 <= i < self.auths->Only_0@.len() && #[trigger] self.auths->Only_0@[i]@ == addr@
    }

    /// Whether the invocation carries the authorization of every address in
    /// `addrs`.
    pub open spec fn authorizes_all(&self, addrs: Seq<Address>) -> bool {
        forall|i: int| 0 <= i < addrs.len() ==> self.authorizes(#[trigger] addrs[i])
    }

    /// `after` is this environment with `events` published, and nothing else
    /// changed.
    pub open spec fn publishes(self, after: Env, events: Seq<Event>) -> bool {
        self.steps(after, Seq::empty(), events)
    }

    /// `after` is this environment once the authorizations of `requests`
    /// were required and `events` published, in that order, and nothing
    /// else changed.
    pub open spec fn steps(self, after: Env, requests: Seq<Address>, events: Seq<Event>) -> bool {
        &&& after.timestamp == self.timestamp
        &&& after.auths == self.auths
        &&& after.auth_requests@ =~= self.auth_requests@ + requests
        &&& after.events@ =~= self.events@ + events
    }

    /// A fresh environment at ledger time 0 with no authorizations and no
    /// events.
    pub fn new() -> (env: Env)
        ensures
            env.timestamp == 0,
            env.auths matches Auths::Only(v) && v@.len() == 0,
            env.auth_requests@.len() == 0,
            env.events@.len() == 0,
    {
        Env {
            timestamp: 0,
            auths: Auths::Only(Vec::new()),
            auth_requests: Vec::new(),
            events: Vec::new(),
        }
    }

    /// Grants every address's authorization from now on.
    pub fn mock_all_auths(&mut self)
        ensures
            final(self).auths == Auths::All,
            final(self).timestamp == old(self).timestamp,
            final(self).auth_requests == old(self).auth_requests,
            final(self).events == old(self).events,
    {
        self.auths = Auths::All;
    }

    /// Grants exactly the authorizations of `signers` from now on.
    pub fn set_auths(&mut self, signers: Vec<Address>)
        ensures
            final(self).auths == Auths::Only(signers),
            final(self).timestamp == old(self).timestamp,
            final(self).auth_requests == old(self).auth_requests,
            final(self).events == old(self).events,
    {
        self.auths = Auths::Only(signers);
    }

    /// Whether the invocation carries `addr`'s authorization.
    pub fn is_authorized(&self, addr: &Address) -> (r: bool)
        ensures
            r == self.authorizes(*addr),
    {
        match &self.auths {
            Auths::All => true,
            Auths::Only(signers) => {
                let mut i: usize = 0;
                while i < signers.len()
                    invariant
                        0 <= i <= signers.len(),
                        self.auths == Auths::Only(*signers),
                        forall|j: int| 0 <= j < i ==> signers@[j]@ != addr@,
                    decreases signers.len() - i,
                {
                    if signers[i].same(addr) {
                        assert(self.auths->Only_0@[i as int]@ == addr@);
                        return true;
                    }
                    i = i + 1;
                }
                false
            },
        }
    }
}

impl Env {
    /// The first address in `addrs` whose authorization the invocation
    /// lacks, if any: an invocation that demands the authorizations of
    /// `addrs` is aborted by the ledger exactly when there is one.
    pub fn missing_auth(&self, addrs: &Vec<Address>) -> (r: Option<Address>)
        ensures
            r is None <==> self.authorizes_all(addrs@),
            r matches Some(a) ==> !self.authorizes(a) && addrs@.contains(a),
    {
        let mut i: usize = 0;
        while i < addrs.len()
            invariant
                0 <= i <= addrs.len(),
                forall|j: int| 0 <= j < i ==> self.authorizes(#[trigger] addrs@[j]),
            decreases addrs.len() - i,
        {
            if !self.is_authorized(&addrs[i]) {
                let a = addrs[i].duplicate();
                assert(addrs@[i as int] == a);
                return Some(a);
            }
            i = i + 1;
        }
        None
    }

    /// Demands `addr`'s authorization, which the invocation carries: the
    /// demand is logged. (On the ledger, an invocation without it is
    /// aborted, so no entry point goes on without it.)
    pub fn require_auth(&mut self, addr: &Address)
        requires
            old(self).authorizes(*addr),
        ensures
            old(self).steps(*final(self), seq![*addr], Seq::empty()),
    {
        self.auth_requests.push(addr.duplicate());
    }
}

} // verus!
