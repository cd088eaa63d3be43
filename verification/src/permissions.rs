use vstd::prelude::*;

use crate::env::{Env, Event};
use crate::errors::ContractError;
use crate::events;
use crate::table::Table;
use crate::types::{Address, Role};

verus! {

/// The keys of the permissions contract's storage.
#[derive(Debug, Clone, PartialEq, Eq)]
pub enum PermDataKey {
    /// The admin that the contract was initialized with.
    Admin,
    /// The role of a user in an organization.
    Role(u32, Address),
}

/// The permissions contract: the role of each user in each organization,
/// granted and revoked by the configured admin.
pub struct PermissionsContract {
    admin: Option<Address>,
    roles: Table<(u32, Address), Role>,
}

/// The permissions contract's storage, as the contract's behaviour is
/// stated over it.
pub struct PermState {
    /// The admin stored under `PermDataKey::Admin`.
    pub admin: Option<Address>,
    /// The roles stored under `PermDataKey::Role`, by organization and user.
    pub roles: Map<(u32, Seq<char>), Role>,
}

impl View for PermissionsContract {
    type V = PermState;

    closed spec fn view(&self) -> PermState {
        PermState { admin: self.admin, roles: self.roles@ }
    }
}

/// Whether a user holding `stored` passes a check for `required`: roles
/// rank from Owner (0) to Viewer (3), and a role passes the checks of its
/// own rank and of every less privileged one.
pub open spec fn role_covers(stored: Role, required: Role) -> bool {
    stored.spec_rank() <= required.spec_rank()
}

impl PermState {
    /// Whether the storage holds an entry under `key`.
    pub open spec fn has(self, key: PermDataKey) -> bool {
        match key {
            PermDataKey::Admin => self.admin is Some,
            PermDataKey::Role(org_id, user) => self.roles.contains_key((org_id, user@)),
        }
    }

    /// The storage after initialization with `admin`.
    pub open spec fn init(self, admin: Address) -> PermState {
        PermState { admin: Some(admin), ..self }
    }

    /// What `get_role` answers.
    pub open spec fn get_role(self, org_id: u32, user: Address) -> Result<Role, ContractError> {
        if self.roles.contains_key((org_id, user@)) {
            Ok(self.roles[(org_id, user@)])
        } else {
            Err(ContractError::NotFound)
        }
    }

    /// What `has_role` answers: the user holds a role that covers `role`.
    pub open spec fn has_role(self, org_id: u32, user: Address, role: Role) -> bool {
        &&& self.roles.contains_key((org_id, user@))
        &&& role_covers(self.roles[(org_id, user@)], role)
    }

    /// The outcome of `grant_role`: the new storage.
    pub open spec fn grant_role(self, org_id: u32, user: Address, role: Role) -> Result<
        PermState,
        ContractError,
    > {
        match self.admin {
            None => Err(ContractError::StorageFailure),
            Some(admin) => if self.roles.contains_key((org_id, user@)) {
                Err(ContractError::AlreadyExists)
            } else {
                Ok(PermState { roles: self.roles.insert((org_id, user@), role), ..self })
            },
        }
    }

    /// The addresses whose authorization `grant_role` demands, in order:
    /// the admin, then the user, once the contract is initialized.
    pub open spec fn grant_requests(self, user: Address) -> Seq<Address> {
        match self.admin {
            None => Seq::empty(),
            Some(admin) => seq![admin, user],
        }
    }

    /// The addresses whose authorization `revoke_role` requires: the admin,
    /// once the contract is initialized.
    pub open spec fn revoke_requests(self) -> Seq<Address> {
        match self.admin {
            None => Seq::empty(),
            Some(admin) => seq![admin],
        }
    }

    /// The outcome of `revoke_role`: the new storage.
    pub open spec fn revoke_role(self, org_id: u32, user: Address) -> Result<
        PermState,
        ContractError,
    > {
        match self.admin {
            None => Err(ContractError::StorageFailure),
            Some(admin) => if !self.roles.contains_key((org_id, user@)) {
                Err(ContractError::NotFound)
            } else {
                Ok(PermState { roles: self.roles.remove((org_id, user@)), ..self })
            },
        }
    }
}

/// The outcome of an entry point that changes roles: the authorizations of
/// `requests` are required; on success the storage is that of `spec` and
/// `events` are published; on failure the storage is unchanged, nothing is
/// published, and the error is that of `spec`.
pub open spec fn perm_step(
    spec: Result<PermState, ContractError>,
    r: Result<(), ContractError>,
    before: PermState,
    after: PermState,
    env_before: Env,
    env_after: Env,
    requests: Seq<Address>,
    events: Seq<Event>,
) -> bool {
    match r {
        Ok(()) => spec == Ok::<PermState, ContractError>(after) && env_before.steps(
            env_after,
            requests,
            events,
        ),
        Err(e) => spec == Err::<PermState, ContractError>(e) && after == before && env_before.steps(
            env_after,
            requests,
            Seq::empty(),
        ),
    }
}

impl PermissionsContract {
    /// The contract's storage is well formed.
    pub closed spec fn wf(&self) -> bool {
        self.roles.wf()
    }

    /// A contract with empty storage.
    pub fn new() -> (c: PermissionsContract)
        ensures
            c.wf(),
            c@.admin is None,
            c@.roles == Map::<(u32, Seq<char>), Role>::empty(),
    {
        PermissionsContract { admin: None, roles: Table::new() }
    }

    /// Whether the storage holds an entry under `key`.
    pub fn has(&self, key: &PermDataKey) -> (r: bool)
        requires
            self.wf(),
        ensures
            r == self@.has(*key),
    {
        match key {
            PermDataKey::Admin => self.admin.is_some(),
            PermDataKey::Role(org_id, user) => self.roles.contains_key(&(*org_id, user.duplicate())),
        }
    }

    /// Stores the admin who grants and revokes roles. A contract is
    /// initialized once.
    pub fn init(&mut self, admin: Address)
        requires
            old(self).wf(),
            !old(self)@.has(PermDataKey::Admin),
        ensures
            final(self).wf(),
            final(self)@ == old(self)@.init(admin),
    {
        self.admin = Some(admin);
    }

    /// The addresses whose authorization `grant_role` demands for `user`:
    /// the admin, then the user, once the contract is initialized.
    pub fn grant_auths(&self, user: &Address) -> (r: Vec<Address>)
        ensures
            r@ == self@.grant_requests(*user),
    {
        let mut r = Vec::new();
        if let Some(admin) = &self.admin {
            r.push(admin.duplicate());
            r.push(user.duplicate());
        }
        assert(r@ =~= self@.grant_requests(*user));
        r
    }

    /// The addresses whose authorization `revoke_role` demands: the admin,
    /// once the contract is initialized.
    pub fn revoke_auths(&self) -> (r: Vec<Address>)
        ensures
            r@ == self@.revoke_requests(),
    {
        let mut r = Vec::new();
        if let Some(admin) = &self.admin {
            r.push(admin.duplicate());
        }
        assert(r@ =~= self@.revoke_requests());
        r
    }

    /// Grants `role` in organization `org_id` to `user`, who has none there
    /// yet; both the admin and the user must authorize the call.
    pub fn grant_role(&mut self, env: &mut Env, org_id: u32, user: Address, role: Role) -> (r:
        Result<(), ContractError>)
        requires
            old(self).wf(),
            old(env).authorizes_all(old(self)@.grant_requests(user)),
        ensures
            final(self).wf(),
            perm_step(
                old(self)@.grant_role(org_id, user, role),
                r,
                old(self)@,
                final(self)@,
                *old(env),
                *final(env),
                old(self)@.grant_requests(user),
                seq![Event::RoleGranted { org_id, user, role }],
            ),
    {
        let admin = match &self.admin {
            Some(admin) => admin.duplicate(),
            None => return Err(ContractError::StorageFailure),
        };
        assert(self@.grant_requests(user)[0] == admin && self@.grant_requests(user)[1] == user);
        env.require_auth(&admin);
        env.require_auth(&user);
        if self.has(&PermDataKey::Role(org_id, user.duplicate())) {
            return Err(ContractError::AlreadyExists);
        }
        self.roles.insert((org_id, user.duplicate()), role);
        events::role_granted(env, org_id, &user, &role);
        Ok(())
    }

    /// Revokes the role of `user` in organization `org_id`; the admin must
    /// authorize the call.
    pub fn revoke_role(&mut self, env: &mut Env, org_id: u32, user: Address) -> (r: Result<
        (),
        ContractError,
    >)
        requires
            old(self).wf(),
            old(env).authorizes_all(old(self)@.revoke_requests()),
        ensures
            final(self).wf(),
            perm_step(
                old(self)@.revoke_role(org_id, user),
                r,
                old(self)@,
                final(self)@,
                *old(env),
                *final(env),
                old(self)@.revoke_requests(),
                seq![Event::RoleRevoked { org_id, user }],
            ),
    {
        let admin = match &self.admin {
            Some(admin) => admin.duplicate(),
            None => return Err(ContractError::StorageFailure),
        };
        assert(self@.revoke_requests()[0] == admin);
        env.require_auth(&admin);
        if !self.has(&PermDataKey::Role(org_id, user.duplicate())) {
            return Err(ContractError::NotFound);
        }
        self.roles.remove(&(org_id, user.duplicate()));
        events::role_revoked(env, org_id, &user);
        Ok(())
    }

    /// Puts into the storage a role that the ledger already holds for `user`
    /// in organization `org_id`, so that an invocation starts from the
    /// ledger's state.
    pub fn restore_role(&mut self, org_id: u32, user: Address, role: Role)
        requires
            old(self).wf(),
        ensures
            final(self).wf(),
            final(self)@ == (PermState {
                roles: old(self)@.roles.insert((org_id, user@), role),
                ..old(self)@
            }),
    {
        self.roles.insert((org_id, user), role);
    }

    /// Whether `user` holds, in organization `org_id`, `role` or a more
    /// privileged one.
    pub fn has_role(&self, org_id: u32, user: Address, role: Role) -> (r: bool)
        requires
            self.wf(),
        ensures
            r == self@.has_role(org_id, user, role),
    {
        match self.roles.get(&(org_id, user)) {
            Some(stored) => stored.rank() <= role.rank(),
            None => false,
        }
    }

    /// The role of `user` in organization `org_id`.
    pub fn get_role(&self, org_id: u32, user: Address) -> (r: Result<Role, ContractError>)
        requires
            self.wf(),
        ensures
            r == self@.get_role(org_id, user),
    {
        match self.roles.get(&(org_id, user)) {
            Some(stored) => Ok(*stored),
            None => Err(ContractError::NotFound),
        }
    }
}

/// A granted role is what `get_role` then returns, and `has_role` then
/// holds for exactly that role and the less privileged ones.
pub proof fn lemma_grant_then_read(
    s: PermState,
    org_id: u32,
    user: Address,
    role: Role,
    after: PermState,
    asked: Role,
)
    requires
        s.grant_role(org_id, user, role) == Ok::<PermState, ContractError>(after),
    ensures
        after.get_role(org_id, user) == Ok::<Role, ContractError>(role),
        after.has_role(org_id, user, asked) <==> role.spec_rank() <= asked.spec_rank(),
        s.get_role(org_id, user) == Err::<Role, ContractError>(ContractError::NotFound),
{
}

/// Roles form a hierarchy: a user who passes the check for a role passes
/// the check for every less privileged role; an Owner passes every check,
/// and only an Owner passes the Owner check.
pub proof fn lemma_role_hierarchy(s: PermState, org_id: u32, user: Address, role: Role, weaker: Role)
    ensures
        (s.has_role(org_id, user, role) && role.spec_rank() <= weaker.spec_rank()) ==> s.has_role(
            org_id,
            user,
            weaker,
        ),
        s.get_role(org_id, user) == Ok::<Role, ContractError>(Role::Owner) ==> s.has_role(
            org_id,
            user,
            role,
        ),
        s.has_role(org_id, user, Role::Owner) <==> s.get_role(org_id, user) == Ok::<Role, ContractError>(
            Role::Owner,
        ),
        s.has_role(org_id, user, role) ==> s.has_role(org_id, user, Role::Viewer),
{
}

/// A user without a role passes no check and `get_role` answers
/// `NotFound`; after a revocation the user has no role.
pub proof fn lemma_no_role_no_access(
    s: PermState,
    org_id: u32,
    user: Address,
    role: Role,
)
    ensures
        !s.has(PermDataKey::Role(org_id, user)) ==> {
            &&& !s.has_role(org_id, user, role)
            &&& s.get_role(org_id, user) == Err::<Role, ContractError>(ContractError::NotFound)
        },
        s.revoke_role(org_id, user) matches Ok(after) ==> {
            &&& !after.has(PermDataKey::Role(org_id, user))
            &&& !after.has_role(org_id, user, role)
            &&& after.get_role(org_id, user) == Err::<Role, ContractError>(ContractError::NotFound)
        },
{
}

/// Granting demands the admin's and then the user's authorization,
/// revoking only the admin's; a role is granted once (`AlreadyExists`
/// after) and only a held role can be revoked (`NotFound` otherwise).
pub proof fn lemma_grant_revoke_refusals(
    s: PermState,
    org_id: u32,
    user: Address,
    role: Role,
)
    ensures
        !s.has(PermDataKey::Admin) ==> s.grant_role(org_id, user, role) == Err::<
            PermState,
            ContractError,
        >(ContractError::StorageFailure) && s.revoke_role(org_id, user) == Err::<
            PermState,
            ContractError,
        >(ContractError::StorageFailure),
        s.admin matches Some(admin) ==> s.grant_requests(user) == seq![admin, user]
            && s.revoke_requests() == seq![admin],
        (s.has(PermDataKey::Admin) && s.has(PermDataKey::Role(org_id, user))) ==> s.grant_role(
            org_id,
            user,
            role,
        ) == Err::<PermState, ContractError>(ContractError::AlreadyExists),
        (s.has(PermDataKey::Admin) && !s.has(PermDataKey::Role(org_id, user))) ==> s.revoke_role(
            org_id,
            user,
        ) == Err::<PermState, ContractError>(ContractError::NotFound),
{
}

/// Granting or revoking the role of one user in one organization leaves
/// every other user's roles, in every organization, as they were.
pub proof fn lemma_other_roles_untouched(
    s: PermState,
    org_id: u32,
    user: Address,
    role: Role,
    other_org: u32,
    other_user: Address,
)
    requires
        other_org != org_id || other_user@ != user@,
    ensures
        s.grant_role(org_id, user, role) matches Ok(after) ==> after.get_role(
            other_org,
            other_user,
        ) == s.get_role(other_org, other_user),
        s.revoke_role(org_id, user) matches Ok(after) ==> after.get_role(other_org, other_user)
            == s.get_role(other_org, other_user),
{
}

/// `get_role` reads the stored roles: it returns the role stored for the
/// organization and user, `NotFound` exactly when none is stored; and
/// `has_role` holds exactly when `get_role` finds a role that covers the
/// one asked for.
pub proof fn lemma_reads_storage(s: PermState, org_id: u32, user: Address, role: Role)
    ensures
        s.roles.contains_key((org_id, user@)) ==> s.get_role(org_id, user) == Ok::<Role, ContractError>(
            s.roles[(org_id, user@)],
        ),
        !s.roles.contains_key((org_id, user@)) ==> s.get_role(org_id, user) == Err::<
            Role,
            ContractError,
        >(ContractError::NotFound),
        s.has_role(org_id, user, role) <==> (s.get_role(org_id, user) matches Ok(stored)
            && stored.spec_rank() <= role.spec_rank()),
{
}

/// Granting is owed on an initialized contract to a user without a role in
/// the organization, and revoking to a user with one: each changes only
/// that one role and keeps the admin, so the contract can go on granting
/// and revoking.
pub proof fn lemma_grant_revoke_succeed(
    s: PermState,
    org_id: u32,
    user: Address,
    role: Role,
    other_org: u32,
    other_user: Address,
    other_role: Role,
)
    requires
        s.admin is Some,
    ensures
        !s.roles.contains_key((org_id, user@)) ==> (s.grant_role(org_id, user, role) matches Ok(after)
            && {
            &&& after.roles == s.roles.insert((org_id, user@), role)
            &&& after.admin == s.admin
        }),
        s.roles.contains_key((org_id, user@)) ==> (s.revoke_role(org_id, user) matches Ok(after) && {
            &&& after.roles == s.roles.remove((org_id, user@))
            &&& after.admin == s.admin
            &&& (!after.roles.contains_key((other_org, other_user@))) ==> after.grant_role(
                other_org,
                other_user,
                other_role,
            ) is Ok
        }),
{
}

/// Revoking keeps the admin.
pub proof fn lemma_revoke_keeps_admin(s: PermState, org_id: u32, user: Address)
    ensures
        s.revoke_role(org_id, user) matches Ok(after) ==> after.admin == s.admin,
        s.revoke_role(org_id, user) matches Ok(after) ==> after.roles == s.roles.remove((org_id, user@)),
{
}

/// `has` tells whether the storage holds an entry under the key, and `init`
/// stores the admin and nothing else.
pub proof fn lemma_has_and_init(s: PermState, org_id: u32, user: Address, admin: Address)
    ensures
        s.has(PermDataKey::Admin) <==> s.admin is Some,
        s.has(PermDataKey::Role(org_id, user)) <==> s.roles.contains_key((org_id, user@)),
        s.init(admin).admin == Some(admin),
        s.init(admin).roles == s.roles,
{
}

} // verus!
