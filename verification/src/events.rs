use vstd::prelude::*;

use crate::env::{Env, Event};
use crate::types::{Address, Role};

verus! {

/// Publishes that organization `org_id` was created for `owner`.
pub fn org_created(env: &mut Env, org_id: u32, owner: &Address)
    ensures
        old(env).publishes(*final(env), seq![Event::OrgCreated { org_id, owner: *owner }]),
{
    env.events.push(Event::OrgCreated { org_id, owner: owner.duplicate() });
}

/// Publishes that organization `org_id` passed from `old_owner` to `new_owner`.
pub fn org_transferred(env: &mut Env, org_id: u32, old_owner: &Address, new_owner: &Address)
    ensures
        old(env).publishes(
            *final(env),
            seq![Event::OrgTransferred { org_id, old_owner: *old_owner, new_owner: *new_owner }],
        ),
{
    env.events.push(
        Event::OrgTransferred {
            org_id,
            old_owner: old_owner.duplicate(),
            new_owner: new_owner.duplicate(),
        },
    );
}

/// Publishes that organization `org_id` was archived.
pub fn org_archived(env: &mut Env, org_id: u32)
    ensures
        old(env).publishes(*final(env), seq![Event::OrgArchived { org_id }]),
{
    env.events.push(Event::OrgArchived { org_id });
}

/// Publishes that project `project_id` was created under `org_id`.
pub fn project_created(env: &mut Env, project_id: u32, org_id: u32)
    ensures
        old(env).publishes(*final(env), seq![Event::ProjectCreated { project_id, org_id }]),
{
    env.events.push(Event::ProjectCreated { project_id, org_id });
}

/// Publishes that project `project_id` was archived.
pub fn project_archived(env: &mut Env, project_id: u32)
    ensures
        old(env).publishes(*final(env), seq![Event::ProjectArchived { project_id }]),
{
    env.events.push(Event::ProjectArchived { project_id });
}

/// Publishes that `version` of project `project_id` was recorded.
pub fn deployment_recorded(env: &mut Env, project_id: u32, version: u32)
    ensures
        old(env).publishes(*final(env), seq![Event::DeploymentRecorded { project_id, version }]),
{
    env.events.push(Event::DeploymentRecorded { project_id, version });
}

/// Publishes that `user` was granted `role` in organization `org_id`.
pub fn role_granted(env: &mut Env, org_id: u32, user: &Address, role: &Role)
    ensures
        old(env).publishes(*final(env), seq![Event::RoleGranted { org_id, user: *user, role: *role }]),
{
    env.events.push(Event::RoleGranted { org_id, user: user.duplicate(), role: *role });
}

/// Publishes that `user`'s role in organization `org_id` was revoked.
pub fn role_revoked(env: &mut Env, org_id: u32, user: &Address)
    ensures
        old(env).publishes(*final(env), seq![Event::RoleRevoked { org_id, user: *user }]),
{
    env.events.push(Event::RoleRevoked { org_id, user: user.duplicate() });
}

} // verus!
