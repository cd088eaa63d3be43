use astro_orbit::env::{Env, Event};
use astro_orbit::errors::ContractError;
use astro_orbit::permissions::{PermDataKey, PermissionsContract};
use astro_orbit::types::{Address, Role};

fn addr(s: &str) -> Address {
    Address::new(s.to_string())
}

fn setup_env() -> (Env, PermissionsContract, Address) {
    let mut env = Env::new();
    let mut client = PermissionsContract::new();
    let admin = addr("GADMIN");
    env.mock_all_auths();
    client.init(admin.clone());
    (env, client, admin)
}

#[test]
fn test_grant_role() {
    let (mut env, mut client, _admin) = setup_env();
    let user = addr("GUSER");

    env.mock_all_auths();
    client.grant_role(&mut env, 1, user.clone(), Role::Developer).unwrap();

    let role = client.get_role(1, user).unwrap();
    assert_eq!(role, Role::Developer);
}

#[test]
fn test_has_role() {
    let (mut env, mut client, _admin) = setup_env();
    let user = addr("GUSER");

    env.mock_all_auths();
    client.grant_role(&mut env, 1, user.clone(), Role::Viewer).unwrap();

    assert!(client.has_role(1, user.clone(), Role::Viewer));
    assert!(!client.has_role(1, user, Role::Admin));
}

#[test]
fn test_revoke_role() {
    let (mut env, mut client, _admin) = setup_env();
    let user = addr("GUSER");

    env.mock_all_auths();
    client.grant_role(&mut env, 1, user.clone(), Role::Developer).unwrap();
    client.revoke_role(&mut env, 1, user.clone()).unwrap();

    let has = client.has_role(1, user, Role::Developer);
    assert!(!has);
}

#[test]
fn test_revoke_not_found() {
    let (mut env, _client, _admin) = setup_env();
    let mut client = PermissionsContract::new();
    let user = addr("GUSER");

    let result = client.revoke_role(&mut env, 1, user);
    assert!(result.is_err());
}

#[test]
fn test_get_role_not_found() {
    let (_env, client, _admin) = setup_env();
    let user = addr("GUSER");

    let result = client.get_role(1, user);
    assert!(result.is_err());
}

#[test]
fn test_grant_duplicate() {
    let (mut env, mut client, _admin) = setup_env();
    let user = addr("GUSER");

    env.mock_all_auths();
    client.grant_role(&mut env, 1, user.clone(), Role::Developer).unwrap();

    let result = client.grant_role(&mut env, 1, user, Role::Admin);
    assert!(result.is_err());
}

#[test]
fn test_hierarchy() {
    let (mut env, mut client, _admin) = setup_env();
    let owner = addr("GOWNER");
    let admin = addr("GADMIN2");
    let dev = addr("GDEV");

    env.mock_all_auths();
    client.grant_role(&mut env, 1, owner.clone(), Role::Owner).unwrap();
    client.grant_role(&mut env, 1, admin.clone(), Role::Admin).unwrap();
    client.grant_role(&mut env, 1, dev.clone(), Role::Developer).unwrap();

    assert!(client.has_role(1, owner.clone(), Role::Viewer));
    assert!(client.has_role(1, owner, Role::Owner));
    assert!(!client.has_role(1, dev, Role::Admin));
}

#[test]
fn perm_role_ranks() {
    assert_eq!(Role::Owner.rank(), 0);
    assert_eq!(Role::Admin.rank(), 1);
    assert_eq!(Role::Developer.rank(), 2);
    assert_eq!(Role::Viewer.rank(), 3);
}

#[test]
fn perm_grant_and_revoke_publish_events() {
    let (mut env, mut client, _admin) = setup_env();
    let user = addr("GUSER");
    client.grant_role(&mut env, 3, user.clone(), Role::Admin).unwrap();
    client.revoke_role(&mut env, 3, user.clone()).unwrap();
    assert_eq!(
        env.events,
        vec![
            Event::RoleGranted { org_id: 3, user: user.clone(), role: Role::Admin },
            Event::RoleRevoked { org_id: 3, user: user.clone() },
        ]
    );
    assert_eq!(client.get_role(3, user.clone()), Err(ContractError::NotFound));
    assert!(!client.has(&PermDataKey::Role(3, user)));
}

#[test]
fn perm_user_without_role_has_none() {
    let (_env, client, _admin) = setup_env();
    let nobody = addr("GNOBODY");
    assert!(!client.has_role(1, nobody.clone(), Role::Viewer));
    assert!(!client.has_role(1, nobody, Role::Owner));
}

#[test]
fn perm_roles_are_per_org_and_user() {
    let (mut env, mut client, _admin) = setup_env();
    let user = addr("GUSER");
    let other = addr("GOTHER");
    client.grant_role(&mut env, 1, user.clone(), Role::Owner).unwrap();
    client.grant_role(&mut env, 2, user.clone(), Role::Viewer).unwrap();
    client.grant_role(&mut env, 1, other.clone(), Role::Developer).unwrap();
    assert_eq!(client.get_role(1, user.clone()), Ok(Role::Owner));
    assert_eq!(client.get_role(2, user.clone()), Ok(Role::Viewer));
    assert!(!client.has_role(2, user.clone(), Role::Developer));
    client.revoke_role(&mut env, 1, user.clone()).unwrap();
    assert_eq!(client.get_role(2, user), Ok(Role::Viewer));
    assert_eq!(client.get_role(1, other), Ok(Role::Developer));
}

#[test]
fn perm_grant_needs_admin_and_user_auth() {
    let (mut env, mut client, admin) = setup_env();
    let user = addr("GUSER");
    assert_eq!(client.grant_auths(&user), vec![admin.clone(), user.clone()]);
    env.set_auths(vec![admin.clone()]);
    assert_eq!(env.missing_auth(&client.grant_auths(&user)), Some(user.clone()));
    env.set_auths(vec![user.clone()]);
    assert_eq!(env.missing_auth(&client.grant_auths(&user)), Some(admin.clone()));
    env.set_auths(vec![admin.clone(), user.clone()]);
    assert_eq!(env.missing_auth(&client.grant_auths(&user)), None);
    assert_eq!(client.grant_role(&mut env, 1, user.clone(), Role::Viewer), Ok(()));
    // Revoking needs the admin's authorization only.
    assert_eq!(client.revoke_auths(), vec![admin.clone()]);
    env.set_auths(vec![user.clone()]);
    assert_eq!(env.missing_auth(&client.revoke_auths()), Some(admin.clone()));
    env.set_auths(vec![admin]);
    assert_eq!(env.missing_auth(&client.revoke_auths()), None);
    assert_eq!(client.revoke_role(&mut env, 1, user), Ok(()));
}

#[test]
fn perm_uninitialized_and_missing() {
    let mut env = Env::new();
    env.mock_all_auths();
    let mut fresh = PermissionsContract::new();
    let user = addr("GUSER");
    assert!(!fresh.has(&PermDataKey::Admin));
    assert_eq!(fresh.grant_role(&mut env, 1, user.clone(), Role::Viewer), Err(ContractError::StorageFailure));
    assert_eq!(fresh.revoke_role(&mut env, 1, user.clone()), Err(ContractError::StorageFailure));

    let (mut env, mut client, _admin) = setup_env();
    assert_eq!(client.revoke_role(&mut env, 1, user.clone()), Err(ContractError::NotFound));
    client.grant_role(&mut env, 1, user.clone(), Role::Developer).unwrap();
    assert_eq!(client.grant_role(&mut env, 1, user.clone(), Role::Owner), Err(ContractError::AlreadyExists));
    assert_eq!(client.get_role(1, user), Ok(Role::Developer));
}

#[test]
fn perm_grant_requests_admin_then_user() {
    let (mut env, mut client, admin) = setup_env();
    let user = addr("GUSER");
    client.grant_role(&mut env, 1, user.clone(), Role::Viewer).unwrap();
    assert_eq!(env.auth_requests, vec![admin.clone(), user.clone()]);
    client.revoke_role(&mut env, 1, user.clone()).unwrap();
    assert_eq!(env.auth_requests, vec![admin.clone(), user.clone(), admin]);
}

#[test]
fn perm_restored_role_is_the_starting_state() {
    let mut client = PermissionsContract::new();
    let user = addr("GUSER");
    client.restore_role(5, user.clone(), Role::Admin);
    assert_eq!(client.get_role(5, user.clone()), Ok(Role::Admin));
    assert!(client.has_role(5, user.clone(), Role::Developer));
    assert!(!client.has_role(5, user, Role::Owner));
}
