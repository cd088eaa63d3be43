use astro_orbit::env::{Env, Event};
use astro_orbit::errors::ContractError;
use astro_orbit::project::{ProjDataKey, ProjectContract};
use astro_orbit::types::{Address, ProjectInfo, STATUS_ACTIVE, STATUS_ARCHIVED};

fn addr(s: &str) -> Address {
    Address::new(s.to_string())
}

fn setup_env() -> (Env, ProjectContract, Address) {
    let mut env = Env::new();
    let mut client = ProjectContract::new();
    let admin = addr("GADMIN");
    env.mock_all_auths();
    client.init(admin.clone());
    (env, client, admin)
}

#[test]
fn test_register() {
    let (mut env, mut client, _admin) = setup_env();
    let h = [0u8; 32];
    let project = client.register(&mut env, 1, 1, h).unwrap();
    assert_eq!(project.status, 0);
    assert_eq!(project.org_id, 1);
}

#[test]
fn test_project_get() {
    let (mut env, mut client, _admin) = setup_env();
    let h = [0u8; 32];
    client.register(&mut env, 1, 1, h).unwrap();
    let project = client.get(1).unwrap();
    assert_eq!(project.status, 0);
}

#[test]
fn test_project_get_not_found() {
    let (_env, _client, _admin) = setup_env();
    let client = ProjectContract::new();
    let result = client.get(999);
    assert!(result.is_err());
}

#[test]
fn test_project_archive() {
    let (mut env, mut client, _admin) = setup_env();
    let h = [0u8; 32];
    client.register(&mut env, 1, 1, h).unwrap();
    client.archive(&mut env, 1).unwrap();
    let project = client.get(1).unwrap();
    assert_eq!(project.status, 1);
}

#[test]
fn test_register_duplicate() {
    let (mut env, mut client, _admin) = setup_env();
    let h = [0u8; 32];
    client.register(&mut env, 1, 1, h).unwrap();
    let result = client.register(&mut env, 1, 1, h);
    assert!(result.is_err());
}

#[test]
fn project_register_stores_record_and_event() {
    let (mut env, mut client, _admin) = setup_env();
    env.timestamp = 77;
    let project = client.register(&mut env, 5, 9, [4u8; 32]).unwrap();
    assert_eq!(
        project,
        ProjectInfo { org_id: 9, project_hash: [4u8; 32], created_at: 77, status: STATUS_ACTIVE }
    );
    assert_eq!(client.get(5), Ok(project));
    assert_eq!(env.events, vec![Event::ProjectCreated { project_id: 5, org_id: 9 }]);
    assert!(client.has(&ProjDataKey::Project(5)));
    assert!(client.has(&ProjDataKey::Config));
}

#[test]
fn project_register_duplicate_is_already_exists() {
    let (mut env, mut client, _admin) = setup_env();
    client.register(&mut env, 1, 1, [0u8; 32]).unwrap();
    assert_eq!(client.register(&mut env, 1, 2, [1u8; 32]), Err(ContractError::AlreadyExists));
    assert_eq!(client.get(1).unwrap().org_id, 1);
}

#[test]
fn project_archive_twice_is_invalid() {
    let (mut env, mut client, _admin) = setup_env();
    client.register(&mut env, 1, 1, [0u8; 32]).unwrap();
    let archived = client.archive(&mut env, 1).unwrap();
    assert_eq!(archived.status, STATUS_ARCHIVED);
    assert_eq!(env.events.last().unwrap(), &Event::ProjectArchived { project_id: 1 });
    assert_eq!(client.archive(&mut env, 1), Err(ContractError::InvalidOrganization));
}

#[test]
fn project_refusals() {
    let mut env = Env::new();
    env.mock_all_auths();
    let mut fresh = ProjectContract::new();
    assert_eq!(fresh.register(&mut env, 1, 1, [0u8; 32]), Err(ContractError::StorageFailure));
    assert_eq!(fresh.archive(&mut env, 1), Err(ContractError::StorageFailure));

    let (mut env, mut client, admin) = setup_env();
    assert_eq!(client.archive(&mut env, 3), Err(ContractError::NotFound));
    client.register(&mut env, 3, 1, [0u8; 32]).unwrap();
    assert!(client.archive_auths(4).is_empty());
    assert_eq!(client.register_auths(), vec![admin.clone()]);
    assert_eq!(client.archive_auths(3), vec![admin.clone()]);
    env.set_auths(vec![addr("GNOTADMIN")]);
    assert_eq!(env.missing_auth(&client.register_auths()), Some(admin.clone()));
    assert_eq!(env.missing_auth(&client.archive_auths(3)), Some(admin.clone()));
    env.set_auths(vec![admin]);
    assert!(client.archive(&mut env, 3).is_ok());
}

#[test]
fn project_restored_record_is_the_starting_state() {
    let (mut env, mut client, admin) = setup_env();
    let stored = ProjectInfo { org_id: 2, project_hash: [1u8; 32], created_at: 5, status: STATUS_ARCHIVED };
    client.restore_project(6, stored);
    assert_eq!(client.get(6), Ok(stored));
    assert_eq!(client.archive(&mut env, 6), Err(ContractError::InvalidOrganization));
    assert_eq!(env.auth_requests, vec![admin]);
}
