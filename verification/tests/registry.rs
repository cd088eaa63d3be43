use astro_orbit::env::Env;
use astro_orbit::errors::ContractError;
use astro_orbit::registry::{RegDataKey, RegistryContract};
use astro_orbit::types::{Address, DeploymentInfo, OrgInfo, ProjectInfo, STATUS_ACTIVE};

fn addr(s: &str) -> Address {
    Address::new(s.to_string())
}

fn setup_env() -> (Env, RegistryContract) {
    let mut env = Env::new();
    let mut client = RegistryContract::new();

    let admin = addr("GADMIN");
    let org_addr = addr("CORG");
    let proj_addr = addr("CPROJ");
    let dep_addr = addr("CDEP");

    env.mock_all_auths();
    client.init(admin, org_addr, proj_addr, dep_addr);

    (env, client)
}

fn make_org_info() -> OrgInfo {
    OrgInfo {
        owner: addr("GORGOWNER"),
        metadata_hash: [0u8; 32],
        created_at: 1000,
        status: STATUS_ACTIVE,
    }
}

fn make_project_info() -> ProjectInfo {
    ProjectInfo {
        org_id: 1,
        project_hash: [1u8; 32],
        created_at: 1000,
        status: STATUS_ACTIVE,
    }
}

fn make_deployment_info() -> DeploymentInfo {
    DeploymentInfo {
        contract_id: [2u8; 32],
        artifact_hash: [3u8; 32],
        version: 1,
        timestamp: 1000,
        network: String::from("testnet"),
    }
}

#[test]
fn test_index_and_lookup_org() {
    let (mut env, mut client) = setup_env();
    let info = make_org_info();

    client.index_org(&mut env, 1, info.clone()).unwrap();
    let retrieved = client.lookup_org(1).unwrap();
    assert_eq!(retrieved.owner, info.owner);
}

#[test]
fn test_index_and_lookup_project() {
    let (mut env, mut client) = setup_env();
    let info = make_project_info();

    client.index_project(&mut env, 1, info).unwrap();
    let retrieved = client.lookup_project(1).unwrap();
    assert_eq!(retrieved.org_id, info.org_id);
}

#[test]
fn test_index_and_lookup_deployment() {
    let (mut env, mut client) = setup_env();
    let info = make_deployment_info();

    client.index_deployment(&mut env, 1, 1, info.clone()).unwrap();
    let retrieved = client.lookup_deployment(1, 1).unwrap();
    assert_eq!(retrieved.version, info.version);
}

#[test]
fn test_lookup_org_not_found() {
    let (_env, client) = setup_env();
    let result = client.lookup_org(999);
    assert!(result.is_err());
}

#[test]
fn test_lookup_project_not_found() {
    let (_env, client) = setup_env();
    let result = client.lookup_project(999);
    assert!(result.is_err());
}

#[test]
fn registry_lookup_returns_whole_record_and_last_index_wins() {
    let (mut env, mut client) = setup_env();
    let first = make_org_info();
    client.index_org(&mut env, 1, first.clone()).unwrap();
    assert_eq!(client.lookup_org(1), Ok(first.clone()));
    let second = OrgInfo { status: 1, ..first };
    client.index_org(&mut env, 1, second.clone()).unwrap();
    assert_eq!(client.lookup_org(1), Ok(second));
    assert_eq!(client.lookup_deployment(1, 1), Err(ContractError::NotFound));
}

#[test]
fn registry_deployment_count_tracks_highest_version() {
    let (mut env, mut client) = setup_env();
    assert_eq!(client.deployment_count(1), 0);
    client.index_deployment(&mut env, 1, 1, make_deployment_info()).unwrap();
    assert_eq!(client.deployment_count(1), 1);
    let (mut env, mut client) = setup_env();
    assert!(!client.has(&RegDataKey::DeploymentCount(1)));
    client.index_deployment(&mut env, 1, 5, make_deployment_info()).unwrap();
    assert!(client.has(&RegDataKey::DeploymentCount(1)));
    client.index_deployment(&mut env, 1, 3, make_deployment_info()).unwrap();
    assert!(client.has(&RegDataKey::DeploymentIndex(1, 5)));
    assert!(client.has(&RegDataKey::DeploymentIndex(1, 3)));
    assert!(!client.has(&RegDataKey::DeploymentIndex(1, 4)));
    assert_eq!(client.deployment_count(1), 5);
    assert_eq!(client.deployment_count(2), 0);
    assert_eq!(client.lookup_deployment(1, 4), Err(ContractError::NotFound));
}

#[test]
fn registry_refusals() {
    let mut env = Env::new();
    env.mock_all_auths();
    let mut fresh = RegistryContract::new();
    assert!(!fresh.has(&RegDataKey::Config));
    assert_eq!(fresh.index_org(&mut env, 1, make_org_info()), Err(ContractError::StorageFailure));
    assert_eq!(fresh.index_project(&mut env, 1, make_project_info()), Err(ContractError::StorageFailure));
    assert_eq!(
        fresh.index_deployment(&mut env, 1, 1, make_deployment_info()),
        Err(ContractError::StorageFailure)
    );

    let (mut env, mut client) = setup_env();
    assert!(fresh.index_auths().is_empty());
    env.set_auths(vec![addr("GNOTADMIN")]);
    assert_eq!(client.index_auths(), vec![addr("GADMIN")]);
    assert_eq!(env.missing_auth(&client.index_auths()), Some(addr("GADMIN")));
    assert_eq!(client.lookup_org(1), Err(ContractError::NotFound));
    env.set_auths(vec![addr("GADMIN")]);
    assert_eq!(client.index_org(&mut env, 1, make_org_info()), Ok(()));
}

#[test]
fn registry_requires_admin_auth_and_publishes_nothing() {
    let (mut env, mut client) = setup_env();
    client.index_org(&mut env, 1, make_org_info()).unwrap();
    client.index_project(&mut env, 1, make_project_info()).unwrap();
    assert_eq!(env.auth_requests, vec![addr("GADMIN"), addr("GADMIN")]);
    assert!(env.events.is_empty());
}

#[test]
fn registry_restored_entries_are_looked_up() {
    let mut client = RegistryContract::new();
    client.restore_org(3, make_org_info());
    client.restore_project(4, make_project_info());
    client.restore_deployment(4, 2, make_deployment_info());
    client.restore_count(4, 2);
    assert_eq!(client.lookup_org(3), Ok(make_org_info()));
    assert_eq!(client.lookup_project(4), Ok(make_project_info()));
    assert_eq!(client.lookup_deployment(4, 2), Ok(make_deployment_info()));
    assert_eq!(client.deployment_count(4), 2);
}
