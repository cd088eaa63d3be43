use astro_orbit::deployment::{DepDataKey, DeploymentContract};
use astro_orbit::env::{Env, Event};
use astro_orbit::errors::ContractError;
use astro_orbit::types::Address;

fn addr(s: &str) -> Address {
    Address::new(s.to_string())
}

fn setup_env() -> (Env, DeploymentContract, Address) {
    let mut env = Env::new();
    let mut client = DeploymentContract::new();
    let admin = addr("GADMIN");
    env.mock_all_auths();
    client.init(admin.clone());
    (env, client, admin)
}

#[test]
fn test_record() {
    let (mut env, mut client, _admin) = setup_env();
    let cid = [2u8; 32];
    let ah = [3u8; 32];
    let net = String::from("testnet");

    let dep = client.record(&mut env, 1, cid, ah, net.clone()).unwrap();
    assert_eq!(dep.version, 1);
    assert_eq!(dep.network, net);
}

#[test]
fn test_get() {
    let (mut env, mut client, _admin) = setup_env();
    let cid = [2u8; 32];
    let ah = [3u8; 32];
    let net = String::from("testnet");

    client.record(&mut env, 1, cid, ah, net).unwrap();
    let dep = client.get(1, 1).unwrap();
    assert_eq!(dep.version, 1);
}

#[test]
fn test_get_not_found() {
    let (_env, _client, _admin) = setup_env();
    let client = DeploymentContract::new();
    let result = client.get(999, 1);
    assert!(result.is_err());
}

#[test]
fn test_count() {
    let (mut env, mut client, _admin) = setup_env();
    let cid = [2u8; 32];
    let ah = [3u8; 32];
    let net = String::from("testnet");

    assert_eq!(client.count(1), 0);
    client.record(&mut env, 1, cid, ah, net.clone()).unwrap();
    assert_eq!(client.count(1), 1);
    client.record(&mut env, 1, cid, ah, net).unwrap();
    assert_eq!(client.count(1), 2);
}

#[test]
fn test_multiple_versions() {
    let (mut env, mut client, _admin) = setup_env();
    let cid = [2u8; 32];
    let net = String::from("testnet");

    let ah1 = [10u8; 32];
    let dep1 = client.record(&mut env, 1, cid, ah1, net.clone()).unwrap();
    assert_eq!(dep1.version, 1);

    let ah2 = [20u8; 32];
    let dep2 = client.record(&mut env, 1, cid, ah2, net).unwrap();
    assert_eq!(dep2.version, 2);

    let dep1_read = client.get(1, 1).unwrap();
    assert_eq!(dep1_read.artifact_hash, ah1);

    let dep2_read = client.get(1, 2).unwrap();
    assert_eq!(dep2_read.artifact_hash, ah2);
}

#[test]
fn deployment_record_stamps_time_and_publishes() {
    let (mut env, mut client, _admin) = setup_env();
    env.timestamp = 500;
    let dep = client.record(&mut env, 4, [1u8; 32], [2u8; 32], String::from("mainnet")).unwrap();
    assert_eq!(dep.timestamp, 500);
    assert_eq!(dep.contract_id, [1u8; 32]);
    assert_eq!(env.events, vec![Event::DeploymentRecorded { project_id: 4, version: 1 }]);
    assert!(client.has(&DepDataKey::Deployment(4, 1)));
    assert!(client.has(&DepDataKey::DeploymentCount(4)));
    assert!(!client.has(&DepDataKey::Deployment(4, 2)));
}

#[test]
fn deployment_counts_are_per_project() {
    let (mut env, mut client, _admin) = setup_env();
    let net = String::from("testnet");
    client.record(&mut env, 1, [0u8; 32], [0u8; 32], net.clone()).unwrap();
    client.record(&mut env, 1, [0u8; 32], [0u8; 32], net.clone()).unwrap();
    let other = client.record(&mut env, 2, [0u8; 32], [0u8; 32], net).unwrap();
    assert_eq!(other.version, 1);
    assert_eq!(client.count(1), 2);
    assert_eq!(client.count(2), 1);
    assert_eq!(client.count(3), 0);
    assert_eq!(client.get(1, 3), Err(ContractError::NotFound));
    assert_eq!(client.get(1, 0), Err(ContractError::NotFound));
}

#[test]
fn deployment_refusals() {
    let mut env = Env::new();
    env.mock_all_auths();
    let mut fresh = DeploymentContract::new();
    assert!(!fresh.has(&DepDataKey::Config));
    assert_eq!(
        fresh.record(&mut env, 1, [0u8; 32], [0u8; 32], String::from("testnet")),
        Err(ContractError::StorageFailure)
    );

    assert!(fresh.record_auths().is_empty());

    // Without the admin's authorization the ledger aborts the call, so it
    // never runs.
    let (mut env, client, admin) = setup_env();
    env.set_auths(vec![]);
    assert_eq!(client.record_auths(), vec![admin.clone()]);
    assert_eq!(env.missing_auth(&client.record_auths()), Some(admin));
    assert_eq!(client.count(1), 0);
    assert!(env.events.is_empty());
}

#[test]
fn deployment_restored_count_sets_next_version() {
    let (mut env, mut client, admin) = setup_env();
    client.restore_count(8, 41);
    client.restore_deployment(8, 41, client_record());
    let dep = client.record(&mut env, 8, [0u8; 32], [0u8; 32], String::from("futurenet")).unwrap();
    assert_eq!(dep.version, 42);
    assert_eq!(client.count(8), 42);
    assert_eq!(client.get(8, 41), Ok(client_record()));
    assert_eq!(env.auth_requests, vec![admin]);
}

fn client_record() -> astro_orbit::types::DeploymentInfo {
    astro_orbit::types::DeploymentInfo {
        contract_id: [7u8; 32],
        artifact_hash: [8u8; 32],
        version: 41,
        timestamp: 3,
        network: String::from("testnet"),
    }
}
