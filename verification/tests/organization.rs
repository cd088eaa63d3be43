use astro_orbit::env::{Env, Event};
use astro_orbit::errors::ContractError;
use astro_orbit::organization::{OrgDataKey, OrganizationContract};
use astro_orbit::types::{Address, STATUS_ACTIVE, STATUS_ARCHIVED};

fn addr(s: &str) -> Address {
    Address::new(s.to_string())
}

fn setup_env() -> (Env, OrganizationContract, Address) {
    let mut env = Env::new();
    let mut client = OrganizationContract::new();
    let owner = addr("GOWNER");
    env.mock_all_auths();
    client.init(owner.clone());
    (env, client, owner)
}

fn hash() -> [u8; 32] {
    [0u8; 32]
}

fn create_org(env: &mut Env, client: &mut OrganizationContract, id: u32, _owner: &Address) {
    env.mock_all_auths();
    client.create(env, id, hash()).unwrap();
}

#[test]
fn test_create() {
    let (mut env, mut client, owner) = setup_env();
    create_org(&mut env, &mut client, 1, &owner);
    let org = client.get(1).unwrap();
    assert_eq!(org.status, 0);
    assert_eq!(org.owner, owner);
}

#[test]
fn test_create_duplicate() {
    let (mut env, mut client, owner) = setup_env();
    create_org(&mut env, &mut client, 1, &owner);
    let result = client.create(&mut env, 1, hash());
    assert!(result.is_err());
}

#[test]
fn test_test_get() {
    let (mut env, mut client, owner) = setup_env();
    create_org(&mut env, &mut client, 1, &owner);
    let org = client.get(1).unwrap();
    assert_eq!(org.status, 0);
}

#[test]
fn test_test_get_not_found() {
    let (_env, _client, _owner) = setup_env();
    let client = OrganizationContract::new();
    let result = client.get(999);
    assert!(result.is_err());
}

#[test]
fn test_transfer() {
    let (mut env, mut client, owner) = setup_env();
    create_org(&mut env, &mut client, 1, &owner);
    let new_owner = addr("GNEWOWNER");
    env.mock_all_auths();
    client.transfer(&mut env, 1, new_owner.clone()).unwrap();
    let org = client.get(1).unwrap();
    assert_eq!(org.owner, new_owner);
}

#[test]
fn test_transfer_unauthorized() {
    let (mut env, mut client, _owner) = setup_env();
    client.create(&mut env, 1, hash()).unwrap();

    // No authorization at all from now on.
    env.set_auths(vec![]);

    // The ledger aborts an invocation that lacks an authorization that the
    // entry point demands; only an admitted invocation runs.
    let unauthorized = addr("GUNAUTHORIZED");
    let result = match env.missing_auth(&client.edit_auths(1)) {
        Some(missing) => Err(missing),
        None => Ok(client.transfer(&mut env, 1, unauthorized)),
    };
    assert!(result.is_err());
}

#[test]
fn test_test_archive() {
    let (mut env, mut client, owner) = setup_env();
    create_org(&mut env, &mut client, 1, &owner);
    client.archive(&mut env, 1).unwrap();
    let org = client.get(1).unwrap();
    assert_eq!(org.status, 1);
}

#[test]
fn test_update_metadata() {
    let (mut env, mut client, owner) = setup_env();
    create_org(&mut env, &mut client, 1, &owner);
    let new_hash = [1u8; 32];
    client.update_metadata(&mut env, 1, new_hash).unwrap();
    let org = client.get(1).unwrap();
    assert_eq!(org.metadata_hash, new_hash);
}

#[test]
fn org_create_records_timestamp_hash_and_event() {
    let (mut env, mut client, owner) = setup_env();
    env.timestamp = 1234;
    let org = client.create(&mut env, 7, [9u8; 32]).unwrap();
    assert_eq!(org.created_at, 1234);
    assert_eq!(org.metadata_hash, [9u8; 32]);
    assert_eq!(org.status, STATUS_ACTIVE);
    assert_eq!(client.get(7).unwrap(), org);
    assert_eq!(env.events, vec![Event::OrgCreated { org_id: 7, owner: owner.clone() }]);
    assert!(client.has(&OrgDataKey::Org(7)));
    assert!(!client.has(&OrgDataKey::Org(8)));
    assert!(client.has(&OrgDataKey::Config));
}

#[test]
fn org_duplicate_is_already_exists_and_changes_nothing() {
    let (mut env, mut client, owner) = setup_env();
    create_org(&mut env, &mut client, 1, &owner);
    let before = client.get(1).unwrap();
    let events_before = env.events.len();
    assert_eq!(client.create(&mut env, 1, [5u8; 32]), Err(ContractError::AlreadyExists));
    assert_eq!(client.get(1).unwrap(), before);
    assert_eq!(env.events.len(), events_before);
}

#[test]
fn org_uninitialized_create_is_storage_failure() {
    let mut env = Env::new();
    env.mock_all_auths();
    let mut client = OrganizationContract::new();
    assert!(!client.has(&OrgDataKey::Config));
    assert_eq!(client.create(&mut env, 1, hash()), Err(ContractError::StorageFailure));
    assert_eq!(client.get(1), Err(ContractError::NotFound));
}

#[test]
fn org_create_demands_owner_auth() {
    let (mut env, client, owner) = setup_env();
    assert_eq!(client.create_auths(), vec![owner.clone()]);
    env.set_auths(vec![addr("GSOMEONEELSE")]);
    assert_eq!(env.missing_auth(&client.create_auths()), Some(owner));
    assert_eq!(client.get(1), Err(ContractError::NotFound));
    assert!(env.events.is_empty());
    let fresh = OrganizationContract::new();
    assert!(fresh.create_auths().is_empty());
}

#[test]
fn org_only_named_signer_is_authorized() {
    let (mut env, mut client, owner) = setup_env();
    env.set_auths(vec![addr("GOTHER"), owner.clone()]);
    assert_eq!(env.missing_auth(&client.create_auths()), None);
    assert!(client.create(&mut env, 3, hash()).is_ok());
}

#[test]
fn org_transfer_hands_over_control() {
    let (mut env, mut client, owner) = setup_env();
    create_org(&mut env, &mut client, 1, &owner);
    let new_owner = addr("GNEW");
    let org = client.transfer(&mut env, 1, new_owner.clone()).unwrap();
    assert_eq!(org.owner, new_owner);
    assert_eq!(org.metadata_hash, hash());
    assert_eq!(
        env.events.last().unwrap(),
        &Event::OrgTransferred { org_id: 1, old_owner: owner.clone(), new_owner: new_owner.clone() }
    );
    // The former owner alone no longer may act on it.
    assert_eq!(client.edit_auths(1), vec![new_owner.clone()]);
    env.set_auths(vec![owner.clone()]);
    assert_eq!(env.missing_auth(&client.edit_auths(1)), Some(new_owner.clone()));
    // The new owner may.
    env.set_auths(vec![new_owner.clone()]);
    assert_eq!(env.missing_auth(&client.edit_auths(1)), None);
    assert_eq!(client.update_metadata(&mut env, 1, [3u8; 32]).unwrap().metadata_hash, [3u8; 32]);
}

#[test]
fn org_archived_is_final() {
    let (mut env, mut client, owner) = setup_env();
    create_org(&mut env, &mut client, 1, &owner);
    let archived = client.archive(&mut env, 1).unwrap();
    assert_eq!(archived.status, STATUS_ARCHIVED);
    assert_eq!(env.events.last().unwrap(), &Event::OrgArchived { org_id: 1 });
    assert_eq!(client.archive(&mut env, 1), Err(ContractError::InvalidOrganization));
    assert_eq!(client.transfer(&mut env, 1, addr("GX")), Err(ContractError::InvalidOrganization));
    assert_eq!(client.update_metadata(&mut env, 1, [2u8; 32]), Err(ContractError::InvalidOrganization));
    assert_eq!(client.get(1).unwrap().status, STATUS_ARCHIVED);
}

#[test]
fn org_missing_is_not_found_for_every_edit() {
    let (mut env, mut client, _owner) = setup_env();
    assert_eq!(client.transfer(&mut env, 4, addr("GX")), Err(ContractError::NotFound));
    assert_eq!(client.update_metadata(&mut env, 4, hash()), Err(ContractError::NotFound));
    assert_eq!(client.archive(&mut env, 4), Err(ContractError::NotFound));
}

#[test]
fn org_edits_leave_other_orgs_untouched() {
    let (mut env, mut client, owner) = setup_env();
    create_org(&mut env, &mut client, 1, &owner);
    create_org(&mut env, &mut client, 2, &owner);
    let second = client.get(2).unwrap();
    client.archive(&mut env, 1).unwrap();
    client.transfer(&mut env, 1, addr("GNEW")).unwrap_err();
    assert_eq!(client.get(2).unwrap(), second);
}

#[test]
fn org_update_metadata_publishes_nothing() {
    let (mut env, mut client, owner) = setup_env();
    create_org(&mut env, &mut client, 1, &owner);
    let n = env.events.len();
    client.update_metadata(&mut env, 1, [8u8; 32]).unwrap();
    assert_eq!(env.events.len(), n);
}

#[test]
fn org_requests_the_owners_authorization() {
    let (mut env, mut client, owner) = setup_env();
    client.create(&mut env, 1, hash()).unwrap();
    assert_eq!(env.auth_requests, vec![owner.clone()]);
    let new_owner = addr("GNEW");
    client.transfer(&mut env, 1, new_owner.clone()).unwrap();
    client.archive(&mut env, 1).unwrap();
    assert_eq!(env.auth_requests, vec![owner.clone(), owner, new_owner]);
    // An unknown organization asks nobody.
    let mut env2 = Env::new();
    env2.mock_all_auths();
    assert_eq!(client.archive(&mut env2, 9), Err(ContractError::NotFound));
    assert!(env2.auth_requests.is_empty());
}

#[test]
fn org_restored_record_is_the_starting_state() {
    let mut client = OrganizationContract::new();
    let owner = addr("GOWNER");
    client.init(owner.clone());
    let stored = astro_orbit::types::OrgInfo {
        owner: owner.clone(),
        metadata_hash: [6u8; 32],
        created_at: 10,
        status: STATUS_ARCHIVED,
    };
    client.restore_org(2, stored.clone());
    assert_eq!(client.get(2), Ok(stored));
    let mut env = Env::new();
    env.mock_all_auths();
    assert_eq!(client.create(&mut env, 2, hash()), Err(ContractError::AlreadyExists));
    assert_eq!(client.archive(&mut env, 2), Err(ContractError::InvalidOrganization));
}
