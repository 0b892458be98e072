use bubble_server::{
    ApiError, CheckMessages, CreateClient, CreateUser, Message,
    ReplaceKeyPackages, SendMessage, Store, UpdateClient,
};
use ed25519_dalek::{Signer, SigningKey};
use uuid::Uuid;

const USER_A: u128 = 0x1111_2222_3333_4444_5555_6666_7777_8888;
const USER_B: u128 = 0x9999_aaaa_bbbb_cccc_dddd_eeee_ffff_0000;
const TOKEN_A: u128 = 0x0123_4567_89ab_cdef_0123_4567_89ab_cdef;
const TOKEN_B: u128 = 0xfedc_ba98_7654_3210_fedc_ba98_7654_3210;
const CLIENT_1: u128 = 0x00aa_00bb_00cc_00dd_00ee_00ff_0011_0022;
const CLIENT_2: u128 = 0x5a5a_5a5a_5a5a_4a5a_8a5a_5a5a_5a5a_5a5a;

fn identity_key(seed: u8) -> SigningKey {
    SigningKey::from_bytes(&[seed; 32])
}

fn user_request(email: &str, username: &str, password: &str, name: &str, seed: u8) -> CreateUser {
    CreateUser {
        email: email.to_string(),
        username: username.to_string(),
        password: password.to_string(),
        name: name.to_string(),
        identity: identity_key(seed).verifying_key().to_bytes().to_vec(),
    }
}

/// A store with user A (identity seed 1) and user B (identity seed 2), each
/// with a session.
fn two_users() -> Store {
    let mut store = Store::new();
    store
        .register_user_with_id(USER_A, user_request("test@gmail.com", "testusername", "testpassword", "testname", 1))
        .unwrap();
    store
        .register_user_with_id(USER_B, user_request("bad@gmail.com", "badusername", "badpassword", "badname", 2))
        .unwrap();
    store.open_session_with_token(TOKEN_A, USER_A).unwrap();
    store.open_session_with_token(TOKEN_B, USER_B).unwrap();
    store
}

/// A device key signed by the identity key with the given seed.
fn attested(identity_seed: u8, device_seed: u8) -> (Vec<u8>, Vec<u8>) {
    let device = identity_key(device_seed).verifying_key().to_bytes().to_vec();
    let signature = identity_key(identity_seed).sign(&device).to_bytes().to_vec();
    (device, signature)
}

fn new_client(store: &mut Store, user: u128, id: u128, identity_seed: u8, device_seed: u8) {
    let (signing_key, signature) = attested(identity_seed, device_seed);
    let resp = store
        .create_client_with_id(user, id, CreateClient { signing_key, signature })
        .unwrap();
    assert_eq!(resp.client_uuid, id);
}

fn vector(body: &[u8]) -> Vec<u8> {
    let mut out = Vec::new();
    if body.len() < 64 {
        out.push(body.len() as u8);
    } else {
        out.push(0x40 | (body.len() >> 8) as u8);
        out.push(body.len() as u8);
    }
    out.extend_from_slice(body);
    out
}

/// A key package in its wire form with a basic credential naming `identity`.
fn key_package(identity: &str, salt: u8) -> Vec<u8> {
    let mut out = vec![0x00, 0x01, 0x00, 0x01];
    out.extend(vector(&[salt; 32]));
    out.extend(vector(&[salt ^ 0x55; 32]));
    out.extend(vector(&[salt ^ 0xaa; 32]));
    out.extend([0x00, 0x01]);
    out.extend(vector(identity.as_bytes()));
    out.extend([0x00, 0x03, 0x01, 0x02, 0x03, salt]);
    out
}

fn identity_of(user: u128, client: u128) -> String {
    format!("client_{}_{}", Uuid::from_u128(user), Uuid::from_u128(client))
}

fn send_text(store: &mut Store, ids: Vec<String>, body: &str, at: i64) -> Result<(), ApiError> {
    let req = SendMessage {
        client_uuids: ids,
        message: Message { message: body.as_bytes().to_vec() },
    };
    store.send(USER_A, &req, at)
}

fn bodies(store: &Store, user: u128, client: u128) -> Result<Vec<Vec<u8>>, ApiError> {
    let req = CheckMessages { client_uuid: Uuid::from_u128(client).to_string() };
    store
        .receive(user, &req)
        .map(|r| r.messages.into_iter().map(|m| m.message).collect())
}

#[test]
fn test_client_crud() {
    let mut store = two_users();
    let user = store.resolve(&format!("Bearer {}", Uuid::from_u128(TOKEN_A))).unwrap();
    assert_eq!(user, USER_A);

    assert_eq!(store.list_clients(USER_A).unwrap().clients.len(), 0);

    let (signing_key, signature) = attested(1, 10);
    let created = store
        .create_client(user, CreateClient { signing_key: signing_key.clone(), signature: signature.clone() })
        .unwrap();
    let client_uuid = created.client_uuid;

    let listed = store.list_clients(USER_A).unwrap().clients;
    assert_eq!(listed.len(), 1);
    assert_eq!(listed[0].user_uuid, USER_A);
    assert_eq!(listed[0].uuid, client_uuid);
    assert_eq!(listed[0].signing_key, signing_key);
    assert_eq!(listed[0].signature, signature);

    let got = store.get_client(client_uuid).unwrap();
    assert_eq!(got.user_uuid, USER_A);
    assert_eq!(got.uuid, client_uuid);
    assert_eq!(got.signing_key, signing_key);
    assert_eq!(got.signature, signature);

    let (signing_key, signature) = attested(1, 11);
    store
        .update_client(user, client_uuid, UpdateClient { signing_key: signing_key.clone(), signature: signature.clone() })
        .unwrap();
    let got = store.get_client(client_uuid).unwrap();
    assert_eq!(got.user_uuid, USER_A);
    assert_eq!(got.uuid, client_uuid);
    assert_eq!(got.signing_key, signing_key);
    assert_eq!(got.signature, signature);

    store.delete_client(user, client_uuid).unwrap();
    assert_eq!(store.list_clients(USER_A).unwrap().clients.len(), 0);
    assert_eq!(store.get_client(client_uuid).unwrap_err(), ApiError::NotFound);
    assert_eq!(store.get_client(client_uuid).unwrap_err().status_code(), 404);
}

#[test]
fn test_key_packages() {
    let mut store = two_users();
    new_client(&mut store, USER_A, CLIENT_1, 1, 10);

    assert_eq!(store.fetch_key_package(CLIENT_1).unwrap_err(), ApiError::NotFound);

    let identity = identity_of(USER_A, CLIENT_1);
    let key_packages: Vec<Vec<u8>> = (0..5).map(|i| key_package(&identity, i)).collect();
    store
        .replace_key_packages(USER_A, CLIENT_1, ReplaceKeyPackages { key_packages })
        .unwrap();

    let first = store.fetch_key_package(CLIENT_1).unwrap();
    assert_eq!(first.key_package, key_package(&identity, 0));

    let mut left = 0;
    while store.fetch_key_package(CLIENT_1).is_ok() {
        left += 1;
    }
    assert_eq!(left, 4);
}

#[test]
fn test_create_client_bad_signature() {
    let mut store = two_users();
    let (signing_key, signature) = attested(1, 10);
    let req = CreateClient { signing_key, signature: vec![0; signature.len()] };
    let err = store.create_client(USER_A, req).unwrap_err();
    assert_eq!(err, ApiError::BadSignature);
    assert_eq!(err.status_code(), 400);
    assert_eq!(store.list_clients(USER_A).unwrap().clients.len(), 0);
}

#[test]
fn test_update_client_bad_auth() {
    let mut store = two_users();
    new_client(&mut store, USER_A, CLIENT_1, 1, 10);
    let (signing_key, signature) = attested(1, 11);
    let err = store
        .update_client(USER_B, CLIENT_1, UpdateClient { signing_key, signature })
        .unwrap_err();
    assert_eq!(err, ApiError::Forbidden);
    assert_eq!(err.status_code(), 403);
}

#[test]
fn test_update_client_bad_signature() {
    let mut store = two_users();
    new_client(&mut store, USER_A, CLIENT_1, 1, 10);
    let (old_key, old_signature) = attested(1, 10);
    let (signing_key, signature) = attested(1, 11);
    let req = UpdateClient { signing_key, signature: vec![0; signature.len()] };
    assert_eq!(store.update_client(USER_A, CLIENT_1, req).unwrap_err(), ApiError::BadSignature);
    let got = store.get_client(CLIENT_1).unwrap();
    assert_eq!(got.signing_key, old_key);
    assert_eq!(got.signature, old_signature);
}

#[test]
fn test_delete_client_bad_auth() {
    let mut store = two_users();
    new_client(&mut store, USER_A, CLIENT_1, 1, 10);
    assert_eq!(store.delete_client(USER_B, CLIENT_1).unwrap_err(), ApiError::Forbidden);
    assert!(store.get_client(CLIENT_1).is_ok());
}

#[test]
fn test_replace_key_packages_bad_auth() {
    let mut store = two_users();
    new_client(&mut store, USER_A, CLIENT_1, 1, 10);
    let identity = identity_of(USER_A, CLIENT_1);
    let req = ReplaceKeyPackages { key_packages: vec![key_package(&identity, 0)] };
    assert_eq!(store.replace_key_packages(USER_B, CLIENT_1, req).unwrap_err(), ApiError::Forbidden);
}

#[test]
fn test_replace_key_packages_id() {
    let mut store = two_users();
    new_client(&mut store, USER_A, CLIENT_1, 1, 10);
    let identity = identity_of(USER_A, Uuid::new_v4().as_u128());
    let req = ReplaceKeyPackages { key_packages: vec![key_package(&identity, 0)] };
    let err = store.replace_key_packages(USER_A, CLIENT_1, req).unwrap_err();
    assert_eq!(err, ApiError::InvalidIdentity);
    assert_eq!(err.status_code(), 400);
}

#[test]
fn test_single_message() {
    let mut store = two_users();
    new_client(&mut store, USER_A, CLIENT_1, 1, 10);
    assert_eq!(bodies(&store, USER_A, CLIENT_1).unwrap().len(), 0);
    let id = Uuid::from_u128(CLIENT_1).to_string();
    send_text(&mut store, vec![id], "test message", 100).unwrap();
    let messages = bodies(&store, USER_A, CLIENT_1).unwrap();
    assert_eq!(messages.len(), 1);
    assert_eq!("test message".as_bytes().to_vec(), messages[0]);
}

#[test]
fn test_multiple_messages() {
    let mut store = two_users();
    new_client(&mut store, USER_A, CLIENT_1, 1, 10);
    let id = Uuid::from_u128(CLIENT_1).to_string();
    send_text(&mut store, vec![id.clone()], "test message 1", 1).unwrap();
    send_text(&mut store, vec![id.clone()], "test message 2", 2).unwrap();
    send_text(&mut store, vec![id], "test message 3", 3).unwrap();
    let messages = bodies(&store, USER_A, CLIENT_1).unwrap();
    assert_eq!(messages.len(), 3);
    assert_eq!("test message 1".as_bytes().to_vec(), messages[0]);
    assert_eq!("test message 2".as_bytes().to_vec(), messages[1]);
    assert_eq!("test message 3".as_bytes().to_vec(), messages[2]);
}

#[test]
fn test_invalid_uuid() {
    let mut store = two_users();
    new_client(&mut store, USER_A, CLIENT_1, 1, 10);
    let bad_uuid = Uuid::from_u128(CLIENT_2).to_string();
    let good_uuid = Uuid::from_u128(CLIENT_1).to_string();

    let req = CheckMessages { client_uuid: bad_uuid.clone() };
    assert_eq!(store.receive(USER_A, &req).unwrap_err(), ApiError::NotFound);

    let req = CheckMessages { client_uuid: "bad uuid".to_string() };
    assert_eq!(store.receive(USER_A, &req).unwrap_err(), ApiError::InvalidRequest);

    assert_eq!(send_text(&mut store, vec![bad_uuid.clone()], "test message", 1), Err(ApiError::NotFound));
    assert_eq!(
        send_text(&mut store, vec![good_uuid, bad_uuid], "test message", 1),
        Err(ApiError::NotFound)
    );
    assert_eq!(
        send_text(&mut store, vec!["bad uuid".to_string()], "test message", 1),
        Err(ApiError::InvalidRequest)
    );
    assert_eq!(send_text(&mut store, vec![], "test message", 1), Err(ApiError::InvalidRequest));
    assert_eq!(bodies(&store, USER_A, CLIENT_1).unwrap().len(), 0);
}

#[test]
fn test_bad_user() {
    let mut store = two_users();
    new_client(&mut store, USER_A, CLIENT_1, 1, 10);
    new_client(&mut store, USER_B, CLIENT_2, 2, 20);
    assert_eq!(bodies(&store, USER_B, CLIENT_1).unwrap_err(), ApiError::Forbidden);
}
