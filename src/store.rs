//! The relay's state and its operations.
use crate::ids::{new_uuid, parse_uuid, uuid_parse};
use crate::key_package::{expected_identity, identity_matches, key_package_identity};
use crate::model::{
    bearer_prefix, bearer_token, clients_of, deliver, parse_all, public_of, ClientModel, StoreModel,
    UserModel,
};
use crate::signature::verify_signature;
use crate::types::{
    ApiError, CheckMessages, ClientsResponse, CreateClient, CreateClientResponse, CreateUser,
    DeliveredMessage, KeyPackagePublic, MessagesResponse, PublicClient, ReplaceKeyPackages,
    SendMessage, UpdateClient, User,
};
use vstd::prelude::*;

verus! {

#[derive(Clone, Copy, Debug)]
struct Session {
    token: u128,
    user_uuid: u128,
}

/// The stored form of a device.
#[derive(Debug)]
struct ClientRecord {
    uuid: u128,
    user_uuid: u128,
    signing_key: Vec<u8>,
    signature: Vec<u8>,
    key_packages: Vec<Vec<u8>>,
    mailbox: Vec<DeliveredMessage>,
}

spec fn packages_view(v: Seq<Vec<u8>>) -> Seq<Seq<u8>> {
    v.map_values(|k: Vec<u8>| k@)
}

spec fn mailbox_view(v: Seq<DeliveredMessage>) -> Seq<(Seq<u8>, i64)> {
    v.map_values(|m: DeliveredMessage| m@)
}

spec fn client_model(c: ClientRecord) -> ClientModel {
    ClientModel {
        uuid: c.uuid,
        user_uuid: c.user_uuid,
        signing_key: c.signing_key@,
        signature: c.signature@,
        key_packages: packages_view(c.key_packages@),
        mailbox: mailbox_view(c.mailbox@),
    }
}

spec fn users_view(v: Seq<User>) -> Seq<UserModel> {
    v.map_values(|u: User| u@)
}

spec fn sessions_view(v: Seq<Session>) -> Seq<(u128, u128)> {
    v.map_values(|s: Session| (s.token, s.user_uuid))
}

spec fn clients_view(v: Seq<ClientRecord>) -> Seq<ClientModel> {
    v.map_values(|c: ClientRecord| client_model(c))
}

/// The relay's whole state: users, sessions and devices, with the key
/// packages and the mailbox of each device.
#[derive(Debug)]
pub struct Store {
    users: Vec<User>,
    sessions: Vec<Session>,
    clients: Vec<ClientRecord>,
}

impl View for Store {
    type V = StoreModel;

    closed spec fn view(&self) -> StoreModel {
        StoreModel {
            users: users_view(self.users@),
            sessions: sessions_view(self.sessions@),
            clients: clients_view(self.clients@),
        }
    }
}

impl Store {
    /// An empty relay.
    pub fn new() -> (s: Store)
        ensures
            s@.wf(),
            s@.users.len() == 0,
            s@.sessions.len() == 0,
            s@.clients.len() == 0,
    {
        Store { users: Vec::new(), sessions: Vec::new(), clients: Vec::new() }
    }

    fn find_user(&self, u: u128) -> (r: Option<usize>)
        requires
            self@.wf(),
        ensures
            match r {
                Some(i) => {
                    &&& i < self.users@.len()
                    &&& self@.has_user(u)
                    &&& self@.user(u) == self@.users[i as int]
                },
                None => !self@.has_user(u),
            },
    {
        let mut i: usize = 0;
        while i < self.users.len()
            invariant
                i <= self.users@.len(),
                self@.wf(),
                forall|j: int| 0 <= j < i ==> self@.users[j].uuid != u,
            decreases self.users@.len() - i,
        {
            if self.users[i].uuid == u {
                proof {
                    assert(self@.users[i as int].uuid == u);
                    let k = choose|k: int| 0 <= k < self@.users.len() && self@.users[k].uuid == u;
                    assert(k == i);
                }
                return Some(i);
            }
            i += 1;
        }
        None
    }

    fn find_session(&self, t: u128) -> (r: Option<usize>)
        requires
            self@.wf(),
        ensures
            match r {
                Some(i) => {
                    &&& i < self.sessions@.len()
                    &&& self@.has_session(t)
                    &&& self@.session_user(t) == self@.sessions[i as int].1
                },
                None => !self@.has_session(t),
            },
    {
        let mut i: usize = 0;
        while i < self.sessions.len()
            invariant
                i <= self.sessions@.len(),
                self@.wf(),
                forall|j: int| 0 <= j < i ==> self@.sessions[j].0 != t,
            decreases self.sessions@.len() - i,
        {
            if self.sessions[i].token == t {
                proof {
                    assert(self@.sessions[i as int].0 == t);
                    let k = choose|k: int|
                        0 <= k < self@.sessions.len() && self@.sessions[k].0 == t;
                    assert(k == i);
                }
                return Some(i);
            }
            i += 1;
        }
        None
    }

    fn find_client(&self, c: u128) -> (r: Option<usize>)
        requires
            self@.wf(),
        ensures
            match r {
                Some(i) => {
                    &&& i < self.clients@.len()
                    &&& self@.has_client(c)
                    &&& self@.client_index(c) == i
                },
                None => !self@.has_client(c),
            },
    {
        let mut i: usize = 0;
        while i < self.clients.len()
            invariant
                i <= self.clients@.len(),
                self@.wf(),
                forall|j: int| 0 <= j < i ==> self@.clients[j].uuid != c,
            decreases self.clients@.len() - i,
        {
            if self.clients[i].uuid == c {
                proof {
                    assert(self@.clients[i as int].uuid == c);
                    let k = self@.client_index(c);
                    assert(k == i);
                }
                return Some(i);
            }
            i += 1;
        }
        None
    }

    /// Registers user `uuid`; fails with `Internal` if the identifier is taken.
    pub fn register_user_with_id(&mut self, uuid: u128, req: CreateUser) -> (r: Result<
        (),
        ApiError,
    >)
        requires
            old(self)@.wf(),
        ensures
            final(self)@.wf(),
            (r, final(self)@) == old(self)@.register(
                UserModel {
                    uuid,
                    username: req.username@,
                    email: req.email@,
                    name: req.name@,
                    identity: req.identity@,
                    primary_client_uuid: None,
                },
            ),
    {
        if self.find_user(uuid).is_some() {
            return Err(ApiError::Internal);
        }
        let user = User {
            uuid,
            username: req.username,
            email: req.email,
            name: req.name,
            identity: req.identity,
            primary_client_uuid: None,
        };
        self.users.push(user);
        proof {
            assert(self@.users =~= old(self)@.users.push(user@));
            assert(self@.sessions == old(self)@.sessions);
            assert(self@.clients == old(self)@.clients);
            assert(forall|j: int| 0 <= j < old(self)@.users.len() ==> old(self)@.users[j].uuid != uuid);
            assert forall|a: int, b: int|
                0 <= a < b < self@.users.len() implies self@.users[a].uuid != self@.users[b].uuid by {
                if b == old(self)@.users.len() {
                    assert(old(self)@.users[a].uuid != uuid);
                }
            }
        }
        Ok(())
    }

    /// User `u`; `NotFound` if there is none.
    pub fn get_user(&self, u: u128) -> (r: Result<User, ApiError>)
        requires
            self@.wf(),
        ensures
            match r {
                Ok(user) => Ok(user@),
                Err(e) => Err(e),
            } == self@.get_user(u),
    {
        match self.find_user(u) {
            Some(i) => {
                let x = &self.users[i];
                Ok(
                    User {
                        uuid: x.uuid,
                        username: x.username.clone(),
                        email: x.email.clone(),
                        name: x.name.clone(),
                        identity: vstd::slice::slice_to_vec(x.identity.as_slice()),
                        primary_client_uuid: x.primary_client_uuid,
                    },
                )
            },
            None => Err(ApiError::NotFound),
        }
    }

    /// Registers a user under a fresh random identifier, which it returns.
    pub fn create_user(&mut self, req: CreateUser) -> (r: Result<u128, ApiError>)
        requires
            old(self)@.wf(),
        ensures
            final(self)@.wf(),
            exists|uuid: u128|
                (match r {
                    Ok(_) => Ok(()),
                    Err(e) => Err(e),
                }, final(self)@) == #[trigger] old(self)@.register(
                    UserModel {
                        uuid,
                        username: req.username@,
                        email: req.email@,
                        name: req.name@,
                        identity: req.identity@,
                        primary_client_uuid: None,
                    },
                ) && (r is Ok ==> r == Ok::<u128, ApiError>(uuid)),
    {
        let uuid = new_uuid();
        match self.register_user_with_id(uuid, req) {
            Ok(()) => Ok(uuid),
            Err(e) => Err(e),
        }
    }

    /// Opens session `token` for `user`: `NotFound` if there is no such user,
    /// `Internal` if the token is taken.
    pub fn open_session_with_token(&mut self, token: u128, user: u128) -> (r: Result<
        (),
        ApiError,
    >)
        requires
            old(self)@.wf(),
        ensures
            final(self)@.wf(),
            (r, final(self)@) == old(self)@.open_session(token, user),
    {
        if self.find_user(user).is_none() {
            return Err(ApiError::NotFound);
        }
        if self.find_session(token).is_some() {
            return Err(ApiError::Internal);
        }
        self.sessions.push(Session { token, user_uuid: user });
        proof {
            assert(self@.sessions =~= old(self)@.sessions.push((token, user)));
            assert(self@.users == old(self)@.users);
            assert(self@.clients == old(self)@.clients);
            assert(forall|j: int| 0 <= j < old(self)@.sessions.len() ==> old(self)@.sessions[j].0 != token);
            assert forall|a: int, b: int|
                0 <= a < b < self@.sessions.len() implies self@.sessions[a].0 != self@.sessions[b].0 by {
                if b == old(self)@.sessions.len() {
                    assert(old(self)@.sessions[a].0 != token);
                }
            }
        }
        Ok(())
    }

    /// Opens a session for `user` under a fresh random token, which it returns.
    pub fn open_session(&mut self, user: u128) -> (r: Result<u128, ApiError>)
        requires
            old(self)@.wf(),
        ensures
            final(self)@.wf(),
            exists|token: u128|
                (match r {
                    Ok(_) => Ok(()),
                    Err(e) => Err(e),
                }, final(self)@) == #[trigger] old(self)@.open_session(token, user) && (r is Ok
                    ==> r == Ok::<u128, ApiError>(token)),
    {
        let token = new_uuid();
        match self.open_session_with_token(token, user) {
            Ok(()) => Ok(token),
            Err(e) => Err(e),
        }
    }

    /// The user that a session token stands for; `Unauthorized` for a missing
    /// or unknown token.
    pub fn resolve_token(&self, token: Option<u128>) -> (r: Result<u128, ApiError>)
        requires
            self@.wf(),
        ensures
            r == self@.resolve(token),
    {
        match token {
            None => Err(ApiError::Unauthorized),
            Some(t) => match self.find_session(t) {
                Some(i) => Ok(self.sessions[i].user_uuid),
                None => Err(ApiError::Unauthorized),
            },
        }
    }

    /// The user that an authorization header (`Bearer <token>`) stands for;
    /// `Unauthorized` for a malformed header or an unknown token.
    pub fn resolve(&self, authorization: &str) -> (r: Result<u128, ApiError>)
        requires
            self@.wf(),
        ensures
            r == self@.resolve(bearer_token(vstd::utf8::encode_utf8(authorization@))),
    {
        let bytes = authorization.as_bytes();
        let prefix: [u8; 7] = [66u8, 101u8, 97u8, 114u8, 101u8, 114u8, 32u8];
        if bytes.len() < 7 {
            return Err(ApiError::Unauthorized);
        }
        let mut i: usize = 0;
        while i < 7
            invariant
                i <= 7 <= bytes@.len(),
                prefix@ == bearer_prefix(),
                bytes@ == vstd::utf8::encode_utf8(authorization@),
                forall|j: int| 0 <= j < i ==> bytes@[j] == bearer_prefix()[j],
            decreases 7 - i,
        {
            if bytes[i] != prefix[i] {
                assert(bytes@.subrange(0, 7)[i as int] != bearer_prefix()[i as int]);
                return Err(ApiError::Unauthorized);
            }
            i += 1;
        }
        assert(bytes@.subrange(0, 7) =~= bearer_prefix());
        let token = parse_uuid(vstd::slice::slice_subrange(bytes, 7, bytes.len()));
        self.resolve_token(token)
    }

    /// Creates device `id` for `requester`, whose identity key must accept
    /// `req.signature` over `req.signing_key`.
    pub fn create_client_with_id(&mut self, requester: u128, id: u128, req: CreateClient) -> (r:
        Result<CreateClientResponse, ApiError>)
        requires
            old(self)@.wf(),
        ensures
            final(self)@.wf(),
            (match r {
                Ok(resp) => Ok(resp.client_uuid),
                Err(e) => Err(e),
            }, final(self)@) == old(self)@.create_client(
                requester,
                id,
                req.signing_key@,
                req.signature@,
            ),
    {
        let ui = match self.find_user(requester) {
            Some(i) => i,
            None => return Err(ApiError::Unauthorized),
        };
        if !verify_signature(
            self.users[ui].identity.as_slice(),
            req.signing_key.as_slice(),
            req.signature.as_slice(),
        ) {
            return Err(ApiError::BadSignature);
        }
        if self.find_client(id).is_some() {
            return Err(ApiError::Internal);
        }
        let rec = ClientRecord {
            uuid: id,
            user_uuid: requester,
            signing_key: req.signing_key,
            signature: req.signature,
            key_packages: Vec::new(),
            mailbox: Vec::new(),
        };
        self.clients.push(rec);
        proof {
            assert(packages_view(rec.key_packages@) =~= Seq::empty());
            assert(mailbox_view(rec.mailbox@) =~= Seq::empty());
            assert(self@.clients =~= old(self)@.clients.push(client_model(rec)));
            assert(self@.users == old(self)@.users);
            assert(self@.sessions == old(self)@.sessions);
            assert(forall|j: int| 0 <= j < old(self)@.clients.len() ==> old(self)@.clients[j].uuid != id);
            assert forall|a: int, b: int|
                0 <= a < b < self@.clients.len() implies self@.clients[a].uuid != self@.clients[b].uuid by {
                if b == old(self)@.clients.len() {
                    assert(old(self)@.clients[a].uuid != id);
                }
            }
        }
        Ok(CreateClientResponse { client_uuid: id })
    }

    /// Creates a device for `requester` under a fresh random identifier.
    pub fn create_client(&mut self, requester: u128, req: CreateClient) -> (r: Result<
        CreateClientResponse,
        ApiError,
    >)
        requires
            old(self)@.wf(),
        ensures
            final(self)@.wf(),
            exists|id: u128|
                (match r {
                    Ok(resp) => Ok(resp.client_uuid),
                    Err(e) => Err(e),
                }, final(self)@) == #[trigger] old(self)@.create_client(
                    requester,
                    id,
                    req.signing_key@,
                    req.signature@,
                ),
    {
        let id = new_uuid();
        self.create_client_with_id(requester, id, req)
    }

    /// The indexes of `requester` and of device `c` once `requester` is
    /// known to own `c`.
    fn check_owner(&self, requester: u128, c: u128) -> (r: Result<(usize, usize), ApiError>)
        requires
            self@.wf(),
        ensures
            match r {
                Ok((ui, ci)) => {
                    &&& self@.owner_check(requester, c) is None
                    &&& ui < self.users@.len()
                    &&& self@.user(requester) == self@.users[ui as int]
                    &&& ci < self.clients@.len()
                    &&& self@.client_index(c) == ci
                },
                Err(e) => self@.owner_check(requester, c) == Some(e),
            },
    {
        let ui = match self.find_user(requester) {
            Some(i) => i,
            None => return Err(ApiError::Unauthorized),
        };
        let ci = match self.find_client(c) {
            Some(i) => i,
            None => return Err(ApiError::NotFound),
        };
        if self.clients[ci].user_uuid != requester {
            return Err(ApiError::Forbidden);
        }
        Ok((ui, ci))
    }

    /// Rotates the signing key of device `c`: only its owner may, and only
    /// with a new key that the owner's identity key has signed.
    pub fn update_client(&mut self, requester: u128, c: u128, req: UpdateClient) -> (r: Result<
        (),
        ApiError,
    >)
        requires
            old(self)@.wf(),
        ensures
            final(self)@.wf(),
            (r, final(self)@) == old(self)@.update_client(
                requester,
                c,
                req.signing_key@,
                req.signature@,
            ),
    {
        let (ui, ci) = match self.check_owner(requester, c) {
            Ok(p) => p,
            Err(e) => return Err(e),
        };
        if !verify_signature(
            self.users[ui].identity.as_slice(),
            req.signing_key.as_slice(),
            req.signature.as_slice(),
        ) {
            return Err(ApiError::BadSignature);
        }
        self.clients[ci].signing_key = req.signing_key;
        self.clients[ci].signature = req.signature;
        proof {
            let new_client = ClientModel {
                signing_key: req.signing_key@,
                signature: req.signature@,
                ..old(self)@.client(c)
            };
            assert(self@.clients =~= old(self)@.clients.update(ci as int, new_client));
            assert(self@.users == old(self)@.users);
            assert(self@.sessions == old(self)@.sessions);
        }
        Ok(())
    }

    /// Deletes device `c`, with its key packages and its mailbox; only its
    /// owner may.
    pub fn delete_client(&mut self, requester: u128, c: u128) -> (r: Result<(), ApiError>)
        requires
            old(self)@.wf(),
        ensures
            final(self)@.wf(),
            (r, final(self)@) == old(self)@.delete_client(requester, c),
    {
        let (_, ci) = match self.check_owner(requester, c) {
            Ok(p) => p,
            Err(e) => return Err(e),
        };
        self.clients.remove(ci);
        proof {
            assert(self@.clients =~= old(self)@.clients.remove(ci as int));
            assert(self@.users == old(self)@.users);
            assert(self@.sessions == old(self)@.sessions);
            assert forall|a: int, b: int|
                0 <= a < b < self@.clients.len() implies self@.clients[a].uuid
                != self@.clients[b].uuid by {
                if a >= ci {
                    assert(self@.clients[a] == old(self)@.clients[a + 1]);
                    assert(self@.clients[b] == old(self)@.clients[b + 1]);
                } else if b >= ci {
                    assert(self@.clients[b] == old(self)@.clients[b + 1]);
                }
            }
        }
        Ok(())
    }

    fn public_client(&self, i: usize) -> (p: PublicClient)
        requires
            i < self.clients@.len(),
        ensures
            p@ == public_of(self@.clients[i as int]),
    {
        let rec = &self.clients[i];
        PublicClient {
            user_uuid: rec.user_uuid,
            uuid: rec.uuid,
            signing_key: vstd::slice::slice_to_vec(rec.signing_key.as_slice()),
            signature: vstd::slice::slice_to_vec(rec.signature.as_slice()),
        }
    }

    /// Device `c` as anyone may read it; `NotFound` if there is none.
    pub fn get_client(&self, c: u128) -> (r: Result<PublicClient, ApiError>)
        requires
            self@.wf(),
        ensures
            match r {
                Ok(p) => Ok(p@),
                Err(e) => Err(e),
            } == self@.get_client(c),
    {
        match self.find_client(c) {
            Some(i) => Ok(self.public_client(i)),
            None => Err(ApiError::NotFound),
        }
    }

    /// The devices of `user`, in the order they were created; `NotFound` if
    /// there is no such user.
    pub fn list_clients(&self, user: u128) -> (r: Result<ClientsResponse, ApiError>)
        requires
            self@.wf(),
        ensures
            match r {
                Ok(resp) => Ok(resp.clients@.map_values(|p: PublicClient| p@)),
                Err(e) => Err(e),
            } == self@.list_clients(user),
    {
        if self.find_user(user).is_none() {
            return Err(ApiError::NotFound);
        }
        let mut out: Vec<PublicClient> = Vec::new();
        let mut i: usize = 0;
        while i < self.clients.len()
            invariant
                i <= self.clients@.len(),
                out@.map_values(|p: PublicClient| p@) == clients_of(
                    self@.clients.subrange(0, i as int),
                    user,
                ),
            decreases self.clients@.len() - i,
        {
            let ghost before = out@;
            if self.clients[i].user_uuid == user {
                let p = self.public_client(i);
                out.push(p);
                assert(out@.map_values(|p: PublicClient| p@) =~= before.map_values(
                    |p: PublicClient| p@,
                ).push(p@));
            }
            assert(self@.clients.subrange(0, i + 1).drop_last() =~= self@.clients.subrange(
                0,
                i as int,
            ));
            i += 1;
        }
        assert(self@.clients.subrange(0, i as int) =~= self@.clients);
        Ok(ClientsResponse { clients: out })
    }

    /// Replaces the whole key-package pool of device `c`; only its owner may,
    /// and only with packages that each claim the identity of `c`. On any
    /// failure the pool stays as it was.
    pub fn replace_key_packages(&mut self, requester: u128, c: u128, req: ReplaceKeyPackages) -> (r:
        Result<(), ApiError>)
        requires
            old(self)@.wf(),
        ensures
            final(self)@.wf(),
            (r, final(self)@) == old(self)@.replace_key_packages(
                requester,
                c,
                req.key_packages@.map_values(|k: Vec<u8>| k@),
            ),
    {
        let (_, ci) = match self.check_owner(requester, c) {
            Ok(p) => p,
            Err(e) => return Err(e),
        };
        let ghost packages = req.key_packages@.map_values(|k: Vec<u8>| k@);
        let mut k: usize = 0;
        while k < req.key_packages.len()
            invariant
                k <= req.key_packages@.len(),
                packages == req.key_packages@.map_values(|k: Vec<u8>| k@),
                self@ == old(self)@,
                old(self)@.wf(),
                old(self)@.owner_check(requester, c) is None,
                ci < self.clients@.len(),
                old(self)@.client_index(c) == ci,
                forall|j: int|
                    0 <= j < k ==> key_package_identity(packages[j]) == Some(
                        expected_identity(requester, c),
                    ),
            decreases req.key_packages@.len() - k,
        {
            if !identity_matches(req.key_packages[k].as_slice(), requester, c) {
                assert(key_package_identity(packages[k as int]) != Some(
                    expected_identity(requester, c),
                ));
                return Err(ApiError::InvalidIdentity);
            }
            k += 1;
        }
        self.clients[ci].key_packages = req.key_packages;
        proof {
            let new_client = ClientModel { key_packages: packages, ..old(self)@.client(c) };
            assert(self@.clients =~= old(self)@.clients.update(ci as int, new_client));
            assert(self@.users == old(self)@.users);
            assert(self@.sessions == old(self)@.sessions);
        }
        Ok(())
    }

    /// Hands out the oldest key package of device `c` and removes it from the
    /// pool in the same step; `NotFound` if there is no such device or its
    /// pool is empty.
    pub fn fetch_key_package(&mut self, c: u128) -> (r: Result<KeyPackagePublic, ApiError>)
        requires
            old(self)@.wf(),
        ensures
            final(self)@.wf(),
            (match r {
                Ok(kp) => Ok(kp.key_package@),
                Err(e) => Err(e),
            }, final(self)@) == old(self)@.fetch_key_package(c),
    {
        let ci = match self.find_client(c) {
            Some(i) => i,
            None => return Err(ApiError::NotFound),
        };
        if self.clients[ci].key_packages.len() == 0 {
            return Err(ApiError::NotFound);
        }
        let kp = self.clients[ci].key_packages.remove(0);
        proof {
            let pool = old(self)@.client(c).key_packages;
            let new_client = ClientModel { key_packages: pool.drop_first(), ..old(self)@.client(c) };
            assert(self@.clients[ci as int].key_packages =~= pool.drop_first());
            assert(self@.clients =~= old(self)@.clients.update(ci as int, new_client));
            assert(self@.users == old(self)@.users);
            assert(self@.sessions == old(self)@.sessions);
        }
        Ok(KeyPackagePublic { key_package: kp })
    }

    fn contains_id(ids: &Vec<Option<u128>>, c: u128) -> (r: bool)
        ensures
            r == ids@.contains(Some(c)),
    {
        let mut k: usize = 0;
        while k < ids.len()
            invariant
                k <= ids@.len(),
                forall|j: int| 0 <= j < k ==> ids@[j] != Some(c),
            decreases ids@.len() - k,
        {
            if let Some(x) = ids[k] {
                if x == c {
                    assert(ids@[k as int] == Some(c));
                    return true;
                }
            }
            k += 1;
        }
        false
    }

    /// Delivers `payload`, received at time `at`, to every device that `ids`
    /// names, where `None` stands for a malformed identifier. Nothing is
    /// delivered unless the list is non-empty, well formed and names only
    /// existing devices.
    pub fn send_to(&mut self, requester: u128, ids: &Vec<Option<u128>>, payload: &Vec<u8>, at: i64) -> (r:
        Result<(), ApiError>)
        requires
            old(self)@.wf(),
        ensures
            final(self)@.wf(),
            (r, final(self)@) == old(self)@.send(requester, ids@, payload@, at),
    {
        if self.find_user(requester).is_none() {
            return Err(ApiError::Unauthorized);
        }
        if ids.len() == 0 {
            return Err(ApiError::InvalidRequest);
        }
        let mut k: usize = 0;
        while k < ids.len()
            invariant
                k <= ids@.len(),
                forall|j: int| 0 <= j < k ==> ids@[j] is Some,
                self@ == old(self)@,
                old(self)@.wf(),
                old(self)@.has_user(requester),
                ids@.len() > 0,
            decreases ids@.len() - k,
        {
            if ids[k].is_none() {
                assert(ids@[k as int] is None);
                return Err(ApiError::InvalidRequest);
            }
            k += 1;
        }
        let mut k: usize = 0;
        while k < ids.len()
            invariant
                k <= ids@.len(),
                self@.wf(),
                self@ == old(self)@,
                old(self)@.has_user(requester),
                ids@.len() > 0,
                forall|j: int| 0 <= j < ids@.len() ==> ids@[j] is Some,
                forall|j: int|
                    0 <= j < k ==> match #[trigger] ids@[j] {
                        Some(c) => self@.has_client(c),
                        None => false,
                    },
            decreases ids@.len() - k,
        {
            if let Some(c) = ids[k] {
                if self.find_client(c).is_none() {
                    assert(match ids@[k as int] {
                        Some(c) => !self@.has_client(c),
                        None => false,
                    });
                    return Err(ApiError::NotFound);
                }
            } else {
                return Err(ApiError::InvalidRequest);
            }
            k += 1;
        }
        let ghost target = deliver(old(self)@.clients, ids@, (payload@, at));
        let mut i: usize = 0;
        while i < self.clients.len()
            invariant
                i <= self.clients@.len(),
                self.clients@.len() == old(self).clients@.len(),
                target == deliver(old(self)@.clients, ids@, (payload@, at)),
                self@.users == old(self)@.users,
                self@.sessions == old(self)@.sessions,
                forall|j: int| 0 <= j < i ==> self@.clients[j] == target[j],
                forall|j: int| i <= j < self@.clients.len() ==> self@.clients[j] == old(self)@.clients[j],
            decreases self.clients@.len() - i,
        {
            let uuid = self.clients[i].uuid;
            if Self::contains_id(ids, uuid) {
                let entry = DeliveredMessage {
                    message: vstd::slice::slice_to_vec(payload.as_slice()),
                    received_date: at,
                };
                self.clients[i].mailbox.push(entry);
                assert(self@.clients[i as int].mailbox =~= old(self)@.clients[i as int].mailbox.push(
                    (payload@, at),
                ));
            }
            assert(self@.clients[i as int] == target[i as int]);
            i += 1;
        }
        proof {
            assert(self@.clients =~= target);
            assert forall|a: int, b: int|
                0 <= a < b < self@.clients.len() implies self@.clients[a].uuid
                != self@.clients[b].uuid by {
                assert(self@.clients[a].uuid == old(self)@.clients[a].uuid);
                assert(self@.clients[b].uuid == old(self)@.clients[b].uuid);
            }
        }
        Ok(())
    }

    /// Sends a message to the devices that `req` names by identifier text;
    /// see `send_to`.
    pub fn send(&mut self, requester: u128, req: &SendMessage, at: i64) -> (r: Result<(), ApiError>)
        requires
            old(self)@.wf(),
        ensures
            final(self)@.wf(),
            (r, final(self)@) == old(self)@.send(
                requester,
                parse_all(req.client_uuids@),
                req.message.message@,
                at,
            ),
    {
        let mut ids: Vec<Option<u128>> = Vec::new();
        let mut k: usize = 0;
        while k < req.client_uuids.len()
            invariant
                k <= req.client_uuids@.len(),
                ids@ =~= parse_all(req.client_uuids@).subrange(0, k as int),
            decreases req.client_uuids@.len() - k,
        {
            ids.push(parse_uuid(req.client_uuids[k].as_str().as_bytes()));
            k += 1;
        }
        assert(ids@ =~= parse_all(req.client_uuids@));
        self.send_to(requester, &ids, &req.message.message, at)
    }

    /// The mailbox of the device that `id` names (`None` for a malformed
    /// identifier), oldest first; only its owner may read it. Reading
    /// removes nothing.
    pub fn receive_from(&self, requester: u128, id: Option<u128>) -> (r: Result<
        MessagesResponse,
        ApiError,
    >)
        requires
            self@.wf(),
        ensures
            match r {
                Ok(resp) => Ok(resp.messages@.map_values(|m: DeliveredMessage| m@)),
                Err(e) => Err(e),
            } == self@.receive(requester, id),
    {
        if self.find_user(requester).is_none() {
            return Err(ApiError::Unauthorized);
        }
        let c = match id {
            Some(c) => c,
            None => return Err(ApiError::InvalidRequest),
        };
        let (_, ci) = match self.check_owner(requester, c) {
            Ok(p) => p,
            Err(e) => return Err(e),
        };
        let mailbox = &self.clients[ci].mailbox;
        let mut out: Vec<DeliveredMessage> = Vec::new();
        let mut k: usize = 0;
        while k < mailbox.len()
            invariant
                k <= mailbox@.len(),
                out@.map_values(|m: DeliveredMessage| m@) =~= mailbox@.map_values(
                    |m: DeliveredMessage| m@,
                ).subrange(0, k as int),
            decreases mailbox@.len() - k,
        {
            let m = &mailbox[k];
            let copy = DeliveredMessage {
                message: vstd::slice::slice_to_vec(m.message.as_slice()),
                received_date: m.received_date,
            };
            let ghost before = out@;
            out.push(copy);
            assert(out@.map_values(|m: DeliveredMessage| m@) =~= before.map_values(
                |m: DeliveredMessage| m@,
            ).push(copy@));
            assert(mailbox@.map_values(|m: DeliveredMessage| m@).subrange(0, k + 1) =~= mailbox@.map_values(
                |m: DeliveredMessage| m@,
            ).subrange(0, k as int).push(copy@));
            k += 1;
        }
        assert(out@.map_values(|m: DeliveredMessage| m@) =~= self@.clients[ci as int].mailbox);
        Ok(MessagesResponse { messages: out })
    }

    /// The mailbox of the device that `req` names by identifier text; see
    /// `receive_from`.
    pub fn receive(&self, requester: u128, req: &CheckMessages) -> (r: Result<
        MessagesResponse,
        ApiError,
    >)
        requires
            self@.wf(),
        ensures
            match r {
                Ok(resp) => Ok(resp.messages@.map_values(|m: DeliveredMessage| m@)),
                Err(e) => Err(e),
            } == self@.receive(
                requester,
                uuid_parse(vstd::utf8::encode_utf8(req.client_uuid@)),
            ),
    {
        let id = parse_uuid(req.client_uuid.as_str().as_bytes());
        self.receive_from(requester, id)
    }
}

} // verus!
