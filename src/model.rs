//! The mathematical model of the relay's state and of what each operation
//! does to it.
use crate::ids::uuid_parse;
use crate::key_package::{expected_identity, key_package_identity};
use crate::signature::ed25519_accepts;
use crate::types::{ApiError, User};
use vstd::prelude::*;

verus! {

/// A registered user as the model sees it.
pub struct UserModel {
    pub uuid: u128,
    pub username: Seq<char>,
    pub email: Seq<char>,
    pub name: Seq<char>,
    pub identity: Seq<u8>,
    pub primary_client_uuid: Option<u128>,
}

impl View for User {
    type V = UserModel;

    open spec fn view(&self) -> UserModel {
        UserModel {
            uuid: self.uuid,
            username: self.username@,
            email: self.email@,
            name: self.name@,
            identity: self.identity@,
            primary_client_uuid: self.primary_client_uuid,
        }
    }
}

/// A device, with the key packages it has published (oldest first) and its
/// mailbox (oldest first).
pub struct ClientModel {
    pub uuid: u128,
    pub user_uuid: u128,
    pub signing_key: Seq<u8>,
    pub signature: Seq<u8>,
    pub key_packages: Seq<Seq<u8>>,
    pub mailbox: Seq<(Seq<u8>, i64)>,
}

/// What anyone may read of a device: owner, identifier, signing key, signature.
pub type PublicModel = (u128, u128, Seq<u8>, Seq<u8>);

/// The whole state: users, sessions (token, user) and devices, each in the
/// order they were added.
pub struct StoreModel {
    pub users: Seq<UserModel>,
    pub sessions: Seq<(u128, u128)>,
    pub clients: Seq<ClientModel>,
}

/// The bytes `Bearer ` that open an authorization header.
pub open spec fn bearer_prefix() -> Seq<u8> {
    seq![66u8, 101u8, 97u8, 114u8, 101u8, 114u8, 32u8]
}

/// The session token that an authorization header carries, if it is well formed.
pub open spec fn bearer_token(header: Seq<u8>) -> Option<u128> {
    if header.len() >= 7 && header.subrange(0, 7) == bearer_prefix() {
        uuid_parse(header.subrange(7, header.len() as int))
    } else {
        None
    }
}

pub open spec fn public_of(c: ClientModel) -> PublicModel {
    (c.user_uuid, c.uuid, c.signing_key, c.signature)
}

/// The devices of `user`, in the order they were added.
pub open spec fn clients_of(cs: Seq<ClientModel>, user: u128) -> Seq<PublicModel> {
    cs.filter_map(|c: ClientModel| if c.user_uuid == user { Some(public_of(c)) } else { None })
}

/// The devices after `m` is appended to the mailbox of each one that `ids` names.
pub open spec fn deliver(cs: Seq<ClientModel>, ids: Seq<Option<u128>>, m: (Seq<u8>, i64)) -> Seq<
    ClientModel,
> {
    Seq::new(
        cs.len(),
        |i: int|
            if ids.contains(Some(cs[i].uuid)) {
                ClientModel { mailbox: cs[i].mailbox.push(m), ..cs[i] }
            } else {
                cs[i]
            },
    )
}

impl StoreModel {
    /// Users, session tokens and devices are each identified uniquely.
    pub open spec fn wf(self) -> bool {
        &&& forall|i: int, j: int|
            0 <= i < j < self.users.len() ==> self.users[i].uuid != self.users[j].uuid
        &&& forall|i: int, j: int|
            0 <= i < j < self.sessions.len() ==> self.sessions[i].0 != self.sessions[j].0
        &&& forall|i: int, j: int|
            0 <= i < j < self.clients.len() ==> self.clients[i].uuid != self.clients[j].uuid
    }

    pub open spec fn has_user(self, u: u128) -> bool {
        exists|i: int| 0 <= i < self.users.len() && self.users[i].uuid == u
    }

    pub open spec fn user(self, u: u128) -> UserModel {
        self.users[choose|i: int| 0 <= i < self.users.len() && self.users[i].uuid == u]
    }

    pub open spec fn has_session(self, t: u128) -> bool {
        exists|i: int| 0 <= i < self.sessions.len() && self.sessions[i].0 == t
    }

    pub open spec fn session_user(self, t: u128) -> u128 {
        self.sessions[choose|i: int| 0 <= i < self.sessions.len() && self.sessions[i].0 == t].1
    }

    pub open spec fn has_client(self, c: u128) -> bool {
        exists|i: int| 0 <= i < self.clients.len() && self.clients[i].uuid == c
    }

    pub open spec fn client_index(self, c: u128) -> int {
        choose|i: int| 0 <= i < self.clients.len() && self.clients[i].uuid == c
    }

    pub open spec fn client(self, c: u128) -> ClientModel {
        self.clients[self.client_index(c)]
    }

    pub open spec fn with_clients(self, clients: Seq<ClientModel>) -> StoreModel {
        StoreModel { clients, ..self }
    }

    /// The common checks before a device is changed or read by its owner.
    pub open spec fn owner_check(self, requester: u128, c: u128) -> Option<ApiError> {
        if !self.has_user(requester) {
            Some(ApiError::Unauthorized)
        } else if !self.has_client(c) {
            Some(ApiError::NotFound)
        } else if self.client(c).user_uuid != requester {
            Some(ApiError::Forbidden)
        } else {
            None
        }
    }

    /// The user that a session token stands for.
    pub open spec fn resolve(self, token: Option<u128>) -> Result<u128, ApiError> {
        match token {
            Some(t) => if self.has_session(t) {
                Ok(self.session_user(t))
            } else {
                Err(ApiError::Unauthorized)
            },
            None => Err(ApiError::Unauthorized),
        }
    }

    /// Registering user `uuid`.
    pub open spec fn register(self, user: UserModel) -> (Result<(), ApiError>, StoreModel) {
        if self.has_user(user.uuid) {
            (Err(ApiError::Internal), self)
        } else {
            (Ok(()), StoreModel { users: self.users.push(user), ..self })
        }
    }

    /// Opening a session with token `token` for `user`.
    pub open spec fn open_session(self, token: u128, user: u128) -> (
        Result<(), ApiError>,
        StoreModel,
    ) {
        if !self.has_user(user) {
            (Err(ApiError::NotFound), self)
        } else if self.has_session(token) {
            (Err(ApiError::Internal), self)
        } else {
            (Ok(()), StoreModel { sessions: self.sessions.push((token, user)), ..self })
        }
    }

    /// Creating device `id` of `requester`, attested by `signature` over `signing_key`.
    pub open spec fn create_client(
        self,
        requester: u128,
        id: u128,
        signing_key: Seq<u8>,
        signature: Seq<u8>,
    ) -> (Result<u128, ApiError>, StoreModel) {
        if !self.has_user(requester) {
            (Err(ApiError::Unauthorized), self)
        } else if !ed25519_accepts(self.user(requester).identity, signing_key, signature) {
            (Err(ApiError::BadSignature), self)
        } else if self.has_client(id) {
            (Err(ApiError::Internal), self)
        } else {
            let c = ClientModel {
                uuid: id,
                user_uuid: requester,
                signing_key,
                signature,
                key_packages: Seq::empty(),
                mailbox: Seq::empty(),
            };
            (Ok(id), self.with_clients(self.clients.push(c)))
        }
    }

    /// Rotating the signing key of device `c`.
    pub open spec fn update_client(
        self,
        requester: u128,
        c: u128,
        signing_key: Seq<u8>,
        signature: Seq<u8>,
    ) -> (Result<(), ApiError>, StoreModel) {
        match self.owner_check(requester, c) {
            Some(e) => (Err(e), self),
            None => if !ed25519_accepts(self.user(requester).identity, signing_key, signature) {
                (Err(ApiError::BadSignature), self)
            } else {
                let new_client = ClientModel { signing_key, signature, ..self.client(c) };
                (Ok(()), self.with_clients(self.clients.update(self.client_index(c), new_client)))
            },
        }
    }

    /// Deleting device `c`, with its key packages and its mailbox.
    pub open spec fn delete_client(self, requester: u128, c: u128) -> (
        Result<(), ApiError>,
        StoreModel,
    ) {
        match self.owner_check(requester, c) {
            Some(e) => (Err(e), self),
            None => (Ok(()), self.with_clients(self.clients.remove(self.client_index(c)))),
        }
    }

    /// Reading user `u`.
    pub open spec fn get_user(self, u: u128) -> Result<UserModel, ApiError> {
        if self.has_user(u) {
            Ok(self.user(u))
        } else {
            Err(ApiError::NotFound)
        }
    }

    /// Reading device `c`.
    pub open spec fn get_client(self, c: u128) -> Result<PublicModel, ApiError> {
        if self.has_client(c) {
            Ok(public_of(self.client(c)))
        } else {
            Err(ApiError::NotFound)
        }
    }

    /// Listing the devices of `user`.
    pub open spec fn list_clients(self, user: u128) -> Result<Seq<PublicModel>, ApiError> {
        if self.has_user(user) {
            Ok(clients_of(self.clients, user))
        } else {
            Err(ApiError::NotFound)
        }
    }

    /// Replacing the key-package pool of device `c` with `packages`.
    pub open spec fn replace_key_packages(
        self,
        requester: u128,
        c: u128,
        packages: Seq<Seq<u8>>,
    ) -> (Result<(), ApiError>, StoreModel) {
        match self.owner_check(requester, c) {
            Some(e) => (Err(e), self),
            None => if exists|k: int|
                0 <= k < packages.len() && key_package_identity(packages[k]) != Some(
                    expected_identity(requester, c),
                ) {
                (Err(ApiError::InvalidIdentity), self)
            } else {
                let new_client = ClientModel { key_packages: packages, ..self.client(c) };
                (Ok(()), self.with_clients(self.clients.update(self.client_index(c), new_client)))
            },
        }
    }

    /// Handing out, and removing, the oldest key package of device `c`.
    pub open spec fn fetch_key_package(self, c: u128) -> (Result<Seq<u8>, ApiError>, StoreModel) {
        if !self.has_client(c) || self.client(c).key_packages.len() == 0 {
            (Err(ApiError::NotFound), self)
        } else {
            let pool = self.client(c).key_packages;
            let new_client = ClientModel { key_packages: pool.drop_first(), ..self.client(c) };
            (Ok(pool[0]), self.with_clients(self.clients.update(self.client_index(c), new_client)))
        }
    }

    /// Sending `payload`, received at time `at`, to the devices that `ids`
    /// names (`None` stands for a malformed identifier).
    pub open spec fn send(
        self,
        requester: u128,
        ids: Seq<Option<u128>>,
        payload: Seq<u8>,
        at: i64,
    ) -> (Result<(), ApiError>, StoreModel) {
        if !self.has_user(requester) {
            (Err(ApiError::Unauthorized), self)
        } else if ids.len() == 0 || exists|i: int| 0 <= i < ids.len() && ids[i] is None {
            (Err(ApiError::InvalidRequest), self)
        } else if exists|i: int|
            0 <= i < ids.len() && match #[trigger] ids[i] {
                Some(c) => !self.has_client(c),
                None => false,
            } {
            (Err(ApiError::NotFound), self)
        } else {
            (Ok(()), self.with_clients(deliver(self.clients, ids, (payload, at))))
        }
    }

    /// Reading the mailbox of the device that `id` names (`None` for a
    /// malformed identifier).
    pub open spec fn receive(self, requester: u128, id: Option<u128>) -> Result<
        Seq<(Seq<u8>, i64)>,
        ApiError,
    > {
        if !self.has_user(requester) {
            Err(ApiError::Unauthorized)
        } else {
            match id {
                None => Err(ApiError::InvalidRequest),
                Some(c) => match self.owner_check(requester, c) {
                    Some(e) => Err(e),
                    None => Ok(self.client(c).mailbox),
                },
            }
        }
    }
}

/// The identifiers that a list of identifier texts names.
pub open spec fn parse_all(texts: Seq<String>) -> Seq<Option<u128>> {
    texts.map_values(|s: String| uuid_parse(vstd::utf8::encode_utf8(s@)))
}

} // verus!
