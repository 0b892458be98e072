use vstd::prelude::*;

verus! {

/// The kinds of failure an operation reports to its caller.
#[derive(Clone, Copy, Debug, PartialEq, Eq, Structural)]
pub enum ApiError {
    /// No credentials, or credentials that resolve to no user.
    Unauthorized,
    /// Valid credentials that do not own the target.
    Forbidden,
    /// A well-formed reference to something that does not exist.
    NotFound,
    /// A malformed identifier or an empty required list.
    InvalidRequest,
    /// A device key whose attestation does not verify.
    BadSignature,
    /// A key package whose embedded identity names another device.
    InvalidIdentity,
    /// A conflict in storage, such as an identifier that is already taken.
    Internal,
}

impl ApiError {
    /// The HTTP status code that reports this kind of failure.
    pub fn status_code(&self) -> (r: u16)
        ensures
            r == match *self {
                ApiError::Unauthorized => 401u16,
                ApiError::Forbidden => 403u16,
                ApiError::NotFound => 404u16,
                ApiError::InvalidRequest | ApiError::BadSignature | ApiError::InvalidIdentity => 400u16,
                ApiError::Internal => 500u16,
            },
    {
        match self {
            ApiError::Unauthorized => 401,
            ApiError::Forbidden => 403,
            ApiError::NotFound => 404,
            ApiError::InvalidRequest | ApiError::BadSignature | ApiError::InvalidIdentity => 400,
            ApiError::Internal => 500,
        }
    }
}

/// A registered user. The identity key roots the trust in every device of the user.
#[derive(Debug)]
pub struct User {
    pub uuid: u128,
    pub username: String,
    pub email: String,
    pub name: String,
    pub identity: Vec<u8>,
    pub primary_client_uuid: Option<u128>,
}

/// Registration data of a user.
#[derive(Debug)]
pub struct CreateUser {
    pub email: String,
    pub username: String,
    pub password: String,
    pub name: String,
    pub identity: Vec<u8>,
}

/// A new device: its signing key and the identity key's signature over it.
#[derive(Debug)]
pub struct CreateClient {
    pub signing_key: Vec<u8>,
    pub signature: Vec<u8>,
}

#[derive(Clone, Copy, Debug, PartialEq, Eq, Structural)]
pub struct CreateClientResponse {
    pub client_uuid: u128,
}

/// A key rotation: the new signing key and the identity key's signature over it.
#[derive(Debug)]
pub struct UpdateClient {
    pub signing_key: Vec<u8>,
    pub signature: Vec<u8>,
}

/// The new pool of key packages of a device.
#[derive(Debug)]
pub struct ReplaceKeyPackages {
    pub key_packages: Vec<Vec<u8>>,
}

/// One key package, handed out once.
#[derive(Debug)]
pub struct KeyPackagePublic {
    pub key_package: Vec<u8>,
}

/// An opaque message body.
#[derive(Debug)]
pub struct Message {
    pub message: Vec<u8>,
}

/// A message and the devices it is addressed to, as identifier text.
#[derive(Debug)]
pub struct SendMessage {
    pub client_uuids: Vec<String>,
    pub message: Message,
}

/// A request for the mailbox of a device, named by identifier text.
#[derive(Debug)]
pub struct CheckMessages {
    pub client_uuid: String,
}

/// A mailbox entry: the message body and the time it was received.
#[derive(Debug)]
pub struct DeliveredMessage {
    pub message: Vec<u8>,
    pub received_date: i64,
}

impl View for DeliveredMessage {
    type V = (Seq<u8>, i64);

    open spec fn view(&self) -> (Seq<u8>, i64) {
        (self.message@, self.received_date)
    }
}

/// The contents of a mailbox, oldest first.
#[derive(Debug)]
pub struct MessagesResponse {
    pub messages: Vec<DeliveredMessage>,
}

/// What anyone may read of a device.
#[derive(Debug)]
pub struct PublicClient {
    pub user_uuid: u128,
    pub uuid: u128,
    pub signing_key: Vec<u8>,
    pub signature: Vec<u8>,
}

impl View for PublicClient {
    type V = (u128, u128, Seq<u8>, Seq<u8>);

    open spec fn view(&self) -> (u128, u128, Seq<u8>, Seq<u8>) {
        (self.user_uuid, self.uuid, self.signing_key@, self.signature@)
    }
}

/// The devices of one user, in the order they were registered.
#[derive(Debug)]
pub struct ClientsResponse {
    pub clients: Vec<PublicClient>,
}

} // verus!
