//! Directory and store-and-forward relay for an end-to-end-encrypted
//! group-messaging service: device attestation, single-use key-package
//! pools and per-device mailboxes, with their authorization rules.

pub mod ids;
pub mod key_package;
pub mod laws;
pub mod model;
pub mod signature;
pub mod store;
pub mod types;

pub use types::{
    ApiError, CheckMessages, ClientsResponse, CreateClient, CreateClientResponse, CreateUser,
    DeliveredMessage, KeyPackagePublic, Message, MessagesResponse, PublicClient,
    ReplaceKeyPackages, SendMessage, UpdateClient, User,
};
pub use key_package::{identity_matches, identity_text};
pub use store::Store;
