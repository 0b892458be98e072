//! Properties of the relay that relate several operations, proved over the
//! model that the operations' contracts are stated in.
use crate::key_package::{expected_identity, key_package_identity};
use crate::model::{parse_all, ClientModel, StoreModel};
use crate::signature::ed25519_accepts;
use crate::types::ApiError;
use vstd::prelude::*;

verus! {

/// The results of `n` fetches in a row from the pool of device `c`, and the
/// state after them.
pub open spec fn fetch_times(s: StoreModel, c: u128, n: nat) -> (
    Seq<Result<Seq<u8>, ApiError>>,
    StoreModel,
)
    decreases n,
{
    if n == 0 {
        (Seq::empty(), s)
    } else {
        let (results, t) = fetch_times(s, c, (n - 1) as nat);
        let (r, u) = t.fetch_key_package(c);
        (results.push(r), u)
    }
}

proof fn lemma_index_unique(s: StoreModel, c: u128, i: int)
    requires
        s.wf(),
        0 <= i < s.clients.len(),
        s.clients[i].uuid == c,
    ensures
        s.has_client(c),
        s.client_index(c) == i,
{
    let k = s.client_index(c);
    assert(s.clients[k].uuid == c);
}

proof fn lemma_update_client(s: StoreModel, c: u128, new_client: ClientModel)
    requires
        s.wf(),
        s.has_client(c),
        new_client.uuid == c,
    ensures
        ({
            let t = s.with_clients(s.clients.update(s.client_index(c), new_client));
            &&& t.wf()
            &&& t.has_client(c)
            &&& t.client_index(c) == s.client_index(c)
            &&& t.client(c) == new_client
            &&& t.users == s.users
        }),
{
    let i = s.client_index(c);
    let t = s.with_clients(s.clients.update(i, new_client));
    assert forall|a: int, b: int|
        0 <= a < b < t.clients.len() implies t.clients[a].uuid != t.clients[b].uuid by {
        assert(t.clients[a].uuid == s.clients[a].uuid);
        assert(t.clients[b].uuid == s.clients[b].uuid);
    }
    lemma_index_unique(t, c, i);
}

proof fn lemma_fetch_times(s: StoreModel, c: u128, n: nat)
    requires
        s.wf(),
        s.has_client(c),
        n <= s.client(c).key_packages.len(),
    ensures
        ({
            let (results, t) = fetch_times(s, c, n);
            let pool = s.client(c).key_packages;
            &&& t.wf()
            &&& t.has_client(c)
            &&& t.client(c).key_packages == pool.subrange(n as int, pool.len() as int)
            &&& results.len() == n
            &&& forall|i: int| 0 <= i < n ==> results[i] == Ok::<Seq<u8>, ApiError>(pool[i])
        }),
    decreases n,
{
    let pool = s.client(c).key_packages;
    if n == 0 {
        assert(pool.subrange(0, pool.len() as int) =~= pool);
    } else {
        lemma_fetch_times(s, c, (n - 1) as nat);
        let (results, t) = fetch_times(s, c, (n - 1) as nat);
        let rest = t.client(c).key_packages;
        let new_client = ClientModel { key_packages: rest.drop_first(), ..t.client(c) };
        lemma_update_client(t, c, new_client);
        assert(rest.drop_first() =~= pool.subrange(n as int, pool.len() as int));
        assert(rest[0] == pool[n - 1]);
    }
}

/// A device created with a signature that the owner's identity key accepts,
/// under an identifier not yet in use, is stored, and reading it back gives
/// the signing key and the signature unchanged.
pub proof fn law_create_then_get(
    s: StoreModel,
    requester: u128,
    id: u128,
    signing_key: Seq<u8>,
    signature: Seq<u8>,
)
    requires
        s.wf(),
        s.has_user(requester),
        ed25519_accepts(s.user(requester).identity, signing_key, signature),
        !s.has_client(id),
    ensures
        s.create_client(requester, id, signing_key, signature).0 == Ok::<u128, ApiError>(id),
        s.create_client(requester, id, signing_key, signature).1.get_client(id) == Ok::<
            (u128, u128, Seq<u8>, Seq<u8>),
            ApiError,
        >((requester, id, signing_key, signature)),
{
    let t = s.create_client(requester, id, signing_key, signature).1;
    assert forall|a: int, b: int|
        0 <= a < b < t.clients.len() implies t.clients[a].uuid != t.clients[b].uuid by {
        if b == s.clients.len() {
            assert(s.clients[a].uuid != id);
        }
    }
    lemma_index_unique(t, id, s.clients.len() as int);
}

/// A signature that the owner's identity key does not accept fails with
/// `BadSignature` and changes nothing, on creation and on key rotation.
pub proof fn law_bad_signature(
    s: StoreModel,
    requester: u128,
    id: u128,
    c: u128,
    signing_key: Seq<u8>,
    signature: Seq<u8>,
)
    requires
        s.has_user(requester),
        !ed25519_accepts(s.user(requester).identity, signing_key, signature),
    ensures
        s.create_client(requester, id, signing_key, signature) == (
            Err::<u128, ApiError>(ApiError::BadSignature),
            s,
        ),
        s.has_client(c) && s.client(c).user_uuid == requester ==> s.update_client(
            requester,
            c,
            signing_key,
            signature,
        ) == (Err::<(), ApiError>(ApiError::BadSignature), s),
{
}

/// A known user who does not own a device can neither rotate its key nor
/// delete it: both fail with `Forbidden` and change nothing, whatever the
/// new key and signature.
pub proof fn law_non_owner_forbidden(
    s: StoreModel,
    requester: u128,
    c: u128,
    signing_key: Seq<u8>,
    signature: Seq<u8>,
)
    requires
        s.has_user(requester),
        s.has_client(c),
        s.client(c).user_uuid != requester,
    ensures
        s.update_client(requester, c, signing_key, signature) == (
            Err::<(), ApiError>(ApiError::Forbidden),
            s,
        ),
        s.delete_client(requester, c) == (Err::<(), ApiError>(ApiError::Forbidden), s),
{
}

/// After the owner replaces the pool of a device with `n` packages that
/// each claim its identity, `n` fetches in a row hand out exactly those
/// packages, each once, oldest first, and the next fetch fails with
/// `NotFound`.
pub proof fn law_replace_then_fetch(
    s: StoreModel,
    requester: u128,
    c: u128,
    packages: Seq<Seq<u8>>,
)
    requires
        s.wf(),
        s.owner_check(requester, c) is None,
        forall|k: int|
            0 <= k < packages.len() ==> key_package_identity(#[trigger] packages[k]) == Some(
                expected_identity(requester, c),
            ),
    ensures
        s.replace_key_packages(requester, c, packages).0 == Ok::<(), ApiError>(()),
        ({
            let t = s.replace_key_packages(requester, c, packages).1;
            let results = fetch_times(t, c, (packages.len() + 1) as nat).0;
            &&& results.len() == packages.len() + 1
            &&& forall|i: int|
                0 <= i < packages.len() ==> results[i] == Ok::<Seq<u8>, ApiError>(packages[i])
            &&& results[packages.len() as int] == Err::<Seq<u8>, ApiError>(ApiError::NotFound)
        }),
{
    let new_client = ClientModel { key_packages: packages, ..s.client(c) };
    lemma_update_client(s, c, new_client);
    let t = s.replace_key_packages(requester, c, packages).1;
    lemma_fetch_times(t, c, packages.len() as nat);
    let u = fetch_times(t, c, packages.len() as nat).1;
    assert(u.client(c).key_packages.len() == 0);
}

/// A pool replacement in which one package claims another identity fails
/// with `InvalidIdentity` and leaves the pool as it was.
pub proof fn law_replace_all_or_nothing(
    s: StoreModel,
    requester: u128,
    c: u128,
    packages: Seq<Seq<u8>>,
    k: int,
)
    requires
        s.owner_check(requester, c) is None,
        0 <= k < packages.len(),
        key_package_identity(packages[k]) != Some(expected_identity(requester, c)),
    ensures
        s.replace_key_packages(requester, c, packages) == (
            Err::<(), ApiError>(ApiError::InvalidIdentity),
            s,
        ),
{
}

/// A message to an empty list of recipients, or to a list with a malformed
/// identifier, fails with `InvalidRequest` and is delivered to nobody.
pub proof fn law_send_malformed(
    s: StoreModel,
    requester: u128,
    texts: Seq<String>,
    payload: Seq<u8>,
    at: i64,
)
    requires
        s.has_user(requester),
        texts.len() == 0 || exists|i: int|
            0 <= i < texts.len() && #[trigger] parse_all(texts)[i] is None,
    ensures
        s.send(requester, parse_all(texts), payload, at) == (
            Err::<(), ApiError>(ApiError::InvalidRequest),
            s,
        ),
{
}

/// A message to well-formed identifiers of which one names no device fails
/// with `NotFound` and is delivered to none of the recipients.
pub proof fn law_send_atomic(
    s: StoreModel,
    requester: u128,
    ids: Seq<Option<u128>>,
    missing: int,
    payload: Seq<u8>,
    at: i64,
)
    requires
        s.has_user(requester),
        forall|i: int| 0 <= i < ids.len() ==> #[trigger] ids[i] is Some,
        0 <= missing < ids.len(),
        !s.has_client(ids[missing]->0),
    ensures
        s.send(requester, ids, payload, at) == (Err::<(), ApiError>(ApiError::NotFound), s),
{
    assert(match ids[missing] {
        Some(c) => !s.has_client(c),
        None => false,
    });
}

} // verus!
