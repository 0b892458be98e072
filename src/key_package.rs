//! Reading the identity that a key package claims.
//!
//! A key package is the wire form of an MLS `KeyPackage`: a protocol
//! version and a cipher suite (two bytes each), the init key, then the leaf
//! node, which opens with the encryption key, the signature key and the
//! credential. A basic credential is the credential type `0x0001` followed by
//! the identity. Keys and the identity are vectors: a length prefix of one,
//! two or four bytes, chosen by the top two bits of its first byte (`00`,
//! `01`, `10`), whose remaining bits give the length of the body that
//! follows. Everything after the identity is left unread.
use crate::ids::{uuid_text, uuid_text_bytes};
use vstd::prelude::*;

verus! {

/// The body length and the prefix length of the vector that starts at `pos`.
pub open spec fn vector_header(b: Seq<u8>, pos: int) -> Option<(int, int)> {
    if pos < 0 || pos >= b.len() {
        None
    } else {
        let tag = (b[pos] as int) / 64;
        let low = (b[pos] as int) % 64;
        if tag == 0 {
            Some((low, 1))
        } else if tag == 1 && pos + 2 <= b.len() {
            Some((low * 256 + b[pos + 1] as int, 2))
        } else if tag == 2 && pos + 4 <= b.len() {
            Some(
                (
                    low * 16777216 + (b[pos + 1] as int) * 65536 + (b[pos + 2] as int) * 256
                        + b[pos + 3] as int,
                    4,
                ),
            )
        } else {
            None
        }
    }
}

/// Where the vector that starts at `pos` ends, if it lies within `b`.
pub open spec fn skip_vector(b: Seq<u8>, pos: int) -> Option<int> {
    match vector_header(b, pos) {
        Some((n, h)) => if pos + h + n <= b.len() {
            Some(pos + h + n)
        } else {
            None
        },
        None => None,
    }
}

/// The body of the vector that starts at `pos`, if it lies within `b`.
pub open spec fn vector_body(b: Seq<u8>, pos: int) -> Option<Seq<u8>> {
    match vector_header(b, pos) {
        Some((n, h)) => if pos + h + n <= b.len() {
            Some(b.subrange(pos + h, pos + h + n))
        } else {
            None
        },
        None => None,
    }
}

/// The identity of the basic credential in a key package, if the key package
/// reads up to it.
pub open spec fn key_package_identity(b: Seq<u8>) -> Option<Seq<u8>> {
    match skip_vector(b, 4) {
        None => None,
        Some(init_end) => match skip_vector(b, init_end) {
            None => None,
            Some(enc_end) => match skip_vector(b, enc_end) {
                None => None,
                Some(sig_end) => if sig_end + 2 <= b.len() && b[sig_end] == 0 && b[sig_end + 1]
                    == 1 {
                    vector_body(b, sig_end + 2)
                } else {
                    None
                },
            },
        },
    }
}

/// The identity that a key package of device `client`, owned by `user`,
/// must claim: `client_<user>_<client>`, each identifier in its canonical text.
pub open spec fn expected_identity(user: u128, client: u128) -> Seq<u8> {
    seq![99u8, 108u8, 105u8, 101u8, 110u8, 116u8, 95u8] + uuid_text(user) + seq![95u8]
        + uuid_text(client)
}

fn read_vector_header(b: &[u8], pos: usize) -> (r: Option<(usize, usize)>)
    ensures
        match r {
            Some((n, h)) => vector_header(b@, pos as int) == Some((n as int, h as int)),
            None => vector_header(b@, pos as int) is None,
        },
{
    if pos >= b.len() {
        return None;
    }
    let first = b[pos];
    let tag = first / 64;
    let low = (first % 64) as usize;
    if tag == 0 {
        Some((low, 1))
    } else if tag == 1 && b.len() - pos >= 2 {
        Some((low * 256 + b[pos + 1] as usize, 2))
    } else if tag == 2 && b.len() - pos >= 4 {
        let n = low * 16777216 + (b[pos + 1] as usize) * 65536 + (b[pos + 2] as usize) * 256
            + b[pos + 3] as usize;
        Some((n, 4))
    } else {
        None
    }
}

/// The start and end of the body of the vector at `pos`, if it lies within `b`.
fn read_vector(b: &[u8], pos: usize) -> (r: Option<(usize, usize)>)
    ensures
        match r {
            Some((s, e)) => {
                &&& s <= e <= b@.len()
                &&& skip_vector(b@, pos as int) == Some(e as int)
                &&& vector_body(b@, pos as int) == Some(b@.subrange(s as int, e as int))
            },
            None => skip_vector(b@, pos as int) is None && vector_body(b@, pos as int) is None,
        },
{
    match read_vector_header(b, pos) {
        None => None,
        Some((n, h)) => {
            if n <= b.len() - pos - h {
                Some((pos + h, pos + h + n))
            } else {
                None
            }
        },
    }
}

/// Where the identity of a key package lies in it.
fn identity_range(b: &[u8]) -> (r: Option<(usize, usize)>)
    ensures
        match r {
            Some((s, e)) => s <= e <= b@.len() && key_package_identity(b@) == Some(
                b@.subrange(s as int, e as int),
            ),
            None => key_package_identity(b@) is None,
        },
{
    let init_end = match read_vector(b, 4) {
        Some((_, e)) => e,
        None => return None,
    };
    let enc_end = match read_vector(b, init_end) {
        Some((_, e)) => e,
        None => return None,
    };
    let sig_end = match read_vector(b, enc_end) {
        Some((_, e)) => e,
        None => return None,
    };
    if b.len() - sig_end < 2 || b[sig_end] != 0 || b[sig_end + 1] != 1 {
        return None;
    }
    read_vector(b, sig_end + 2)
}

fn push_all(v: &mut Vec<u8>, s: &Vec<u8>)
    ensures
        final(v)@ == old(v)@ + s@,
{
    let mut i: usize = 0;
    while i < s.len()
        invariant
            i <= s@.len(),
            v@ == old(v)@ + s@.subrange(0, i as int),
        decreases s@.len() - i,
    {
        v.push(s[i]);
        i += 1;
        assert(s@.subrange(0, i as int) =~= s@.subrange(0, i - 1) + seq![s@[i - 1]]);
    }
    assert(s@.subrange(0, i as int) =~= s@);
}

/// The identity that a key package of device `client`, owned by `user`,
/// must claim.
pub fn identity_text(user: u128, client: u128) -> (r: Vec<u8>)
    ensures
        r@ == expected_identity(user, client),
{
    let mut r: Vec<u8> = vec![99u8, 108u8, 105u8, 101u8, 110u8, 116u8, 95u8];
    let user_text = uuid_text_bytes(user);
    push_all(&mut r, &user_text);
    r.push(95u8);
    let client_text = uuid_text_bytes(client);
    push_all(&mut r, &client_text);
    assert(r@ =~= expected_identity(user, client));
    r
}

/// Whether a key package claims the identity of device `client` of `user`.
pub fn identity_matches(payload: &[u8], user: u128, client: u128) -> (r: bool)
    ensures
        r == (key_package_identity(payload@) == Some(expected_identity(user, client))),
{
    let expected = identity_text(user, client);
    let (s, e) = match identity_range(payload) {
        Some(range) => range,
        None => return false,
    };
    if e - s != expected.len() {
        assert(payload@.subrange(s as int, e as int).len() != expected@.len());
        return false;
    }
    let mut i: usize = 0;
    while i < expected.len()
        invariant
            i <= expected@.len(),
            s <= e <= payload@.len(),
            e - s == expected@.len(),
            key_package_identity(payload@) == Some(payload@.subrange(s as int, e as int)),
            expected@ == expected_identity(user, client),
            forall|j: int| 0 <= j < i ==> payload@[s + j] == expected@[j],
        decreases expected@.len() - i,
    {
        if payload[s + i] != expected[i] {
            assert(payload@.subrange(s as int, e as int)[i as int] == payload@[s + i]);
            assert(payload@.subrange(s as int, e as int) != expected@);
            return false;
        }
        i += 1;
    }
    assert(payload@.subrange(s as int, e as int) =~= expected@);
    true
}

} // verus!
