//! Datagrams: a nonce followed by a message sealed under it.
//!
//! Sealing is public-key authenticated encryption between the two sides'
//! long-term keys. A sealed message opens only with the nonce it was
//! sealed under, the sender's public key and the receiver's secret key.
//!
//! Both sides first agree on a key from one side's secret key and the
//! other's public key. Not every 32 bytes are a public key that allows
//! this; where the agreement fails nothing can be sealed.

use crate::err::AccessError;
use crate::keys::{Nonce, PublicKey, SecretKey, MACBYTES, NONCEBYTES};
use sodiumoxide::crypto::box_;
use sodiumoxide::crypto::scalarmult::curve25519::{scalarmult, GroupElement, Scalar};
use vstd::prelude::*;

verus! {

/// Whether the owner of `secret_key` and the owner of `public_key` can
/// agree on a key to seal under: whether the multiplication of the point
/// that `public_key` spells by `secret_key` has a result.
pub uninterp spec fn keys_agree(secret_key: Seq<u8>, public_key: Seq<u8>) -> bool;

/// The message `msg` sealed under `nonce` for the owner of `public_key` by
/// the owner of `secret_key`, where the two keys agree.
pub uninterp spec fn box_sealed(
    msg: Seq<u8>,
    nonce: Seq<u8>,
    public_key: Seq<u8>,
    secret_key: Seq<u8>,
) -> Seq<u8>;

/// What is in `sealed` if it was sealed under `nonce` for the owner of
/// `secret_key` by the owner of `public_key`, and `None` if it was not.
pub uninterp spec fn box_opened(
    sealed: Seq<u8>,
    nonce: Seq<u8>,
    public_key: Seq<u8>,
    secret_key: Seq<u8>,
) -> Option<Seq<u8>>;

/// `sodiumoxide::crypto::scalarmult::scalarmult`: whether the
/// multiplication succeeds. It fails where it has no result, as for the
/// all-zero point. The outcome depends on the two keys alone.
#[verifier::external_body]
fn agree(secret_key: &SecretKey, public_key: &PublicKey) -> (ok: bool)
    ensures
        ok == keys_agree(secret_key@, public_key@),
{
    scalarmult(&Scalar(secret_key.0), &GroupElement(public_key.0)).is_ok()
}

/// `sodiumoxide::crypto::box_::seal`: seals `msg`. The function begins
/// with the multiplication that [`agree`] makes, on the same two keys.
/// Where that fails it returns its buffer as it was allocated, unwritten:
/// `requires` leaves those keys out. Where it succeeds the result depends
/// on the four arguments alone. It is [`MACBYTES`] longer than `msg`. The
/// function allocates the result at once, which fails for a length that
/// no allocation can have.
#[verifier::external_body]
fn seal_box(msg: &[u8], nonce: &Nonce, public_key: &PublicKey, secret_key: &SecretKey) -> (sealed:
    Vec<u8>)
    requires
        keys_agree(secret_key@, public_key@),
        msg@.len() + MACBYTES <= isize::MAX,
    ensures
        sealed@ == box_sealed(msg@, nonce@, public_key@, secret_key@),
        sealed@.len() == msg@.len() + MACBYTES,
{
    box_::seal(
        msg,
        &box_::Nonce(nonce.0),
        &box_::PublicKey(public_key.0),
        &box_::SecretKey(secret_key.0),
    )
}

/// `sodiumoxide::crypto::box_::open`: opens `sealed`, or fails where it
/// was not sealed under this nonce between these keys. The result depends
/// on the four arguments alone. Anything shorter than [`MACBYTES`] fails,
/// and what opens is [`MACBYTES`] shorter than `sealed`.
#[verifier::external_body]
fn open_box(sealed: &[u8], nonce: &Nonce, public_key: &PublicKey, secret_key: &SecretKey) -> (msg:
    Option<Vec<u8>>)
    ensures
        msg is Some <==> box_opened(sealed@, nonce@, public_key@, secret_key@) is Some,
        msg matches Some(m) ==> box_opened(sealed@, nonce@, public_key@, secret_key@) == Some(m@)
            && m@.len() + MACBYTES == sealed@.len(),
        sealed@.len() < MACBYTES ==> msg is None,
{
    box_::open(
        sealed,
        &box_::Nonce(nonce.0),
        &box_::PublicKey(public_key.0),
        &box_::SecretKey(secret_key.0),
    ).ok()
}

/// What is in the datagram `packet` for the owner of `secret_key` if the
/// owner of `public_key` sent it: what its sealed part holds under the
/// nonce it begins with. `None` for a datagram too short to hold a nonce.
pub open spec fn packet_content(packet: Seq<u8>, secret_key: Seq<u8>, public_key: Seq<u8>)
    -> Option<Seq<u8>> {
    if packet.len() < NONCEBYTES {
        None
    } else {
        box_opened(
            packet.skip(NONCEBYTES as int),
            packet.take(NONCEBYTES as int),
            public_key,
            secret_key,
        )
    }
}

/// Opens the datagram `packet` as one from the owner of `public_key`.
///
/// A datagram too short to begin with a nonce is refused as
/// [`AccessError::InvalidNonce`], one whose sealed part does not open as
/// [`AccessError::InvalidCiphertext`].
pub fn open(packet: &[u8], secret_key: &SecretKey, public_key: &PublicKey) -> (result: Result<
    Vec<u8>,
    AccessError,
>)
    ensures
        result is Ok <==> packet_content(packet@, secret_key@, public_key@) is Some,
        result matches Ok(msg) ==> packet_content(packet@, secret_key@, public_key@) == Some(msg@),
        result matches Err(e) ==> if packet@.len() < NONCEBYTES {
            e is InvalidNonce
        } else {
            e is InvalidCiphertext
        },
{
    if packet.len() < NONCEBYTES {
        return Err(AccessError::InvalidNonce);
    }
    let (front, sealed) = packet.split_at(NONCEBYTES);
    match Nonce::from_slice(front) {
        Some(nonce) => match open_box(sealed, &nonce, public_key, secret_key) {
            Some(msg) => Ok(msg),
            None => Err(AccessError::InvalidCiphertext),
        },
        None => Err(AccessError::InvalidNonce),
    }
}

/// Whether a message can be sealed between the owner of `secret_key` and
/// the owner of `public_key`.
pub fn can_seal(secret_key: &SecretKey, public_key: &PublicKey) -> (ok: bool)
    ensures
        ok == keys_agree(secret_key@, public_key@),
{
    agree(secret_key, public_key)
}

/// Seals `msg` under `nonce` for the owner of `public_key`. The result is
/// the sealed part of a datagram; [`assemble`] puts the nonce in front.
/// The keys must agree, as [`can_seal`] tells, and the sealed part must
/// not be longer than anything in memory can be. [`try_create`] asks for
/// no agreement and tests it.
pub fn create(msg: &[u8], nonce: &Nonce, secret_key: &SecretKey, public_key: &PublicKey) -> (sealed:
    Vec<u8>)
    requires
        keys_agree(secret_key@, public_key@),
        msg@.len() + MACBYTES <= isize::MAX,
    ensures
        sealed@ == box_sealed(msg@, nonce@, public_key@, secret_key@),
        sealed@.len() == msg@.len() + MACBYTES,
{
    seal_box(msg, nonce, public_key, secret_key)
}

/// Seals `msg` under `nonce` for the owner of `public_key`, as [`create`]
/// does, if the keys agree. `None` if they do not: nothing is sealed
/// then.
pub fn try_create(
    msg: &[u8],
    nonce: &Nonce,
    secret_key: &SecretKey,
    public_key: &PublicKey,
) -> (sealed: Option<Vec<u8>>)
    requires
        msg@.len() + MACBYTES <= isize::MAX,
    ensures
        sealed is Some <==> keys_agree(secret_key@, public_key@),
        sealed matches Some(s) ==> s@ == box_sealed(msg@, nonce@, public_key@, secret_key@)
            && s@.len() == msg@.len() + MACBYTES,
{
    if can_seal(secret_key, public_key) {
        Some(create(msg, nonce, secret_key, public_key))
    } else {
        None
    }
}

/// The datagram that carries `sealed`: the nonce, then the sealed part.
pub fn assemble(nonce: &Nonce, sealed: Vec<u8>) -> (packet: Vec<u8>)
    ensures
        packet@ == nonce@ + sealed@,
{
    let mut packet: Vec<u8> = Vec::new();
    let mut i: usize = 0;
    while i < NONCEBYTES
        invariant
            i <= NONCEBYTES,
            packet@ == nonce@.take(i as int),
        decreases NONCEBYTES - i,
    {
        packet.push(nonce.0[i]);
        assert(packet@ =~= nonce@.take(i + 1));
        i += 1;
    }
    assert(nonce@.take(NONCEBYTES as int) =~= nonce@);
    let mut sealed = sealed;
    packet.append(&mut sealed);
    packet
}

/// A datagram put together from a nonce and a sealed part opens to
/// whatever the sealed part holds under that nonce.
pub proof fn lemma_assembled_content(
    nonce: Seq<u8>,
    sealed: Seq<u8>,
    secret_key: Seq<u8>,
    public_key: Seq<u8>,
)
    requires
        nonce.len() == NONCEBYTES,
    ensures
        packet_content(nonce + sealed, secret_key, public_key) == box_opened(
            sealed,
            nonce,
            public_key,
            secret_key,
        ),
{
    let packet = nonce + sealed;
    assert(packet.take(NONCEBYTES as int) =~= nonce);
    assert(packet.skip(NONCEBYTES as int) =~= sealed);
}

} // verus!
