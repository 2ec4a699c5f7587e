//! Long-term keys: what each side loads at start and never changes.
//!
//! In a key file every key stands as base 16 text. The functions here turn
//! such text into keys and back; reading and writing the file is the
//! caller's part.

use crate::err::AccessError;
pub use crate::hex::u8vec_as_hex;
use crate::hex::{
    as_chars, first_bad, hex_as_u8vec, hex_data, hex_text, is_hex, lemma_first_bad,
    lemma_hex_round_trip, lemma_hex_text_is_hex, lemma_symbols_as_text, HexError,
};
use crate::names::NameMap;
use vstd::prelude::*;
use vstd::string::{StringExecFns, StringSliceAdditionalSpecFns};
use vstd::utf8::encode_utf8;

verus! {

/// Number of bytes in a public key.
pub const PUBLICKEYBYTES: usize = 32;

/// Number of bytes in a secret key.
pub const SECRETKEYBYTES: usize = 32;

/// Number of bytes in a nonce.
pub const NONCEBYTES: usize = 24;

/// Number of bytes by which a sealed message is longer than the message.
pub const MACBYTES: usize = 16;

/// A peer's public key.
#[derive(Clone, Copy, Debug)]
pub struct PublicKey(pub [u8; 32]);

/// One's own secret key.
pub struct SecretKey(pub [u8; 32]);

/// The number that makes each sealed message of a pair of keys unique.
#[derive(Clone, Copy, Debug)]
pub struct Nonce(pub [u8; 24]);

impl View for PublicKey {
    type V = Seq<u8>;

    open spec fn view(&self) -> Seq<u8> {
        self.0@
    }
}

impl View for SecretKey {
    type V = Seq<u8>;

    open spec fn view(&self) -> Seq<u8> {
        self.0@
    }
}

impl View for Nonce {
    type V = Seq<u8>;

    open spec fn view(&self) -> Seq<u8> {
        self.0@
    }
}

/// The first 32 bytes of `bs`.
fn first_32(bs: &[u8]) -> (out: [u8; 32])
    requires
        bs.len() >= 32,
    ensures
        out@ == bs@.take(32),
{
    let mut out: [u8; 32] = [0u8; 32];
    let mut i: usize = 0;
    while i < 32
        invariant
            i <= 32,
            bs.len() >= 32,
            forall|k: int| 0 <= k < i ==> out@[k] == bs@[k],
        decreases 32 - i,
    {
        out[i] = bs[i];
        i += 1;
    }
    assert(out@ =~= bs@.take(32));
    out
}

/// The first 24 bytes of `bs`.
fn first_24(bs: &[u8]) -> (out: [u8; 24])
    requires
        bs.len() >= 24,
    ensures
        out@ == bs@.take(24),
{
    let mut out: [u8; 24] = [0u8; 24];
    let mut i: usize = 0;
    while i < 24
        invariant
            i <= 24,
            bs.len() >= 24,
            forall|k: int| 0 <= k < i ==> out@[k] == bs@[k],
        decreases 24 - i,
    {
        out[i] = bs[i];
        i += 1;
    }
    assert(out@ =~= bs@.take(24));
    out
}

impl PublicKey {
    /// The key made of the bytes `bs`, or `None` unless there are exactly
    /// [`PUBLICKEYBYTES`] of them.
    pub fn from_slice(bs: &[u8]) -> (key: Option<PublicKey>)
        ensures
            key is Some <==> bs.len() == PUBLICKEYBYTES,
            key matches Some(k) ==> k@ == bs@,
    {
        if bs.len() != PUBLICKEYBYTES {
            return None;
        }
        let key = PublicKey(first_32(bs));
        assert(bs@.take(32) =~= bs@);
        Some(key)
    }
}

impl SecretKey {
    /// The key made of the bytes `bs`, or `None` unless there are exactly
    /// [`SECRETKEYBYTES`] of them.
    pub fn from_slice(bs: &[u8]) -> (key: Option<SecretKey>)
        ensures
            key is Some <==> bs.len() == SECRETKEYBYTES,
            key matches Some(k) ==> k@ == bs@,
    {
        if bs.len() != SECRETKEYBYTES {
            return None;
        }
        let key = SecretKey(first_32(bs));
        assert(bs@.take(32) =~= bs@);
        Some(key)
    }
}

/// `sodiumoxide::randombytes::randombytes`: `size` bytes from the system's
/// random source. Only their number is known.
#[verifier::external_body]
fn random_bytes(size: usize) -> (bytes: Vec<u8>)
    requires
        size <= isize::MAX,
    ensures
        bytes@.len() == size,
{
    sodiumoxide::randombytes::randombytes(size)
}

impl Nonce {
    /// A nonce drawn at random, as every datagram needs one of its own.
    pub fn random() -> Nonce {
        let bytes = random_bytes(NONCEBYTES);
        Nonce(first_24(bytes.as_slice()))
    }

    /// The nonce made of the bytes `bs`, or `None` unless there are
    /// exactly [`NONCEBYTES`] of them.
    pub fn from_slice(bs: &[u8]) -> (nonce: Option<Nonce>)
        ensures
            nonce is Some <==> bs.len() == NONCEBYTES,
            nonce matches Some(n) ==> n@ == bs@,
    {
        if bs.len() != NONCEBYTES {
            return None;
        }
        let nonce = Nonce(first_24(bs));
        assert(bs@.take(24) =~= bs@);
        Some(nonce)
    }
}

/// A public key with the secret key that belongs to it.
pub struct Keypair {
    /// The key to keep.
    pub secret: SecretKey,
    /// The key to give to the other side.
    pub public: PublicKey,
}

/// What a client loads: its own secret key and the server's public key.
pub struct ClientKeyData {
    /// The client's secret key.
    pub secret: SecretKey,
    /// The server's public key.
    pub peer_public: PublicKey,
}

/// What the server loads: its own secret key and the public key of every
/// client it trusts, by the client's name.
pub struct ServerKeyData {
    /// The server's secret key.
    pub secret: SecretKey,
    /// The clients' public keys by name.
    pub peer_public_keys: NameMap<PublicKey>,
}

/// Whether `text` is the base 16 form of `len` bytes.
pub open spec fn is_key_text(text: Seq<u8>, len: nat) -> bool {
    text.len() == 2 * len && is_hex(text)
}

/// What is wrong with `text` where it is not the base 16 form of a key.
pub open spec fn key_text_fault(text: Seq<u8>) -> Seq<char> {
    if text.len() % 2 == 1 {
        HexError::BadLength.spec_to_string()
    } else if !is_hex(text) {
        HexError::BadCharacter(first_bad(text) as usize).spec_to_string()
    } else {
        "failed to deserialize public key"@
    }
}

/// A key written in base 16 reads back as itself: its text is the base 16
/// form of a key, and spells the key's bytes.
pub proof fn lemma_key_round_trip(key: Seq<u8>)
    requires
        key.len() == PUBLICKEYBYTES,
    ensures
        is_key_text(encode_utf8(as_chars(hex_text(key))), PUBLICKEYBYTES as nat),
        hex_data(encode_utf8(as_chars(hex_text(key)))) == key,
{
    lemma_hex_text_is_hex(key);
    lemma_symbols_as_text(hex_text(key));
    lemma_hex_round_trip(key);
}

/// Reads the bytes of a key of `len` bytes from its base 16 form.
fn key_bytes_from_hex(text: &str, len: usize) -> (result: Result<Vec<u8>, AccessError>)
    ensures
        result is Ok <==> is_key_text(text.spec_bytes(), len as nat),
        result matches Ok(bytes) ==> bytes@ == hex_data(text.spec_bytes()) && bytes.len() == len,
        result matches Err(e) ==> e matches AccessError::SerializeError(why) && why@
            == key_text_fault(text.spec_bytes()),
{
    match hex_as_u8vec(text) {
        Ok(bytes) => {
            if bytes.len() == len {
                Ok(bytes)
            } else {
                Err(
                    AccessError::SerializeError(
                        String::from_str("failed to deserialize public key"),
                    ),
                )
            }
        },
        Err(e) => {
            proof {
                if let HexError::BadCharacter(at) = e {
                    lemma_first_bad(text.spec_bytes(), at as int);
                }
            }
            Err(AccessError::SerializeError(e.to_string()))
        },
    }
}

/// Reads a public key from its base 16 form: 64 symbols of `0-9A-F`.
pub fn pubkey_from_hex(text: &str) -> (result: Result<PublicKey, AccessError>)
    ensures
        result is Ok <==> is_key_text(text.spec_bytes(), PUBLICKEYBYTES as nat),
        result matches Ok(key) ==> key@ == hex_data(text.spec_bytes()),
        result matches Err(e) ==> e matches AccessError::SerializeError(why) && why@
            == key_text_fault(text.spec_bytes()),
{
    match key_bytes_from_hex(text, PUBLICKEYBYTES) {
        Ok(bytes) => {
            let key = PublicKey(first_32(bytes.as_slice()));
            assert(bytes@.take(32) =~= bytes@);
            Ok(key)
        },
        Err(e) => Err(e),
    }
}

/// Reads a secret key from its base 16 form: 64 symbols of `0-9A-F`.
pub fn seckey_from_hex(text: &str) -> (result: Result<SecretKey, AccessError>)
    ensures
        result is Ok <==> is_key_text(text.spec_bytes(), SECRETKEYBYTES as nat),
        result matches Ok(key) ==> key@ == hex_data(text.spec_bytes()),
        result matches Err(e) ==> e matches AccessError::SerializeError(why) && why@
            == key_text_fault(text.spec_bytes()),
{
    match key_bytes_from_hex(text, SECRETKEYBYTES) {
        Ok(bytes) => {
            let key = SecretKey(first_32(bytes.as_slice()));
            assert(bytes@.take(32) =~= bytes@);
            Ok(key)
        },
        Err(e) => Err(e),
    }
}

/// The keys of `keys` as bytes.
pub open spec fn key_bytes(keys: Map<Seq<char>, PublicKey>) -> Map<Seq<char>, Seq<u8>> {
    keys.map_values(|key: PublicKey| key@)
}

/// The peers' keys that the entries `entries` of a key file spell, each a
/// name with a key in base 16, or `None` if one of the keys is ill-formed.
/// Of two entries under one name the later counts.
pub open spec fn peer_keys(entries: Seq<(String, String)>) -> Option<Map<Seq<char>, Seq<u8>>>
    decreases entries.len(),
{
    if entries.len() == 0 {
        Some(Map::empty())
    } else {
        match peer_keys(entries.drop_last()) {
            None => None,
            Some(keys) => {
                let text = entries.last().1@;
                if is_key_text(encode_utf8(text), PUBLICKEYBYTES as nat) {
                    Some(keys.insert(entries.last().0@, hex_data(encode_utf8(text))))
                } else {
                    None
                }
            },
        }
    }
}

/// The names of `entries` in the order in which they first appear.
pub open spec fn peer_order(entries: Seq<(String, String)>) -> Seq<Seq<char>>
    decreases entries.len(),
{
    if entries.len() == 0 {
        Seq::empty()
    } else {
        let before = peer_order(entries.drop_last());
        if before.contains(entries.last().0@) {
            before
        } else {
            before.push(entries.last().0@)
        }
    }
}

/// What is wrong with the first ill-formed key of `entries`.
pub open spec fn peer_keys_fault(entries: Seq<(String, String)>) -> Seq<char>
    decreases entries.len(),
{
    if entries.len() == 0 {
        Seq::empty()
    } else if peer_keys(entries.drop_last()) is None {
        peer_keys_fault(entries.drop_last())
    } else {
        key_text_fault(encode_utf8(entries.last().1@))
    }
}

/// Entries with an ill-formed key among the first `upto` spell no keys,
/// and their first fault is that of those first entries.
proof fn lemma_fault_stays(entries: Seq<(String, String)>, upto: int)
    requires
        0 <= upto <= entries.len(),
        peer_keys(entries.take(upto)) is None,
    ensures
        peer_keys(entries) is None,
        peer_keys_fault(entries) == peer_keys_fault(entries.take(upto)),
    decreases entries.len() - upto,
{
    if upto == entries.len() {
        assert(entries.take(upto) =~= entries);
    } else {
        let next = entries.take(upto + 1);
        assert(next.drop_last() =~= entries.take(upto));
        lemma_fault_stays(entries, upto + 1);
    }
}

/// Entries that list each name once, with a key of 32 bytes in base 16,
/// spell exactly these keys under these names, in this order.
proof fn lemma_peer_keys_listing(
    entries: Seq<(String, String)>,
    names: Seq<Seq<char>>,
    keys: Seq<Seq<u8>>,
    upto: int,
)
    requires
        names.no_duplicates(),
        names.len() == entries.len(),
        keys.len() == entries.len(),
        0 <= upto <= entries.len(),
        forall|k: int|
            0 <= k < entries.len() ==> (#[trigger] entries[k]).0@ == names[k] && entries[k].1@
                == as_chars(hex_text(keys[k])) && keys[k].len() == PUBLICKEYBYTES,
    ensures
        peer_keys(entries.take(upto)) is Some,
        forall|name: Seq<char>| #[trigger]
            peer_keys(entries.take(upto))->0.contains_key(name) <==> names.take(upto).contains(
                name,
            ),
        forall|k: int|
            0 <= k < upto ==> peer_keys(entries.take(upto))->0[#[trigger] names[k]] == keys[k],
        peer_order(entries.take(upto)) == names.take(upto),
    decreases upto,
{
    let now = entries.take(upto);
    if upto > 0 {
        lemma_peer_keys_listing(entries, names, keys, upto - 1);
        let before = entries.take(upto - 1);
        assert(now.drop_last() =~= before);
        assert(now.last() == entries[upto - 1]);
        let prior = names.take(upto - 1);
        let listed = names.take(upto);
        let added = names[upto - 1];
        let key = keys[upto - 1];
        assert(listed =~= prior.push(added));
        lemma_key_round_trip(key);
        assert(peer_keys(now) == Some(peer_keys(before)->0.insert(added, key)));
        assert forall|name: Seq<char>| #[trigger]
            peer_keys(now)->0.contains_key(name) <==> listed.contains(name) by {
            if prior.contains(name) {
                let k = choose|k: int| 0 <= k < prior.len() && prior[k] == name;
                assert(listed[k] == name);
            }
            if name == added {
                assert(listed[upto - 1] == name);
            }
            if listed.contains(name) {
                let k = choose|k: int| 0 <= k < listed.len() && listed[k] == name;
                if k < upto - 1 {
                    assert(prior[k] == name);
                }
            }
        }
        assert forall|k: int| 0 <= k < upto implies peer_keys(now)->0[#[trigger] names[k]]
            == keys[k] by {
            if k < upto - 1 {
                assert(names[k] != added);
            }
        }
        assert(!prior.contains(added)) by {
            if prior.contains(added) {
                let k = choose|k: int| 0 <= k < prior.len() && prior[k] == added;
                assert(names[k] == names[upto - 1]);
            }
        }
    } else {
        assert(names.take(0) =~= Seq::<Seq<char>>::empty());
    }
}

/// Reads the peers' public keys from the entries of a key file.
pub fn de_public_keys(entries: &Vec<(String, String)>) -> (result: Result<
    NameMap<PublicKey>,
    AccessError,
>)
    ensures
        result is Ok <==> peer_keys(entries@) is Some,
        result matches Ok(keys) ==> Some(key_bytes(keys@)) == peer_keys(entries@) && keys.names()
            == peer_order(entries@),
        result matches Err(e) ==> e matches AccessError::SerializeError(why) && why@
            == peer_keys_fault(entries@),
{
    let mut keys: NameMap<PublicKey> = NameMap::new();
    let mut i: usize = 0;
    assert(entries@.take(0) =~= Seq::<(String, String)>::empty());
    assert(key_bytes(keys@) =~= Map::<Seq<char>, Seq<u8>>::empty());
    assert(keys.names() =~= Seq::<Seq<char>>::empty());
    while i < entries.len()
        invariant
            i <= entries.len(),
            Some(key_bytes(keys@)) == peer_keys(entries@.take(i as int)),
            keys.names() == peer_order(entries@.take(i as int)),
            forall|n: Seq<char>| keys@.contains_key(n) <==> keys.names().contains(n),
        decreases entries.len() - i,
    {
        let ghost upto = entries@.take(i + 1);
        assert(upto.drop_last() =~= entries@.take(i as int));
        assert(upto.last() == entries@[i as int]);
        match pubkey_from_hex(entries[i].1.as_str()) {
            Ok(key) => {
                let ghost before = keys;
                keys.insert(entries[i].0.clone(), key);
                proof {
                    let name = entries@[i as int].0@;
                    assert(key_bytes(keys@) =~= key_bytes(before@).insert(name, key@));
                    assert forall|n: Seq<char>| keys@.contains_key(n) <==> keys.names().contains(
                        n,
                    ) by {
                        if before@.contains_key(name) {
                        } else {
                            let names = before.names().push(name);
                            if n == name {
                                assert(names[names.len() - 1] == name);
                            } else if before.names().contains(n) {
                                let k = choose|k: int|
                                    0 <= k < before.names().len() && before.names()[k] == n;
                                assert(names[k] == n);
                            }
                        }
                    }
                }
            },
            Err(e) => {
                proof {
                    lemma_fault_stays(entries@, i + 1);
                }
                return Err(e);
            },
        }
        i += 1;
    }
    assert(entries@.take(i as int) =~= entries@);
    Ok(keys)
}

/// The entries of a key file for the peers' public keys `keys`: each name
/// with its key in base 16, in the order of `keys`.
pub fn ser_public_keys(keys: &NameMap<PublicKey>) -> (entries: Vec<(String, String)>)
    ensures
        peer_keys(entries@) == Some(key_bytes(keys@)),
        peer_order(entries@) == keys.names(),
        entries@.len() == keys.names().len(),
        forall|i: int|
            0 <= i < entries@.len() ==> (#[trigger] entries@[i]).0@ == keys.names()[i]
                && entries@[i].1@ == as_chars(hex_text(keys.values()[i]@)),
{
    let count: usize = keys.len();
    let mut entries: Vec<(String, String)> = Vec::new();
    let mut i: usize = 0;
    while i < count
        invariant
            i <= count,
            count == keys.names().len(),
            count == keys.values().len(),
            keys.in_order(),
            entries@.len() == i,
            forall|k: int|
                0 <= k < i ==> (#[trigger] entries@[k]).0@ == keys.names()[k] && entries@[k].1@
                    == as_chars(hex_text(keys.values()[k]@)),
        decreases count - i,
    {
        let name = keys.name_at(i).clone();
        let text = u8vec_as_hex(keys.value_at(i).0.as_slice());
        entries.push((name, text));
        i += 1;
    }
    proof {
        let names = keys.names();
        let bytes = Seq::new(keys.values().len(), |k: int| keys.values()[k]@);
        lemma_peer_keys_listing(entries@, names, bytes, entries@.len() as int);
        assert(entries@.take(entries@.len() as int) =~= entries@);
        assert(names.take(names.len() as int) =~= names);
        assert(peer_keys(entries@)->0 =~= key_bytes(keys@));
    }
    entries
}

impl Keypair {
    /// The pair whose keys stand in base 16 as `secret` and `public`.
    pub fn from_hex(secret: &str, public: &str) -> (result: Result<Keypair, AccessError>)
        ensures
            result is Ok <==> is_key_text(secret.spec_bytes(), SECRETKEYBYTES as nat)
                && is_key_text(public.spec_bytes(), PUBLICKEYBYTES as nat),
            result matches Ok(pair) ==> pair.secret@ == hex_data(secret.spec_bytes())
                && pair.public@ == hex_data(public.spec_bytes()),
            result matches Err(e) ==> e matches AccessError::SerializeError(why) && why@ == (
            if is_key_text(secret.spec_bytes(), SECRETKEYBYTES as nat) {
                key_text_fault(public.spec_bytes())
            } else {
                key_text_fault(secret.spec_bytes())
            }),
    {
        match seckey_from_hex(secret) {
            Ok(secret) => match pubkey_from_hex(public) {
                Ok(public) => Ok(Keypair { secret, public }),
                Err(e) => Err(e),
            },
            Err(e) => Err(e),
        }
    }

    /// The keys in base 16: the secret key, then the public key.
    pub fn to_hex(&self) -> (texts: (String, String))
        ensures
            texts.0@ == as_chars(hex_text(self.secret@)),
            texts.1@ == as_chars(hex_text(self.public@)),
    {
        (u8vec_as_hex(self.secret.0.as_slice()), u8vec_as_hex(self.public.0.as_slice()))
    }
}

impl ClientKeyData {
    /// The client's keys, which stand in base 16 as `secret` and
    /// `peer_public`.
    pub fn from_hex(secret: &str, peer_public: &str) -> (result: Result<ClientKeyData, AccessError>)
        ensures
            result is Ok <==> is_key_text(secret.spec_bytes(), SECRETKEYBYTES as nat)
                && is_key_text(peer_public.spec_bytes(), PUBLICKEYBYTES as nat),
            result matches Ok(data) ==> data.secret@ == hex_data(secret.spec_bytes())
                && data.peer_public@ == hex_data(peer_public.spec_bytes()),
            result matches Err(e) ==> e matches AccessError::SerializeError(why) && why@ == (
            if is_key_text(secret.spec_bytes(), SECRETKEYBYTES as nat) {
                key_text_fault(peer_public.spec_bytes())
            } else {
                key_text_fault(secret.spec_bytes())
            }),
    {
        match seckey_from_hex(secret) {
            Ok(secret) => match pubkey_from_hex(peer_public) {
                Ok(peer_public) => Ok(ClientKeyData { secret, peer_public }),
                Err(e) => Err(e),
            },
            Err(e) => Err(e),
        }
    }
}

impl ServerKeyData {
    /// The server's keys: its secret key, which stands in base 16 as
    /// `secret`, and its peers' public keys, which stand in `peers` by
    /// name.
    pub fn from_hex(secret: &str, peers: &Vec<(String, String)>) -> (result: Result<
        ServerKeyData,
        AccessError,
    >)
        ensures
            result is Ok <==> is_key_text(secret.spec_bytes(), SECRETKEYBYTES as nat) && peer_keys(
                peers@,
            ) is Some,
            result matches Ok(data) ==> data.secret@ == hex_data(secret.spec_bytes()) && Some(
                key_bytes(data.peer_public_keys@),
            ) == peer_keys(peers@) && data.peer_public_keys.names() == peer_order(peers@),
            result matches Err(e) ==> e matches AccessError::SerializeError(why) && why@ == (
            if is_key_text(secret.spec_bytes(), SECRETKEYBYTES as nat) {
                peer_keys_fault(peers@)
            } else {
                key_text_fault(secret.spec_bytes())
            }),
    {
        match seckey_from_hex(secret) {
            Ok(secret) => match de_public_keys(peers) {
                Ok(peer_public_keys) => Ok(ServerKeyData { secret, peer_public_keys }),
                Err(e) => Err(e),
            },
            Err(e) => Err(e),
        }
    }
}

} // verus!
