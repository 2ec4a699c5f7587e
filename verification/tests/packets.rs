use access::err::AccessError;
use access::keys::{Nonce, PublicKey, SecretKey, MACBYTES, NONCEBYTES, PUBLICKEYBYTES, SECRETKEYBYTES};
use access::packet::{assemble, can_seal, create, open, try_create};
use sodiumoxide::crypto::scalarmult::curve25519::{scalarmult, GroupElement, Scalar};
use sodiumoxide::crypto::box_;

fn keypair() -> (PublicKey, SecretKey) {
    sodiumoxide::init().unwrap();
    let (pk, sk) = box_::gen_keypair();
    (PublicKey(pk.0), SecretKey(sk.0))
}

fn nonce_of(byte: u8) -> Nonce {
    Nonce([byte; 24])
}

#[test]
fn sizes_are_those_of_the_box() {
    assert_eq!(PUBLICKEYBYTES, box_::PUBLICKEYBYTES);
    assert_eq!(SECRETKEYBYTES, box_::SECRETKEYBYTES);
    assert_eq!(NONCEBYTES, box_::NONCEBYTES);
    assert_eq!(MACBYTES, box_::MACBYTES);
}

#[test]
fn keys_and_nonces_want_their_length() {
    assert!(PublicKey::from_slice(&[7u8; 32]).is_some());
    assert!(PublicKey::from_slice(&[7u8; 31]).is_none());
    assert!(PublicKey::from_slice(&[7u8; 33]).is_none());
    assert!(PublicKey::from_slice(&[]).is_none());
    assert!(SecretKey::from_slice(&[7u8; 32]).is_some());
    assert!(SecretKey::from_slice(&[7u8; 24]).is_none());
    assert!(Nonce::from_slice(&[7u8; 24]).is_some());
    assert!(Nonce::from_slice(&[7u8; 23]).is_none());
    assert!(Nonce::from_slice(&[7u8; 32]).is_none());

    let bytes: Vec<u8> = (1..=32u8).collect();
    assert_eq!(PublicKey::from_slice(&bytes).unwrap().0.to_vec(), bytes);
    assert_eq!(SecretKey::from_slice(&bytes).unwrap().0.to_vec(), bytes);
    assert_eq!(Nonce::from_slice(&bytes[..24]).unwrap().0.to_vec(), bytes[..24].to_vec());
}

#[test]
fn random_nonces_differ() {
    sodiumoxide::init().unwrap();
    let a = Nonce::random();
    let b = Nonce::random();
    let c = Nonce::random();
    assert!(a.0 != b.0 || b.0 != c.0);
    assert_ne!(a.0, [0u8; 24]);
}

#[test]
fn create_seals_as_the_box_does() {
    let (client_pk, client_sk) = keypair();
    let (server_pk, server_sk) = keypair();
    let nonce = nonce_of(3);
    let msg = b"timed access".to_vec();

    let sealed = create(&msg, &nonce, &client_sk, &server_pk);
    assert_eq!(sealed.len(), msg.len() + MACBYTES);
    assert_ne!(sealed, msg);
    let expected = box_::seal(
        &msg,
        &box_::Nonce(nonce.0),
        &box_::PublicKey(server_pk.0),
        &box_::SecretKey(client_sk.0),
    );
    assert_eq!(sealed, expected);
    // The same arguments give the same sealed bytes; another nonce gives others.
    assert_eq!(create(&msg, &nonce, &client_sk, &server_pk), sealed);
    assert_ne!(create(&msg, &nonce_of(4), &client_sk, &server_pk), sealed);
    // The receiver opens it with the box itself.
    let opened = box_::open(
        &sealed,
        &box_::Nonce(nonce.0),
        &box_::PublicKey(client_pk.0),
        &box_::SecretKey(server_sk.0),
    );
    assert_eq!(opened, Ok(msg));
}

#[test]
fn assemble_puts_the_nonce_in_front() {
    let nonce = Nonce([9u8; 24]);
    let packet = assemble(&nonce, vec![1, 2, 3]);
    let mut expected = vec![9u8; 24];
    expected.extend_from_slice(&[1, 2, 3]);
    assert_eq!(packet, expected);
    assert_eq!(assemble(&nonce, vec![]), vec![9u8; 24]);
}

#[test]
fn sealed_packet_opens_for_the_receiver() {
    let (client_pk, client_sk) = keypair();
    let (server_pk, server_sk) = keypair();
    let nonce = Nonce::random();
    let msg = b"hello server".to_vec();
    let packet = assemble(&nonce, create(&msg, &nonce, &client_sk, &server_pk));
    assert_eq!(packet.len(), NONCEBYTES + msg.len() + MACBYTES);
    assert_eq!(open(&packet, &server_sk, &client_pk).unwrap(), msg);
    // An empty message travels too.
    let empty = assemble(&nonce, create(&[], &nonce, &client_sk, &server_pk));
    assert_eq!(empty.len(), NONCEBYTES + MACBYTES);
    assert_eq!(open(&empty, &server_sk, &client_pk).unwrap(), Vec::<u8>::new());
}

#[test]
fn packet_of_the_box_opens() {
    let (client_pk, client_sk) = keypair();
    let (server_pk, server_sk) = keypair();
    let nonce = box_::gen_nonce();
    let sealed = box_::seal(
        b"from the box",
        &nonce,
        &box_::PublicKey(server_pk.0),
        &box_::SecretKey(client_sk.0),
    );
    let mut packet = nonce.0.to_vec();
    packet.extend(sealed);
    assert_eq!(open(&packet, &server_sk, &client_pk).unwrap(), b"from the box".to_vec());
}

#[test]
fn short_packet_has_no_nonce() {
    let (client_pk, _) = keypair();
    let (_, server_sk) = keypair();
    assert!(matches!(open(&[], &server_sk, &client_pk), Err(AccessError::InvalidNonce)));
    assert!(matches!(open(&[0u8; 1], &server_sk, &client_pk), Err(AccessError::InvalidNonce)));
    assert!(matches!(open(&[0u8; 23], &server_sk, &client_pk), Err(AccessError::InvalidNonce)));
}

#[test]
fn packet_without_a_sealed_part_fails_verification() {
    let (client_pk, _) = keypair();
    let (_, server_sk) = keypair();
    assert!(matches!(open(&[0u8; 24], &server_sk, &client_pk), Err(AccessError::InvalidCiphertext)));
    assert!(matches!(open(&[0u8; 39], &server_sk, &client_pk), Err(AccessError::InvalidCiphertext)));
    assert!(matches!(open(&[0u8; 40], &server_sk, &client_pk), Err(AccessError::InvalidCiphertext)));
    assert!(matches!(open(&[0u8; 200], &server_sk, &client_pk), Err(AccessError::InvalidCiphertext)));
}

#[test]
fn changed_packet_fails_verification() {
    let (client_pk, client_sk) = keypair();
    let (server_pk, server_sk) = keypair();
    let nonce = Nonce::random();
    let msg = b"hello server".to_vec();
    let packet = assemble(&nonce, create(&msg, &nonce, &client_sk, &server_pk));
    for at in [0usize, 23, 24, 39, 40, packet.len() - 1] {
        let mut changed = packet.clone();
        changed[at] ^= 1;
        assert!(matches!(
            open(&changed, &server_sk, &client_pk),
            Err(AccessError::InvalidCiphertext)
        ));
    }
    let mut longer = packet.clone();
    longer.push(0);
    assert!(matches!(open(&longer, &server_sk, &client_pk), Err(AccessError::InvalidCiphertext)));
    let shorter = &packet[..packet.len() - 1];
    assert!(matches!(open(shorter, &server_sk, &client_pk), Err(AccessError::InvalidCiphertext)));
}

#[test]
fn packet_opens_for_no_other_keys() {
    let (client_pk, client_sk) = keypair();
    let (server_pk, server_sk) = keypair();
    let (other_pk, other_sk) = keypair();
    let nonce = Nonce::random();
    let packet = assemble(&nonce, create(b"hello", &nonce, &client_sk, &server_pk));
    assert!(open(&packet, &server_sk, &client_pk).is_ok());
    assert!(matches!(open(&packet, &server_sk, &other_pk), Err(AccessError::InvalidCiphertext)));
    assert!(matches!(open(&packet, &other_sk, &client_pk), Err(AccessError::InvalidCiphertext)));
    assert!(matches!(open(&packet, &server_sk, &server_pk), Err(AccessError::InvalidCiphertext)));
}

#[test]
fn keys_agree_as_the_multiplication_succeeds() {
    let (client_pk, client_sk) = keypair();
    let (server_pk, server_sk) = keypair();
    assert!(can_seal(&client_sk, &server_pk));
    assert!(can_seal(&server_sk, &client_pk));
    assert!(can_seal(&client_sk, &client_pk));

    let mut one = [0u8; 32];
    one[0] = 1;
    let candidates = [[0u8; 32], one, [0xffu8; 32], client_pk.0, server_pk.0, [9u8; 32]];
    for bytes in candidates {
        let expected = scalarmult(&Scalar(client_sk.0), &GroupElement(bytes)).is_ok();
        assert_eq!(can_seal(&client_sk, &PublicKey(bytes)), expected);
    }
    assert!(!can_seal(&client_sk, &PublicKey([0u8; 32])));
    assert!(!can_seal(&client_sk, &PublicKey(one)));
    // The outcome tells the two keys apart: it is not one of them handed back.
    assert!(can_seal(&SecretKey([0u8; 32]), &server_pk));
}

#[test]
fn try_create_seals_only_where_the_keys_agree() {
    let (client_pk, client_sk) = keypair();
    let (server_pk, server_sk) = keypair();
    let nonce = nonce_of(7);
    let msg = b"timed access".to_vec();

    let sealed = try_create(&msg, &nonce, &client_sk, &server_pk).unwrap();
    assert_eq!(sealed, create(&msg, &nonce, &client_sk, &server_pk));
    assert_eq!(sealed.len(), msg.len() + MACBYTES);
    assert_eq!(open(&assemble(&nonce, sealed), &server_sk, &client_pk).unwrap(), msg);

    assert!(try_create(&msg, &nonce, &client_sk, &PublicKey([0u8; 32])).is_none());
    let mut one = [0u8; 32];
    one[0] = 1;
    assert!(try_create(&msg, &nonce, &client_sk, &PublicKey(one)).is_none());
    assert!(try_create(&[], &nonce, &client_sk, &PublicKey([0u8; 32])).is_none());
}

#[test]
fn nothing_opens_under_a_key_that_cannot_agree() {
    let (_, client_sk) = keypair();
    let (server_pk, server_sk) = keypair();
    let nonce = Nonce::random();
    let packet = assemble(&nonce, create(b"hello", &nonce, &client_sk, &server_pk));
    assert!(matches!(
        open(&packet, &server_sk, &PublicKey([0u8; 32])),
        Err(AccessError::InvalidCiphertext)
    ));
}
