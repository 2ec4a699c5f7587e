use access::addr::{choose_remote, IpAddr};
use access::client::ClientCodec;
use access::err::AccessError;
use access::keys::{ClientKeyData, Nonce, PublicKey, SecretKey, ServerKeyData};
use access::names::NameMap;
use access::req::{ReqData, SessReq, REQ_PORT, TIMED_ACCESS};
use access::resp::{SessReqAction, SessResp};
use access::server::{Opened, ServerCodec};
use access::session::{create_session, follow_up, FollowUp};
use access::state::{ClientState, ServerState};
use access::time::Timestamp;
use sodiumoxide::crypto::box_;

struct Party {
    public: [u8; 32],
    secret: [u8; 32],
}

fn party() -> Party {
    sodiumoxide::init().unwrap();
    let (pk, sk) = box_::gen_keypair();
    Party { public: pk.0, secret: sk.0 }
}

fn server_with(server: &Party, peers: &[(&str, &Party)]) -> ServerCodec {
    let mut keys: NameMap<PublicKey> = NameMap::new();
    for (name, peer) in peers {
        keys.insert(String::from(*name), PublicKey(peer.public));
    }
    let key_data = ServerKeyData { secret: SecretKey(server.secret), peer_public_keys: keys };
    ServerCodec::new(ServerState::new_at_path(String::from("state.yaml")), key_data, "/bin/hook", 10)
}

fn client_with(client: &Party, server: &Party) -> ClientCodec {
    let key_data =
        ClientKeyData { secret: SecretKey(client.secret), peer_public: PublicKey(server.public) };
    ClientCodec::new(ClientState::new_at_path(String::from("state.yaml")), key_data)
}

#[test]
fn protocol_constants() {
    assert_eq!(REQ_PORT, 7387);
    assert_eq!(TIMED_ACCESS, 1);
}

#[test]
fn addresses_from_octets() {
    assert_eq!(IpAddr::v4(0, 0, 0, 0), IpAddr::V4(0));
    assert_eq!(IpAddr::v4(203, 0, 113, 5), IpAddr::V4(0xCB00_7105));
    assert_eq!(IpAddr::v4(255, 255, 255, 255), IpAddr::V4(u32::MAX));
    assert_eq!(IpAddr::v4(0, 0, 1, 0), IpAddr::V4(256));
    assert!(IpAddr::v4(1, 2, 3, 4).is_ipv4());
    assert!(!IpAddr::v4(1, 2, 3, 4).is_ipv6());
    assert!(IpAddr::V6(1).is_ipv6());
    assert!(!IpAddr::V6(1).is_ipv4());
}

#[test]
fn unspecified_address_stands_for_the_source() {
    let source = IpAddr::v4(198, 51, 100, 9);
    assert!(IpAddr::V4(0).is_unspecified());
    assert!(IpAddr::V6(0).is_unspecified());
    assert!(!IpAddr::V4(1).is_unspecified());
    assert!(!IpAddr::V6(1 << 127).is_unspecified());
    assert_eq!(IpAddr::V4(0).or_source(source), source);
    assert_eq!(IpAddr::V6(0).or_source(source), source);
    assert_eq!(IpAddr::v4(203, 0, 113, 5).or_source(source), IpAddr::v4(203, 0, 113, 5));
    assert_eq!(IpAddr::V6(7).or_source(source), IpAddr::V6(7));
    assert_eq!(IpAddr::V4(0).or_source(IpAddr::V6(0)), IpAddr::V6(0));
}

#[test]
fn bind_address_is_of_the_server_family() {
    assert_eq!(IpAddr::v4(192, 0, 2, 1).unspecified_like(), IpAddr::V4(0));
    assert_eq!(IpAddr::V6(42).unspecified_like(), IpAddr::V6(0));
}

#[test]
fn request_parts() {
    let addr = IpAddr::v4(203, 0, 113, 5);
    let req = SessReq::new(17, ReqData::TimedAccess(addr));
    assert_eq!(req.req_id, 17);
    assert_eq!(req.req_data, ReqData::TimedAccess(addr));
    assert_eq!(req.req_data.addr(), addr);
    assert_eq!(req, SessReq { req_id: 17, req_data: ReqData::TimedAccess(addr) });
}

#[test]
fn response_parts() {
    let resp = SessResp::new(SessReqAction::Renew, 3, 900, 2);
    assert_eq!(resp.action, SessReqAction::Renew);
    assert_eq!(resp.req_id, 3);
    assert_eq!(resp.duration, 900);
    assert_eq!(resp.renewals_remaining, 2);
}

#[test]
fn client_numbers_its_requests() {
    let mut client = client_with(&party(), &party());
    let addr = IpAddr::V4(0);
    assert_eq!(client.next_request(addr), Some(SessReq::new(1, ReqData::TimedAccess(addr))));
    assert_eq!(client.next_request(addr), Some(SessReq::new(2, ReqData::TimedAccess(addr))));
    assert_eq!(client.state.cur_req_id, 2);
    client.state.cur_req_id = u64::MAX;
    assert_eq!(client.next_request(addr), None);
    assert_eq!(client.state.cur_req_id, u64::MAX);
}

#[test]
fn server_finds_the_peer_that_sealed() {
    let (server, alice, bob, carol) = (party(), party(), party(), party());
    let mut codec = server_with(&server, &[("alice", &alice), ("bob", &bob), ("carol", &carol)]);
    let nonce = Nonce::random();
    let packet = client_with(&bob, &server).seal_request(b"request of bob", &nonce).unwrap();

    let opened = codec.decode(&packet, 0).unwrap();
    assert_eq!(opened.peer, 1);
    assert_eq!(opened.name, "bob");
    assert_eq!(opened.msg, b"request of bob".to_vec());
    let again = codec.decode(&packet, 1).unwrap();
    assert_eq!(again.peer, 1);
    // Behind the sender nobody else is found.
    assert!(codec.decode_next(&packet, &opened).is_none());
    let before = Opened { peer: 0, name: String::from("alice"), msg: Vec::new() };
    assert_eq!(codec.decode_next(&packet, &before).unwrap().peer, 1);
    let beyond = Opened { peer: usize::MAX, name: String::new(), msg: Vec::new() };
    assert!(codec.decode_next(&packet, &beyond).is_none());
    // Beyond the sender no peer's key opens the datagram.
    assert!(codec.decode(&packet, 2).is_none());
    assert!(codec.decode(&packet, 3).is_none());
    assert!(codec.decode(&packet, usize::MAX).is_none());
}

#[test]
fn server_knows_nobody_else() {
    let (server, alice, stranger) = (party(), party(), party());
    let mut codec = server_with(&server, &[("alice", &alice)]);
    create_session(&mut codec.sessions, IpAddr::v4(10, 0, 0, 1), Timestamp::from_secs(1));
    let nonce = Nonce::random();
    let packet = client_with(&stranger, &server).seal_request(b"let me in", &nonce).unwrap();
    assert!(codec.decode(&packet, 0).is_none());
    assert!(codec.decode(&[], 0).is_none());
    assert!(codec.decode(&[0u8; 64], 0).is_none());
    // A datagram sealed for another server is noise too.
    let elsewhere = client_with(&alice, &stranger).seal_request(b"let me in", &nonce).unwrap();
    assert!(codec.decode(&elsewhere, 0).is_none());
    // Nothing of the server has changed.
    assert_eq!(codec.sessions.len(), 1);
    assert!(codec.state.entries().is_empty());
    // A server without peers knows nobody.
    let mut lonely = server_with(&server, &[]);
    let known = client_with(&alice, &server).seal_request(b"let me in", &nonce).unwrap();
    assert!(lonely.decode(&known, 0).is_none());
    assert!(codec.decode(&known, 0).is_some());
}

#[test]
fn of_two_names_with_one_key_the_first_is_found() {
    let (server, alice) = (party(), party());
    let mut codec = server_with(&server, &[("second", &alice), ("first", &alice)]);
    let nonce = Nonce::random();
    let packet = client_with(&alice, &server).seal_request(b"x", &nonce).unwrap();
    let opened = codec.decode(&packet, 0).unwrap();
    assert_eq!(opened.peer, 0);
    assert_eq!(opened.name, "second");
    let next = codec.decode_next(&packet, &opened).unwrap();
    assert_eq!(next.peer, 1);
    assert_eq!(next.name, "first");
    assert!(codec.decode_next(&packet, &next).is_none());
}

#[test]
fn session_is_for_the_source_of_an_unspecified_request() {
    let (server, alice) = (party(), party());
    let mut codec = server_with(&server, &[("alice", &alice)]);
    let source = IpAddr::v4(198, 51, 100, 9);
    let req = SessReq::new(1, ReqData::TimedAccess(IpAddr::V4(0)));
    let sess = codec.session_for(&req, source);
    assert_eq!(sess.cmd, "/bin/hook");
    assert_eq!(sess.req_id, 1);
    assert_eq!(sess.duration, 10);
    assert_eq!(sess.req_addr, source);

    let answered = codec.respond(String::from("alice"), &sess, Timestamp::from_secs(0));
    assert_eq!(answered.resp, SessResp::new(SessReqAction::Grant, 1, 10, 4));
    assert!(answered.accepted);
    assert_eq!(answered.follow_up, FollowUp::RunGrantHook);
    create_session(&mut codec.sessions, sess.req_addr, Timestamp::from_secs(0));
    assert!(codec.sessions.contains(&source));
    assert!(!codec.sessions.contains(&IpAddr::V4(0)));
    assert_eq!(codec.sessions.len(), 1);
    assert_eq!(codec.state.entries(), vec![(String::from("alice"), 1)]);
}

#[test]
fn session_is_for_the_address_that_is_named() {
    let (server, alice) = (party(), party());
    let codec = server_with(&server, &[("alice", &alice)]);
    let named = IpAddr::v4(203, 0, 113, 5);
    let req = SessReq::new(4, ReqData::TimedAccess(named));
    let sess = codec.session_for(&req, IpAddr::v4(198, 51, 100, 9));
    assert_eq!(sess.req_addr, named);
    assert_eq!(sess.req_id, 4);
}

#[test]
fn response_is_sealed_for_the_named_peer() {
    let (server, alice, bob) = (party(), party(), party());
    let codec = server_with(&server, &[("alice", &alice), ("bob", &bob)]);
    let nonce = Nonce::random();
    let packet = codec.seal_response(&String::from("bob"), b"answer", &nonce).unwrap();
    assert_eq!(&packet[..24], &nonce.0[..]);
    assert_eq!(packet.len(), 24 + 6 + 16);

    assert_eq!(client_with(&bob, &server).open_response(&packet).unwrap(), b"answer".to_vec());
    assert!(matches!(
        client_with(&alice, &server).open_response(&packet),
        Err(AccessError::InvalidCiphertext)
    ));
    assert!(matches!(
        client_with(&bob, &server).open_response(&packet[..10]),
        Err(AccessError::InvalidNonce)
    ));
    assert!(codec.seal_response(&String::from("carol"), b"answer", &nonce).is_none());
}

#[test]
fn request_and_answer_travel_both_ways() {
    let (server, alice) = (party(), party());
    let mut codec = server_with(&server, &[("alice", &alice)]);
    let mut client = client_with(&alice, &server);

    let req = client.next_request(IpAddr::V4(0)).unwrap();
    assert_eq!(req.req_id, 1);
    let wire = vec![req.req_id as u8, 0, 0, 0, 0];
    let packet = client.seal_request(&wire, &Nonce::random()).unwrap();

    let opened = codec.decode(&packet, 0).unwrap();
    assert_eq!(opened.name, "alice");
    assert_eq!(opened.msg, wire);
    let sess = codec.session_for(&req, IpAddr::v4(198, 51, 100, 9));
    let resp = codec.respond(opened.name.clone(), &sess, Timestamp::from_secs(0)).resp;
    assert_eq!(resp.action, SessReqAction::Grant);

    let answer = vec![0u8, resp.req_id as u8, resp.duration as u8, resp.renewals_remaining];
    let back = codec.seal_response(&opened.name, &answer, &Nonce::random()).unwrap();
    assert_eq!(client.open_response(&back).unwrap(), answer);

    // The same datagram again is opened, and its request denied as a replay.
    let opened = codec.decode(&packet, 0).unwrap();
    let again = codec.respond(opened.name, &sess, Timestamp::from_secs(1));
    assert_eq!(again.resp, SessResp::new(SessReqAction::DenyDuplicateRequest, 1, 0, 0));
    assert!(!again.accepted);
    assert_eq!(again.follow_up, FollowUp::Nothing);
}

#[test]
fn answers_say_what_follows() {
    let (server, alice) = (party(), party());
    let mut codec = server_with(&server, &[("alice", &alice)]);
    let addr = IpAddr::v4(203, 0, 113, 5);
    let first = codec.respond(
        String::from("alice"),
        &codec.session_for(&SessReq::new(1, ReqData::TimedAccess(addr)), addr),
        Timestamp::from_secs(0),
    );
    assert_eq!(first.follow_up, FollowUp::RunGrantHook);
    create_session(&mut codec.sessions, addr, Timestamp::from_secs(0));

    let early = codec.respond(
        String::from("alice"),
        &codec.session_for(&SessReq::new(2, ReqData::TimedAccess(addr)), addr),
        Timestamp::from_secs(1),
    );
    assert_eq!(early.resp.action, SessReqAction::DenyRenewTooSoon);
    // Denied, but no replay: the number is taken and has to be written out.
    assert!(early.accepted);
    assert_eq!(early.follow_up, FollowUp::Nothing);

    let renewal = codec.respond(
        String::from("alice"),
        &codec.session_for(&SessReq::new(3, ReqData::TimedAccess(addr)), addr),
        Timestamp::from_secs(8),
    );
    assert_eq!(renewal.resp.action, SessReqAction::Renew);
    assert!(renewal.accepted);
    assert_eq!(renewal.follow_up, FollowUp::StartTimer);

    for action in [
        SessReqAction::DenyRenewTooSoon,
        SessReqAction::DenyMaxRenewalsReached,
        SessReqAction::DenyRenewAlreadyInProgress,
        SessReqAction::DenyDuplicateRequest,
    ] {
        assert_eq!(follow_up(&SessResp::new(action, 1, 0, 0)), FollowUp::Nothing);
    }
    assert_eq!(follow_up(&SessResp::new(SessReqAction::Grant, 1, 10, 4)), FollowUp::RunGrantHook);
    assert_eq!(follow_up(&SessResp::new(SessReqAction::Renew, 1, 10, 3)), FollowUp::StartTimer);
}

#[test]
fn remote_address_is_chosen_by_preference() {
    let v4a = IpAddr::v4(192, 0, 2, 1);
    let v4b = IpAddr::v4(192, 0, 2, 2);
    let v6 = IpAddr::V6(0x2001_0db8 << 96);
    assert!(matches!(choose_remote(&vec![v6, v4a, v4b], true), Ok(1)));
    assert!(matches!(choose_remote(&vec![v4b, v4a], true), Ok(0)));
    assert!(matches!(choose_remote(&vec![v6, v6, v6, v4b], true), Ok(3)));
    assert!(matches!(choose_remote(&vec![v6, v4a, v4b], false), Ok(0)));
    assert!(matches!(choose_remote(&vec![v4a, v6], false), Ok(0)));
    assert!(matches!(choose_remote(&vec![v6], false), Ok(0)));
    assert!(matches!(choose_remote(&vec![v6], true), Err(AccessError::NoIpv4Addr)));
    assert!(matches!(choose_remote(&vec![v6, v6], true), Err(AccessError::NoIpv4Addr)));
    assert!(matches!(choose_remote(&vec![], true), Err(AccessError::NoIpv4Addr)));
}

#[test]
fn nothing_is_sealed_for_a_key_that_cannot_agree() {
    let (server, alice) = (party(), party());
    let unusable = Party { public: [0u8; 32], secret: alice.secret };
    let codec = server_with(&server, &[("alice", &alice), ("zero", &unusable)]);
    let nonce = Nonce::random();
    assert!(codec.seal_response(&String::from("alice"), b"answer", &nonce).is_some());
    assert!(codec.seal_response(&String::from("zero"), b"answer", &nonce).is_none());
    assert!(codec.seal_response(&String::from("nobody"), b"answer", &nonce).is_none());

    let client = client_with(&alice, &unusable);
    assert!(client.seal_request(b"request", &nonce).is_none());
    assert!(client_with(&alice, &server).seal_request(b"request", &nonce).is_some());
}
