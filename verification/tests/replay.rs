use access::addr::IpAddr;
use access::lease::LeaseTable;
use access::names::NameMap;
use access::resp::{SessReqAction, SessResp};
use access::session::{handle_incoming, Session};
use access::state::{ClientState, ServerState};
use access::time::Timestamp;

fn name(s: &str) -> String {
    String::from(s)
}

#[test]
fn server_state_starts_without_numbers() {
    let state = ServerState::new_at_path(name("/var/db/accessd_state.yaml"));
    assert_eq!(state.path().as_str(), "/var/db/accessd_state.yaml");
    assert_eq!(state.cur_req_ids.len(), 0);
    assert_eq!(state.current(&name("alice")), 0);
    assert!(state.entries().is_empty());
}

#[test]
fn accept_takes_only_higher_numbers() {
    let mut state = ServerState::new_at_path(name("s"));
    // Number zero is never above the number of a peer without an entry.
    assert!(!state.accept(name("alice"), 0));
    assert_eq!(state.cur_req_ids.len(), 0);
    assert!(state.accept(name("alice"), 5));
    assert_eq!(state.current(&name("alice")), 5);
    assert!(!state.accept(name("alice"), 5));
    assert!(!state.accept(name("alice"), 4));
    assert_eq!(state.current(&name("alice")), 5);
    assert!(state.accept(name("alice"), 6));
    assert_eq!(state.current(&name("alice")), 6);
    assert!(state.accept(name("alice"), u64::MAX));
    assert!(!state.accept(name("alice"), u64::MAX));
    assert_eq!(state.current(&name("alice")), u64::MAX);
}

#[test]
fn peers_are_numbered_apart() {
    let mut state = ServerState::new_at_path(name("s"));
    assert!(state.accept(name("alice"), 10));
    assert!(state.accept(name("bob"), 3));
    assert!(!state.accept(name("bob"), 3));
    assert!(state.accept(name("bob"), 4));
    assert_eq!(state.current(&name("alice")), 10);
    assert_eq!(state.current(&name("bob")), 4);
    assert_eq!(state.current(&name("carol")), 0);
    assert_eq!(state.entries(), vec![(name("alice"), 10), (name("bob"), 4)]);
}

#[test]
fn accepted_numbers_of_a_peer_only_rise() {
    let arrivals: Vec<(&str, u64)> = vec![
        ("alice", 3),
        ("bob", 1),
        ("alice", 2),
        ("alice", 3),
        ("bob", 9),
        ("alice", 7),
        ("bob", 9),
        ("alice", 4),
        ("alice", 8),
    ];
    let mut state = ServerState::new_at_path(name("s"));
    let mut accepted: Vec<(&str, u64)> = Vec::new();
    for (peer, id) in arrivals {
        let before = state.current(&name(peer));
        let took = state.accept(name(peer), id);
        assert_eq!(took, id > before);
        assert_eq!(state.current(&name(peer)), if id > before { id } else { before });
        assert!(state.current(&name(peer)) >= id);
        if took {
            accepted.push((peer, id));
        }
    }
    assert_eq!(
        accepted,
        vec![("alice", 3), ("bob", 1), ("bob", 9), ("alice", 7), ("alice", 8)]
    );
    for i in 0..accepted.len() {
        for j in (i + 1)..accepted.len() {
            if accepted[i].0 == accepted[j].0 {
                assert!(accepted[i].1 < accepted[j].1);
            }
        }
    }
}

#[test]
fn state_is_read_from_entries() {
    let entries = vec![(name("alice"), 4), (name("bob"), 7), (name("alice"), 2)];
    let state = ServerState::from_entries(name("state.yaml"), &entries);
    assert_eq!(state.path().as_str(), "state.yaml");
    // Of two entries under one name the later counts.
    assert_eq!(state.current(&name("alice")), 2);
    assert_eq!(state.current(&name("bob")), 7);
    assert_eq!(state.entries(), vec![(name("alice"), 2), (name("bob"), 7)]);
    let again = ServerState::from_entries(name("state.yaml"), &state.entries());
    assert_eq!(again.entries(), state.entries());
}

#[test]
fn server_state_path_can_be_set() {
    let mut state = ServerState::new_at_path(name("a"));
    assert!(state.accept(name("alice"), 1));
    state.set_path(name("b"));
    assert_eq!(state.path().as_str(), "b");
    assert_eq!(state.current(&name("alice")), 1);
}

#[test]
fn client_state_counts_up() {
    let mut state = ClientState::new_at_path(name("/home/u/.access/state.yaml"));
    assert_eq!(state.cur_req_id, 0);
    assert_eq!(state.path().as_str(), "/home/u/.access/state.yaml");
    assert_eq!(state.next_req_id(), Some(1));
    assert_eq!(state.next_req_id(), Some(2));
    assert_eq!(state.cur_req_id, 2);
    state.set_path(name("elsewhere"));
    assert_eq!(state.path().as_str(), "elsewhere");
    assert_eq!(state.cur_req_id, 2);
}

#[test]
fn client_state_runs_out_of_numbers() {
    let mut state = ClientState::with_req_id(name("s"), u64::MAX - 1);
    assert_eq!(state.next_req_id(), Some(u64::MAX));
    assert_eq!(state.next_req_id(), None);
    assert_eq!(state.cur_req_id, u64::MAX);
}

#[test]
fn replay_touches_neither_numbers_nor_leases() {
    let addr = IpAddr::v4(203, 0, 113, 5);
    let mut sessions = LeaseTable::new();
    let mut state = ServerState::new_at_path(name("s"));
    assert!(state.accept(name("alice"), 9));
    access::session::create_session(&mut sessions, addr, Timestamp::from_secs(0));

    // Late enough for a renewal, were the request no replay.
    for id in [0u64, 1, 8, 9] {
        let sess = Session::new("hook", id, 10, addr);
        let resp =
            handle_incoming(&mut sessions, name("alice"), &sess, &mut state, Timestamp::from_secs(8));
        assert_eq!(resp, SessResp::new(SessReqAction::DenyDuplicateRequest, id, 0, 0));
        assert_eq!(state.current(&name("alice")), 9);
        assert_eq!(state.entries(), vec![(name("alice"), 9)]);
        let lease = sessions.entry_for(&addr).unwrap();
        assert_eq!(lease.renewals(), 0);
        assert!(lease.renew_ok());
        assert_eq!(lease.timeout_start().as_secs(), 0);
        assert_eq!(sessions.len(), 1);
    }
    // A replay for an address without a lease grants nothing either.
    let other = IpAddr::v4(198, 51, 100, 9);
    let sess = Session::new("hook", 9, 10, other);
    let resp =
        handle_incoming(&mut sessions, name("alice"), &sess, &mut state, Timestamp::from_secs(8));
    assert_eq!(resp.action, SessReqAction::DenyDuplicateRequest);
    assert!(!sessions.contains(&other));
}

#[test]
fn name_map_keeps_first_order_and_last_value() {
    let mut map: NameMap<u64> = NameMap::new();
    assert_eq!(map.len(), 0);
    assert!(map.get(&name("x")).is_none());
    map.insert(name("x"), 1);
    map.insert(name("y"), 2);
    map.insert(name("x"), 3);
    assert_eq!(map.len(), 2);
    assert_eq!(map.get(&name("x")), Some(&3));
    assert_eq!(map.get(&name("y")), Some(&2));
    assert!(map.get(&name("z")).is_none());
    assert!(map.contains_key(&name("y")));
    assert!(!map.contains_key(&name("")));
    assert_eq!(map.name_at(0).as_str(), "x");
    assert_eq!(*map.value_at(0), 3);
    assert_eq!(map.name_at(1).as_str(), "y");
    assert_eq!(*map.value_at(1), 2);
}
