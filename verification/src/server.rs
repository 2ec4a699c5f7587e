//! The server's side of the protocol: from a datagram to the peer that
//! sent it, from its request to an answer, and from the answer to the
//! datagram that carries it back.

use crate::addr::IpAddr;
use crate::keys::{Nonce, PublicKey, ServerKeyData, MACBYTES, NONCEBYTES};
use crate::lease::{LeaseTable, SessionIntervalView};
use crate::packet;
use crate::packet::{box_sealed, keys_agree, packet_content};
use crate::req::SessReq;
use crate::resp::{SessReqAction, SessResp};
use crate::session::{
    follow_up, handle_incoming, leases_after, response_to, spec_follow_up, FollowUp, Session,
};
use crate::state::{ids_after, is_replay, ServerState};
use crate::time::Timestamp;
use vstd::prelude::*;

verus! {

/// All that the server works with: its configuration, its keys, the
/// request numbers it has accepted and the leases that are active.
pub struct ServerCodec {
    /// The operator's hook.
    pub cmd: String,
    /// Seconds of access that a grant or a renewal gives.
    pub duration: u64,
    /// The active leases.
    pub sessions: LeaseTable,
    /// The last request number accepted from each peer.
    pub state: ServerState,
    /// The server's secret key and its peers' public keys.
    pub key_data: ServerKeyData,
}

/// A datagram that a known peer sealed, opened.
pub struct Opened {
    /// The peer's place among the server's peers.
    pub peer: usize,
    /// The peer's name.
    pub name: String,
    /// What the datagram held.
    pub msg: Vec<u8>,
}

/// A request, answered: the answer, and what the server has to do besides
/// sending it.
pub struct Answered {
    /// The answer to send.
    pub resp: SessResp,
    /// Whether the request's number was accepted. The accepted numbers
    /// have changed then, and are to be written out before anything else
    /// is done.
    pub accepted: bool,
    /// What to do for the lease.
    pub follow_up: FollowUp,
}

impl ServerCodec {
    /// What the datagram `buf` holds if the peer at place `i` sent it.
    pub open spec fn content_from(&self, buf: Seq<u8>, i: int) -> Option<Seq<u8>> {
        packet_content(buf, self.key_data.secret@, self.key_data.peer_public_keys.values()[i]@)
    }

    /// The server with the hook `access_cmd` and leases of `duration`
    /// seconds, with the loaded `state` and `key_data` and no lease yet.
    pub fn new(
        state: ServerState,
        key_data: ServerKeyData,
        access_cmd: &str,
        duration: u64,
    ) -> (codec: ServerCodec)
        ensures
            codec.cmd@ == access_cmd@,
            codec.duration == duration,
            codec.sessions@ == Map::<IpAddr, SessionIntervalView>::empty(),
            codec.state == state,
            codec.key_data == key_data,
    {
        ServerCodec {
            cmd: access_cmd.to_owned(),
            duration,
            sessions: LeaseTable::new(),
            state,
            key_data,
        }
    }

    /// Finds the peer that sent the datagram `buf`, trying the peers from
    /// place `start` on in their order: the first whose key opens the
    /// datagram is its sender. A datagram that no peer's key opens comes
    /// from nobody the server knows, and gives `None`.
    ///
    /// The server is taken as the event loop hands it to every handler,
    /// for the handler alone. Whatever the datagram holds, and whether it
    /// opens or not, the server is left exactly as it was.
    pub fn decode(&mut self, buf: &[u8], start: usize) -> (found: Option<Opened>)
        ensures
            *final(self) == *old(self),
            match found {
                Some(opened) => {
                    &&& start <= opened.peer < old(self).key_data.peer_public_keys.values().len()
                    &&& opened.name@ == old(self).key_data.peer_public_keys.names()[opened.peer as
                        int]
                    &&& old(self).content_from(buf@, opened.peer as int) == Some(opened.msg@)
                    &&& forall|j: int|
                        start <= j < opened.peer ==> old(self).content_from(buf@, j) is None
                },
                None => forall|j: int|
                    start <= j < old(self).key_data.peer_public_keys.values().len() ==> old(
                        self,
                    ).content_from(buf@, j) is None,
            },
    {
        let count: usize = self.key_data.peer_public_keys.len();
        let mut i: usize = start;
        while i < count
            invariant
                start <= i,
                *self == *old(self),
                count == self.key_data.peer_public_keys.values().len(),
                count == self.key_data.peer_public_keys.names().len(),
                forall|j: int| start <= j < i ==> self.content_from(buf@, j) is None,
            decreases count - i,
        {
            let public_key: &PublicKey = self.key_data.peer_public_keys.value_at(i);
            if let Ok(msg) = packet::open(buf, &self.key_data.secret, public_key) {
                let name = self.key_data.peer_public_keys.name_at(i).clone();
                return Some(Opened { peer: i, name, msg });
            }
            i += 1;
        }
        None
    }

    /// Goes on where [`ServerCodec::decode`] stopped: finds the next peer
    /// behind `after` whose key opens the datagram `buf`. This is for a
    /// datagram that opened under the key of `after` to something that is
    /// no request. The server is left exactly as it was.
    pub fn decode_next(&mut self, buf: &[u8], after: &Opened) -> (found: Option<Opened>)
        ensures
            *final(self) == *old(self),
            match found {
                Some(opened) => {
                    &&& after.peer < opened.peer < old(
                        self,
                    ).key_data.peer_public_keys.values().len()
                    &&& opened.name@ == old(self).key_data.peer_public_keys.names()[opened.peer as
                        int]
                    &&& old(self).content_from(buf@, opened.peer as int) == Some(opened.msg@)
                    &&& forall|j: int|
                        after.peer < j < opened.peer ==> old(self).content_from(buf@, j) is None
                },
                None => forall|j: int|
                    after.peer < j < old(self).key_data.peer_public_keys.values().len() ==> old(
                        self,
                    ).content_from(buf@, j) is None,
            },
    {
        if after.peer < self.key_data.peer_public_keys.len() {
            self.decode(buf, after.peer + 1)
        } else {
            None
        }
    }

    /// The session of the request `req`, which came in a datagram from
    /// `source`. A request for the unspecified address is one for
    /// `source`.
    pub fn session_for(&self, req: &SessReq, source: IpAddr) -> (sess: Session)
        ensures
            sess.cmd@ == self.cmd@,
            sess.req_id == req.req_id,
            sess.duration == self.duration,
            sess.req_addr == req.req_data.addr().or_source(source),
    {
        Session::new(
            self.cmd.as_str(),
            req.req_id,
            self.duration,
            req.req_data.addr().or_source(source),
        )
    }

    /// Answers the request `req_sess` of peer `name`, which arrived at
    /// `now`, as [`handle_incoming`] does, on the server's own request
    /// numbers and leases, and says what the answer asks of the server.
    pub fn respond(&mut self, name: String, req_sess: &Session, now: Timestamp) -> (answered:
        Answered)
        ensures
            answered.resp == response_to(
                old(self).state.cur_req_ids@,
                old(self).sessions@,
                name@,
                req_sess.req_id,
                req_sess.req_addr,
                req_sess.duration,
                now@,
            ),
            answered.accepted == !is_replay(
                old(self).state.cur_req_ids@,
                name@,
                req_sess.req_id,
            ),
            answered.accepted == (final(self).state.cur_req_ids@ != old(self).state.cur_req_ids@),
            answered.follow_up == spec_follow_up(answered.resp.action),
            final(self).state.cur_req_ids@ == ids_after(
                old(self).state.cur_req_ids@,
                name@,
                req_sess.req_id,
            ),
            final(self).sessions@ == leases_after(
                old(self).state.cur_req_ids@,
                old(self).sessions@,
                name@,
                req_sess.req_id,
                req_sess.req_addr,
                req_sess.duration,
                now@,
            ),
            final(self).state.path == old(self).state.path,
            final(self).cmd == old(self).cmd,
            final(self).duration == old(self).duration,
            final(self).key_data == old(self).key_data,
    {
        let resp = handle_incoming(&mut self.sessions, name, req_sess, &mut self.state, now);
        proof {
            let ids = old(self).state.cur_req_ids@;
            if !is_replay(ids, name@, req_sess.req_id) {
                assert(ids_after(ids, name@, req_sess.req_id)[name@] == req_sess.req_id);
                assert(ids.contains_key(name@) ==> ids[name@] < req_sess.req_id);
            }
        }
        let accepted = match resp.action {
            SessReqAction::DenyDuplicateRequest => false,
            _ => true,
        };
        Answered { resp, accepted, follow_up: follow_up(&resp) }
    }

    /// The datagram that carries the encoded answer `msg` back to peer
    /// `name`: `nonce`, then `msg` sealed under it for that peer. `None`
    /// if the server has no key for `name`, or a key that does not agree
    /// with its own. The sealed part must not be longer than anything in
    /// memory can be.
    pub fn seal_response(&self, name: &String, msg: &[u8], nonce: &Nonce) -> (packet: Option<
        Vec<u8>,
    >)
        requires
            msg@.len() + MACBYTES <= isize::MAX,
        ensures
            packet is Some <==> self.key_data.peer_public_keys@.contains_key(name@) && keys_agree(
                self.key_data.secret@,
                self.key_data.peer_public_keys@[name@]@,
            ),
            packet matches Some(p) ==> p@ == nonce@ + box_sealed(
                msg@,
                nonce@,
                self.key_data.peer_public_keys@[name@]@,
                self.key_data.secret@,
            ) && p@.len() == NONCEBYTES + msg@.len() + MACBYTES,
    {
        match self.key_data.peer_public_keys.get(name) {
            Some(peer_public) => {
                match packet::try_create(msg, nonce, &self.key_data.secret, peer_public) {
                    Some(sealed) => Some(packet::assemble(nonce, sealed)),
                    None => None,
                }
            },
            None => None,
        }
    }
}

} // verus!
