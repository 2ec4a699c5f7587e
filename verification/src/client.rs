//! The client's side of the protocol: numbering and sealing a request,
//! and opening the server's answer.

use crate::addr::IpAddr;
use crate::err::AccessError;
use crate::keys::{ClientKeyData, Nonce, MACBYTES, NONCEBYTES};
use crate::packet;
use crate::packet::{box_sealed, keys_agree, packet_content};
use crate::req::{ReqData, SessReq};
use crate::state::ClientState;
use vstd::prelude::*;

verus! {

/// All that a client works with: the number of its last request, and its
/// keys.
pub struct ClientCodec {
    /// The number of the last request.
    pub state: ClientState,
    /// The client's secret key and the server's public key.
    pub key_data: ClientKeyData,
}

impl ClientCodec {
    /// The client with the loaded `state` and `key_data`.
    pub fn new(state: ClientState, key_data: ClientKeyData) -> (codec: ClientCodec)
        ensures
            codec.state == state,
            codec.key_data == key_data,
    {
        ClientCodec { state, key_data }
    }

    /// The next request for access for `client_addr`. It takes the number
    /// after the last one, which the state then holds: the caller writes
    /// the state out before it sends the request. `None` when the numbers
    /// have run out, which leaves the state as it was.
    pub fn next_request(&mut self, client_addr: IpAddr) -> (req: Option<SessReq>)
        ensures
            final(self).key_data == old(self).key_data,
            final(self).state.path == old(self).state.path,
            old(self).state.cur_req_id < u64::MAX ==> final(self).state.cur_req_id == old(
                self,
            ).state.cur_req_id + 1 && req == Some(
                SessReq {
                    req_id: final(self).state.cur_req_id,
                    req_data: ReqData::TimedAccess(client_addr),
                },
            ),
            old(self).state.cur_req_id == u64::MAX ==> req is None && final(self).state.cur_req_id
                == u64::MAX,
    {
        match self.state.next_req_id() {
            Some(req_id) => Some(SessReq::new(req_id, ReqData::TimedAccess(client_addr))),
            None => None,
        }
    }

    /// The datagram that carries the encoded request `msg` to the server:
    /// `nonce`, then `msg` sealed under it for the server. `None` if the
    /// server's key does not agree with the client's. The sealed part
    /// must not be longer than anything in memory can be.
    pub fn seal_request(&self, msg: &[u8], nonce: &Nonce) -> (packet: Option<Vec<u8>>)
        requires
            msg@.len() + MACBYTES <= isize::MAX,
        ensures
            packet is Some <==> keys_agree(self.key_data.secret@, self.key_data.peer_public@),
            packet matches Some(p) ==> p@ == nonce@ + box_sealed(
                msg@,
                nonce@,
                self.key_data.peer_public@,
                self.key_data.secret@,
            ) && p@.len() == NONCEBYTES + msg@.len() + MACBYTES,
    {
        match packet::try_create(msg, nonce, &self.key_data.secret, &self.key_data.peer_public) {
            Some(sealed) => Some(packet::assemble(nonce, sealed)),
            None => None,
        }
    }

    /// Opens the datagram `buf` as an answer of the server.
    pub fn open_response(&self, buf: &[u8]) -> (result: Result<Vec<u8>, AccessError>)
        ensures
            result is Ok <==> packet_content(
                buf@,
                self.key_data.secret@,
                self.key_data.peer_public@,
            ) is Some,
            result matches Ok(msg) ==> packet_content(
                buf@,
                self.key_data.secret@,
                self.key_data.peer_public@,
            ) == Some(msg@),
            result matches Err(e) ==> if buf@.len() < NONCEBYTES {
                e is InvalidNonce
            } else {
                e is InvalidCiphertext
            },
    {
        packet::open(buf, &self.key_data.secret, &self.key_data.peer_public)
    }
}

} // verus!
