//! The server's decisions: what to answer to a request, and what to do
//! with a lease when its timer runs out.
//!
//! Nothing here waits, runs the operator's hook or reads a clock. The
//! caller does, and tells these functions what happened and when.

use crate::addr::IpAddr;
use crate::lease::{all_valid, LeaseTable, SessionInterval, SessionIntervalView, MAX_RENEWALS};
use crate::resp::{SessReqAction, SessResp};
use crate::state::{current_id, ids_after, is_replay, ServerState};
use crate::time::{secs_between, Timestamp, NANOS_PER_SEC};
use vstd::prelude::*;

verus! {

/// One request on its way through the server: what was asked, for whom,
/// and the hook that opens and closes access.
pub struct Session {
    /// The operator's hook, run as `cmd grant <addr>` and
    /// `cmd revoke <addr>`.
    pub cmd: String,
    /// The number of the request.
    pub req_id: u64,
    /// Seconds of access that a grant or a renewal gives.
    pub duration: u64,
    /// The address that access is asked for.
    pub req_addr: IpAddr,
}

/// What to do with a lease when a timer set for it runs out.
#[derive(Clone, Copy, Debug, PartialEq, Eq, Structural)]
pub enum TimeoutCompleteAction {
    /// The lease has run its time: close access and drop the lease.
    Revoke,
    /// The lease was renewed while the timer ran: a later timer decides.
    Renew,
    /// There is no lease for the address.
    Unknown,
}

/// What the server does once it has given an answer.
#[derive(Clone, Copy, Debug, PartialEq, Eq, Structural)]
pub enum FollowUp {
    /// Run the hook to open access; when it is done, make the lease with
    /// [`create_session`] and set a timer for the lease's time.
    RunGrantHook,
    /// Set a timer for the lease's time. Access is open already: no hook
    /// runs for a renewal.
    StartTimer,
    /// Nothing: the request was denied.
    Nothing,
}

/// What follows an answer with the action `action`.
pub open spec fn spec_follow_up(action: SessReqAction) -> FollowUp {
    match action {
        SessReqAction::Grant => FollowUp::RunGrantHook,
        SessReqAction::Renew => FollowUp::StartTimer,
        _ => FollowUp::Nothing,
    }
}

/// What follows the answer `resp`. Whatever timer is set, the server
/// decides by [`get_timeout_action`] when it runs out.
pub fn follow_up(resp: &SessResp) -> (step: FollowUp)
    ensures
        step == spec_follow_up(resp.action),
{
    match resp.action {
        SessReqAction::Grant => FollowUp::RunGrantHook,
        SessReqAction::Renew => FollowUp::StartTimer,
        _ => FollowUp::Nothing,
    }
}

/// Seconds of a window of `duration` seconds that must pass before a
/// renewal is taken: three quarters of it, rounded down.
pub open spec fn renew_ok_after(duration: u64) -> nat {
    (3 * duration as nat) / 4
}

/// The answer to a request numbered `req_id` that is no replay, asking at
/// `now` for `duration` seconds for an address whose lease, if it holds
/// one, is `lease`.
pub open spec fn lease_decision(
    lease: Option<SessionIntervalView>,
    now: nat,
    req_id: u64,
    duration: u64,
) -> SessResp {
    match lease {
        None => SessResp {
            action: SessReqAction::Grant,
            req_id,
            duration,
            renewals_remaining: MAX_RENEWALS,
        },
        Some(l) => {
            let elapsed = secs_between(l.timeout_start, now);
            if elapsed < renew_ok_after(duration) {
                SessResp {
                    action: SessReqAction::DenyRenewTooSoon,
                    req_id,
                    duration: (renew_ok_after(duration) - elapsed) as u64,
                    renewals_remaining: 0,
                }
            } else if l.renewals >= MAX_RENEWALS {
                SessResp {
                    action: SessReqAction::DenyMaxRenewalsReached,
                    req_id,
                    duration: 0,
                    renewals_remaining: 0,
                }
            } else if !l.renew_ok {
                SessResp {
                    action: SessReqAction::DenyRenewAlreadyInProgress,
                    req_id,
                    duration: 0,
                    renewals_remaining: 0,
                }
            } else {
                SessResp {
                    action: SessReqAction::Renew,
                    req_id,
                    duration,
                    renewals_remaining: (MAX_RENEWALS - (l.renewals + 1)) as u8,
                }
            }
        },
    }
}

/// The lease that `addr` holds in `leases`, if it holds one.
pub open spec fn lease_of(leases: Map<IpAddr, SessionIntervalView>, addr: IpAddr) -> Option<
    SessionIntervalView,
> {
    if leases.contains_key(addr) {
        Some(leases[addr])
    } else {
        None
    }
}

/// The answer to the request numbered `req_id` that peer `name` makes at
/// `now` for `duration` seconds for `addr`, given the request numbers
/// `ids` and the leases `leases`. The replay check comes first: a replay is
/// denied whatever the leases hold.
pub open spec fn response_to(
    ids: Map<Seq<char>, u64>,
    leases: Map<IpAddr, SessionIntervalView>,
    name: Seq<char>,
    req_id: u64,
    addr: IpAddr,
    duration: u64,
    now: nat,
) -> SessResp {
    if is_replay(ids, name, req_id) {
        SessResp {
            action: SessReqAction::DenyDuplicateRequest,
            req_id,
            duration: 0,
            renewals_remaining: 0,
        }
    } else {
        lease_decision(lease_of(leases, addr), now, req_id, duration)
    }
}

/// The leases once that request is answered: a renewal restarts the
/// window of the lease of `addr` and counts; any other answer leaves the
/// leases as they were.
pub open spec fn leases_after(
    ids: Map<Seq<char>, u64>,
    leases: Map<IpAddr, SessionIntervalView>,
    name: Seq<char>,
    req_id: u64,
    addr: IpAddr,
    duration: u64,
    now: nat,
) -> Map<IpAddr, SessionIntervalView> {
    if response_to(ids, leases, name, req_id, addr, duration, now).action is Renew {
        leases.insert(addr, leases[addr].renewed(now))
    } else {
        leases
    }
}

/// What is due when a timer set for `duration` seconds runs out at `now`
/// for an address whose lease, if it holds one, is `lease`.
pub open spec fn timeout_decision(lease: Option<SessionIntervalView>, now: nat, duration: u64)
    -> TimeoutCompleteAction {
    match lease {
        None => TimeoutCompleteAction::Unknown,
        Some(l) => if secs_between(l.timeout_start, now) >= duration {
            TimeoutCompleteAction::Revoke
        } else {
            TimeoutCompleteAction::Renew
        },
    }
}

impl Session {
    /// The session of a request numbered `req_id` for `req_addr`, with the
    /// server's hook and lease time.
    pub fn new(cmd: &str, req_id: u64, duration: u64, req_addr: IpAddr) -> (sess: Session)
        ensures
            sess.cmd@ == cmd@,
            sess.req_id == req_id,
            sess.duration == duration,
            sess.req_addr == req_addr,
    {
        Session { cmd: cmd.to_owned(), req_id, duration, req_addr }
    }
}

/// Three quarters of `duration`, rounded down.
pub fn renewal_threshold(duration: u64) -> (secs: u64)
    ensures
        secs == renew_ok_after(duration),
{
    let quarter: u64 = duration / 4;
    let rest: u64 = duration % 4;
    quarter * 3 + rest * 3 / 4
}

/// Answers the request `req_sess` of peer `name`, which arrived at `now`.
///
/// The request's number is held against the last one accepted from the
/// peer. A number that is not above it is a replay: it is denied, and
/// neither `state` nor `sessions` changes. Any other number is accepted
/// and recorded in `state`, whatever the answer then is: the caller writes
/// `state` out before it acts on the answer.
///
/// An address without a lease is granted access. The lease itself is made
/// by [`create_session`], once the hook has opened access. An address
/// with a lease gets it renewed if three quarters of the running window
/// have passed, renewals are left and none was taken in this window; the
/// renewal restarts the window at `now`.
pub fn handle_incoming(
    sessions: &mut LeaseTable,
    name: String,
    req_sess: &Session,
    state: &mut ServerState,
    now: Timestamp,
) -> (resp: SessResp)
    ensures
        resp == response_to(
            old(state).cur_req_ids@,
            old(sessions)@,
            name@,
            req_sess.req_id,
            req_sess.req_addr,
            req_sess.duration,
            now@,
        ),
        final(state).cur_req_ids@ == ids_after(old(state).cur_req_ids@, name@, req_sess.req_id),
        final(state).path == old(state).path,
        current_id(final(state).cur_req_ids@, name@) >= req_sess.req_id,
        current_id(final(state).cur_req_ids@, name@) == if req_sess.req_id >= current_id(
            old(state).cur_req_ids@,
            name@,
        ) {
            req_sess.req_id
        } else {
            current_id(old(state).cur_req_ids@, name@)
        },
        final(sessions)@ == leases_after(
            old(state).cur_req_ids@,
            old(sessions)@,
            name@,
            req_sess.req_id,
            req_sess.req_addr,
            req_sess.duration,
            now@,
        ),
        all_valid(final(sessions)@),
{
    if !state.accept(name, req_sess.req_id) {
        proof {
            use_type_invariant(&*sessions);
            sessions.lemma_renewals_bounded();
        }
        return SessResp::new(SessReqAction::DenyDuplicateRequest, req_sess.req_id, 0, 0);
    }
    match sessions.entry_for(&req_sess.req_addr) {
        Some(lease) => {
            let elapsed: u64 = lease.timeout_start().elapsed_secs(&now);
            let renew_ok_after: u64 = renewal_threshold(req_sess.duration);
            if elapsed < renew_ok_after {
                SessResp::new(
                    SessReqAction::DenyRenewTooSoon,
                    req_sess.req_id,
                    renew_ok_after - elapsed,
                    0,
                )
            } else {
                match lease.renewed(now) {
                    None => SessResp::new(
                        SessReqAction::DenyMaxRenewalsReached,
                        req_sess.req_id,
                        0,
                        0,
                    ),
                    Some(next) => if !lease.renew_ok() {
                        SessResp::new(
                            SessReqAction::DenyRenewAlreadyInProgress,
                            req_sess.req_id,
                            0,
                            0,
                        )
                    } else {
                        sessions.insert(req_sess.req_addr, next);
                        SessResp::new(
                            SessReqAction::Renew,
                            req_sess.req_id,
                            req_sess.duration,
                            MAX_RENEWALS - next.renewals(),
                        )
                    },
                }
            }
        },
        None => SessResp::new(
            SessReqAction::Grant,
            req_sess.req_id,
            req_sess.duration,
            MAX_RENEWALS,
        ),
    }
}

/// Records that access was opened for `client_addr` at `now`: the address
/// gets a fresh lease, unless it holds one already, which then stays as it
/// is.
pub fn create_session(sessions: &mut LeaseTable, client_addr: IpAddr, now: Timestamp)
    ensures
        old(sessions)@.contains_key(client_addr) ==> final(sessions)@ == old(sessions)@,
        !old(sessions)@.contains_key(client_addr) ==> final(sessions)@ == old(sessions)@.insert(
            client_addr,
            SessionIntervalView::fresh(now@),
        ),
        all_valid(final(sessions)@),
{
    sessions.insert_if_absent(client_addr, SessionInterval::new(now));
}

/// Decides what a timer that ran out at `now` means for the address of
/// `sess`. A lease whose window has lasted the session's whole time is to
/// be revoked; the table keeps it until [`end_session`]. A younger window
/// shows that the lease was renewed while the timer ran: the lease may
/// then be renewed again. Without a lease there is nothing to do.
pub fn get_timeout_action(sessions: &mut LeaseTable, sess: &Session, now: Timestamp) -> (action:
    TimeoutCompleteAction)
    ensures
        action == timeout_decision(lease_of(old(sessions)@, sess.req_addr), now@, sess.duration),
        action is Renew ==> final(sessions)@ == old(sessions)@.insert(
            sess.req_addr,
            old(sessions)@[sess.req_addr].renewable(),
        ),
        !(action is Renew) ==> final(sessions)@ == old(sessions)@,
        all_valid(final(sessions)@),
{
    match sessions.entry_for(&sess.req_addr) {
        Some(lease) => {
            if lease.timeout_start().elapsed_secs(&now) >= sess.duration {
                TimeoutCompleteAction::Revoke
            } else {
                sessions.insert(sess.req_addr, lease.renewable());
                TimeoutCompleteAction::Renew
            }
        },
        None => TimeoutCompleteAction::Unknown,
    }
}

/// Drops the lease of `client_addr` after access was closed at `now`, and
/// returns the whole seconds the lease has lived, or `None` if the address
/// held none. Either way no lease for the address is left.
pub fn end_session(sessions: &mut LeaseTable, client_addr: &IpAddr, now: Timestamp) -> (lived:
    Option<u64>)
    ensures
        final(sessions)@ == old(sessions)@.remove(*client_addr),
        !final(sessions)@.contains_key(*client_addr),
        lived is Some <==> old(sessions)@.contains_key(*client_addr),
        lived matches Some(secs) ==> secs == secs_between(
            old(sessions)@[*client_addr].session_start,
            now@,
        ),
        all_valid(final(sessions)@),
{
    match sessions.remove(client_addr) {
        Some(lease) => Some(lease.session_start().elapsed_secs(&now)),
        None => None,
    }
}

/// A request whose number is not above the last one accepted from its
/// peer is denied as a duplicate, and neither the kept numbers nor the
/// leases change.
pub proof fn lemma_replay_changes_nothing(
    ids: Map<Seq<char>, u64>,
    leases: Map<IpAddr, SessionIntervalView>,
    name: Seq<char>,
    req_id: u64,
    addr: IpAddr,
    duration: u64,
    now: nat,
)
    requires
        req_id <= current_id(ids, name),
    ensures
        response_to(ids, leases, name, req_id, addr, duration, now) == (SessResp {
            action: SessReqAction::DenyDuplicateRequest,
            req_id,
            duration: 0,
            renewals_remaining: 0,
        }),
        ids_after(ids, name, req_id) == ids,
        leases_after(ids, leases, name, req_id, addr, duration, now) == leases,
{
}

/// A renewal asked for one second before three quarters of the window
/// have passed is denied as too soon, with one second to wait.
pub proof fn lemma_one_second_early_is_too_soon(
    lease: SessionIntervalView,
    now: nat,
    req_id: u64,
    duration: u64,
)
    requires
        secs_between(lease.timeout_start, now) == renew_ok_after(duration) - 1,
    ensures
        lease_decision(Some(lease), now, req_id, duration) == (SessResp {
            action: SessReqAction::DenyRenewTooSoon,
            req_id,
            duration: 1,
            renewals_remaining: 0,
        }),
{
}

/// A renewal asked for exactly when three quarters of the window have
/// passed is taken, if the lease has renewals left and none was taken in
/// this window.
pub proof fn lemma_renewal_at_threshold(
    lease: SessionIntervalView,
    now: nat,
    req_id: u64,
    duration: u64,
)
    requires
        secs_between(lease.timeout_start, now) == renew_ok_after(duration),
        lease.renewals < MAX_RENEWALS,
        lease.renew_ok,
    ensures
        lease_decision(Some(lease), now, req_id, duration) == (SessResp {
            action: SessReqAction::Renew,
            req_id,
            duration,
            renewals_remaining: (MAX_RENEWALS - lease.renewals - 1) as u8,
        }),
{
}

/// A lease that has had all its renewals gets no further one: once three
/// quarters of its window have passed, a renewal is denied for good.
pub proof fn lemma_no_renewal_beyond_max(
    lease: SessionIntervalView,
    now: nat,
    req_id: u64,
    duration: u64,
)
    requires
        lease.renewals == MAX_RENEWALS,
        secs_between(lease.timeout_start, now) >= renew_ok_after(duration),
    ensures
        lease_decision(Some(lease), now, req_id, duration) == (SessResp {
            action: SessReqAction::DenyMaxRenewalsReached,
            req_id,
            duration: 0,
            renewals_remaining: 0,
        }),
{
}

/// Whatever the answer to a request, every lease counts at most
/// [`MAX_RENEWALS`] renewals afterwards if every lease did before.
pub proof fn lemma_renewals_stay_bounded(
    ids: Map<Seq<char>, u64>,
    leases: Map<IpAddr, SessionIntervalView>,
    name: Seq<char>,
    req_id: u64,
    addr: IpAddr,
    duration: u64,
    now: nat,
)
    requires
        forall|a: IpAddr| leases.contains_key(a) ==> (#[trigger] leases[a]).valid(),
    ensures
        forall|a: IpAddr|
            leases_after(ids, leases, name, req_id, addr, duration, now).contains_key(a) ==> (
            #[trigger] leases_after(ids, leases, name, req_id, addr, duration, now)[a]).valid(),
{
    let next = leases_after(ids, leases, name, req_id, addr, duration, now);
    assert forall|a: IpAddr| next.contains_key(a) implies (#[trigger] next[a]).valid() by {
        if a != addr {
            assert(leases.contains_key(a));
            assert(leases[a].valid());
        } else if leases.contains_key(a) {
            assert(leases[a].valid());
        }
    }
}

/// A timer that runs out before the window of a lease has lasted the
/// lease's time leaves the lease in place. So a lease renewed at
/// `renewed_at` outlasts the timer of the window before.
pub proof fn lemma_renewal_outlasts_timer(
    lease: SessionIntervalView,
    renewed_at: nat,
    now: nat,
    duration: u64,
)
    requires
        renewed_at <= now < renewed_at + duration * NANOS_PER_SEC,
    ensures
        timeout_decision(Some(lease.renewed(renewed_at)), now, duration)
            == TimeoutCompleteAction::Renew,
{
    let n = NANOS_PER_SEC as int;
    let gone = now - renewed_at;
    assert(gone / n < duration) by (nonlinear_arith)
        requires
            0 <= gone < duration * n,
            n > 0,
    ;
}

/// A timer that runs out once the window of a lease has lasted the
/// lease's time means that the lease is to be revoked.
pub proof fn lemma_timer_ends_lease(lease: SessionIntervalView, now: nat, duration: u64)
    requires
        now >= lease.timeout_start + duration * NANOS_PER_SEC,
    ensures
        timeout_decision(Some(lease), now, duration) == TimeoutCompleteAction::Revoke,
{
    let n = NANOS_PER_SEC as int;
    let gone = now - lease.timeout_start;
    assert(gone / n >= duration) by (nonlinear_arith)
        requires
            gone >= duration * n,
            n > 0,
    ;
}

} // verus!
