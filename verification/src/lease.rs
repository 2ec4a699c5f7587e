//! The lease table: which client addresses hold access right now, and
//! since when.
//!
//! The table is a list that is searched by address. The standard hash map
//! is specified for the verifier only where its keys are integers, and an
//! address is of one of two families. That no address has two leases is
//! the table's own invariant.

use crate::addr::IpAddr;
use crate::time::Timestamp;
use vstd::prelude::*;

verus! {

/// How many times a lease can be renewed before it must run out.
pub const MAX_RENEWALS: u8 = 4;

/// What a lease holds, with its times in nanoseconds since the clock's
/// origin.
pub struct SessionIntervalView {
    /// When access was first granted.
    pub session_start: nat,
    /// When access was last granted or renewed.
    pub timeout_start: nat,
    /// Whether the timer of the previous window has run out, so that a
    /// further renewal may be taken.
    pub renew_ok: bool,
    /// How many renewals the lease has had.
    pub renewals: nat,
}

impl SessionIntervalView {
    /// A lease never counts more than [`MAX_RENEWALS`] renewals.
    pub open spec fn valid(self) -> bool {
        self.renewals <= MAX_RENEWALS
    }

    /// The lease that `self` becomes when it is renewed at `now`.
    pub open spec fn renewed(self, now: nat) -> SessionIntervalView {
        SessionIntervalView {
            timeout_start: now,
            renew_ok: false,
            renewals: self.renewals + 1,
            ..self
        }
    }

    /// The lease that `self` becomes when the timer of a superseded window
    /// runs out.
    pub open spec fn renewable(self) -> SessionIntervalView {
        SessionIntervalView { renew_ok: true, ..self }
    }

    /// The lease created at `now`.
    pub open spec fn fresh(now: nat) -> SessionIntervalView {
        SessionIntervalView { session_start: now, timeout_start: now, renew_ok: true, renewals: 0 }
    }
}

/// Whether every lease of `leases` counts at most [`MAX_RENEWALS`]
/// renewals.
pub open spec fn all_valid(leases: Map<IpAddr, SessionIntervalView>) -> bool {
    forall|addr: IpAddr| leases.contains_key(addr) ==> (#[trigger] leases[addr]).valid()
}

/// One active lease.
#[derive(Clone, Copy, Debug)]
pub struct SessionInterval {
    session_start: Timestamp,
    timeout_start: Timestamp,
    renew_ok: bool,
    renewals: u8,
}

impl View for SessionInterval {
    type V = SessionIntervalView;

    closed spec fn view(&self) -> SessionIntervalView {
        SessionIntervalView {
            session_start: self.session_start@,
            timeout_start: self.timeout_start@,
            renew_ok: self.renew_ok,
            renewals: self.renewals as nat,
        }
    }
}

impl SessionInterval {
    #[verifier::type_invariant]
    spec fn renewals_bounded(&self) -> bool {
        self.renewals <= MAX_RENEWALS
    }

    /// A lease that starts at `now`, renewable and not yet renewed.
    pub fn new(now: Timestamp) -> (lease: SessionInterval)
        ensures
            lease@ == SessionIntervalView::fresh(now@),
    {
        SessionInterval { session_start: now, timeout_start: now, renew_ok: true, renewals: 0 }
    }

    /// When access was first granted.
    pub fn session_start(&self) -> (t: Timestamp)
        ensures
            t@ == self@.session_start,
    {
        self.session_start
    }

    /// When access was last granted or renewed.
    pub fn timeout_start(&self) -> (t: Timestamp)
        ensures
            t@ == self@.timeout_start,
    {
        self.timeout_start
    }

    /// Whether a further renewal may be taken.
    pub fn renew_ok(&self) -> (b: bool)
        ensures
            b == self@.renew_ok,
    {
        self.renew_ok
    }

    /// How many renewals the lease has had, never more than
    /// [`MAX_RENEWALS`].
    pub fn renewals(&self) -> (n: u8)
        ensures
            n == self@.renewals,
            self@.valid(),
    {
        proof {
            use_type_invariant(self);
        }
        self.renewals
    }

    /// The lease renewed at `now`, or `None` when it has used up its
    /// renewals.
    pub fn renewed(&self, now: Timestamp) -> (next: Option<SessionInterval>)
        ensures
            next is Some <==> self@.renewals < MAX_RENEWALS,
            next matches Some(lease) ==> lease@ == self@.renewed(now@),
    {
        if self.renewals < MAX_RENEWALS {
            Some(
                SessionInterval {
                    session_start: self.session_start,
                    timeout_start: now,
                    renew_ok: false,
                    renewals: self.renewals + 1,
                },
            )
        } else {
            None
        }
    }

    /// The lease with a further renewal allowed.
    pub fn renewable(&self) -> (next: SessionInterval)
        ensures
            next@ == self@.renewable(),
    {
        proof {
            use_type_invariant(self);
        }
        SessionInterval {
            session_start: self.session_start,
            timeout_start: self.timeout_start,
            renew_ok: true,
            renewals: self.renewals,
        }
    }
}

/// A lease together with the address that holds it.
struct LeaseEntry {
    addr: IpAddr,
    interval: SessionInterval,
}

/// Whether some entry of `entries` is for `addr`.
spec fn holds(entries: Seq<LeaseEntry>, addr: IpAddr) -> bool {
    exists|i: int| 0 <= i < entries.len() && (#[trigger] entries[i]).addr == addr
}

/// The place of an entry for `addr` in `entries`, where there is one.
spec fn place(entries: Seq<LeaseEntry>, addr: IpAddr) -> int {
    choose|i: int| 0 <= i < entries.len() && (#[trigger] entries[i]).addr == addr
}

/// No two entries of `entries` are for the same address.
spec fn distinct(entries: Seq<LeaseEntry>) -> bool {
    forall|i: int, j: int|
        0 <= i < entries.len() && 0 <= j < entries.len() && (#[trigger] entries[i]).addr == (
        #[trigger] entries[j]).addr ==> i == j
}

/// No entry of `entries` counts more than [`MAX_RENEWALS`] renewals.
spec fn bounded(entries: Seq<LeaseEntry>) -> bool {
    forall|i: int| 0 <= i < entries.len() ==> (#[trigger] entries[i]).interval@.valid()
}

/// The leases of `entries` by address.
spec fn leases(entries: Seq<LeaseEntry>) -> Map<IpAddr, SessionIntervalView> {
    Map::new(|a: IpAddr| holds(entries, a), |a: IpAddr| entries[place(entries, a)].interval@)
}

/// Among distinct entries, the entry at `i` is the one found for its
/// address.
proof fn lemma_place(entries: Seq<LeaseEntry>, i: int)
    requires
        distinct(entries),
        0 <= i < entries.len(),
    ensures
        holds(entries, entries[i].addr),
        place(entries, entries[i].addr) == i,
        leases(entries).contains_key(entries[i].addr),
        leases(entries)[entries[i].addr] == entries[i].interval@,
{
    let p = place(entries, entries[i].addr);
    assert(entries[p].addr == entries[i].addr);
}

/// An address that no entry is for has no lease.
proof fn lemma_absent(entries: Seq<LeaseEntry>, addr: IpAddr)
    requires
        forall|k: int| 0 <= k < entries.len() ==> (#[trigger] entries[k]).addr != addr,
    ensures
        !leases(entries).contains_key(addr),
{
}

/// Replacing the entry at `i` by one for the same address changes that
/// address's lease and no other.
proof fn lemma_update(entries: Seq<LeaseEntry>, i: int, entry: LeaseEntry)
    requires
        distinct(entries),
        0 <= i < entries.len(),
        entries[i].addr == entry.addr,
    ensures
        distinct(entries.update(i, entry)),
        leases(entries.update(i, entry)) == leases(entries).insert(entry.addr, entry.interval@),
        bounded(entries) && entry.interval@.valid() ==> bounded(entries.update(i, entry)),
{
    let next = entries.update(i, entry);
    if bounded(entries) && entry.interval@.valid() {
        assert forall|k: int| 0 <= k < next.len() implies (#[trigger] next[k]).interval@.valid(
        ) by {
            if k != i {
                assert(next[k] == entries[k]);
            }
        }
    }
    assert(distinct(next)) by {
        assert forall|a: int, b: int|
            0 <= a < next.len() && 0 <= b < next.len() && (#[trigger] next[a]).addr == (
            #[trigger] next[b]).addr implies a == b by {
            assert(entries[a].addr == next[a].addr);
            assert(entries[b].addr == next[b].addr);
        }
    }
    assert forall|a: IpAddr| holds(next, a) == holds(entries, a) by {
        if holds(next, a) {
            let k = place(next, a);
            assert(entries[k].addr == a);
        }
        if holds(entries, a) {
            let k = place(entries, a);
            assert(next[k].addr == a);
        }
    }
    assert forall|a: IpAddr| holds(next, a) implies #[trigger] leases(next)[a] == leases(
        entries,
    ).insert(entry.addr, entry.interval@)[a] by {
        let k = place(next, a);
        lemma_place(next, k);
        if k != i {
            assert(entries[k] == next[k]);
            lemma_place(entries, k);
        }
    }
    lemma_place(entries, i);
    assert(leases(next) =~= leases(entries).insert(entry.addr, entry.interval@));
}

/// Appending an entry for an address without one adds that lease and
/// changes no other.
proof fn lemma_push(entries: Seq<LeaseEntry>, entry: LeaseEntry)
    requires
        distinct(entries),
        !holds(entries, entry.addr),
    ensures
        distinct(entries.push(entry)),
        leases(entries.push(entry)) == leases(entries).insert(entry.addr, entry.interval@),
        bounded(entries) && entry.interval@.valid() ==> bounded(entries.push(entry)),
{
    let next = entries.push(entry);
    let last = entries.len() as int;
    if bounded(entries) && entry.interval@.valid() {
        assert forall|k: int| 0 <= k < next.len() implies (#[trigger] next[k]).interval@.valid(
        ) by {
            if k < last {
                assert(next[k] == entries[k]);
            }
        }
    }
    assert(distinct(next)) by {
        assert forall|a: int, b: int|
            0 <= a < next.len() && 0 <= b < next.len() && (#[trigger] next[a]).addr == (
            #[trigger] next[b]).addr implies a == b by {
            if a < last {
                assert(entries[a] == next[a]);
            }
            if b < last {
                assert(entries[b] == next[b]);
            }
        }
    }
    assert(next[last] == entry);
    assert forall|a: IpAddr| holds(next, a) == (holds(entries, a) || a == entry.addr) by {
        if holds(next, a) {
            let k = place(next, a);
            if k < last {
                assert(entries[k].addr == a);
            }
        }
        if holds(entries, a) {
            let k = place(entries, a);
            assert(next[k].addr == a);
        }
    }
    assert forall|a: IpAddr| holds(next, a) implies #[trigger] leases(next)[a] == leases(
        entries,
    ).insert(entry.addr, entry.interval@)[a] by {
        let k = place(next, a);
        lemma_place(next, k);
        if k < last {
            assert(entries[k] == next[k]);
            lemma_place(entries, k);
        }
    }
    assert(leases(next) =~= leases(entries).insert(entry.addr, entry.interval@));
}

/// Taking out the entry at `i` removes the lease of its address and
/// changes no other.
proof fn lemma_remove(entries: Seq<LeaseEntry>, i: int)
    requires
        distinct(entries),
        0 <= i < entries.len(),
    ensures
        distinct(entries.remove(i)),
        leases(entries.remove(i)) == leases(entries).remove(entries[i].addr),
        bounded(entries) ==> bounded(entries.remove(i)),
{
    let next = entries.remove(i);
    let gone = entries[i].addr;
    assert forall|k: int| 0 <= k < next.len() implies #[trigger] next[k] == entries[if k < i {
        k
    } else {
        k + 1
    }] by {}
    if bounded(entries) {
        assert forall|k: int| 0 <= k < next.len() implies (#[trigger] next[k]).interval@.valid(
        ) by {
            assert(entries[if k < i { k } else { k + 1 }].interval@.valid());
        }
    }
    assert(distinct(next)) by {
        assert forall|a: int, b: int|
            0 <= a < next.len() && 0 <= b < next.len() && (#[trigger] next[a]).addr == (
            #[trigger] next[b]).addr implies a == b by {
            let a0 = if a < i { a } else { a + 1 };
            let b0 = if b < i { b } else { b + 1 };
            assert(entries[a0].addr == entries[b0].addr);
        }
    }
    assert forall|a: IpAddr| holds(next, a) == (holds(entries, a) && a != gone) by {
        if holds(next, a) {
            let k = place(next, a);
            let k0 = if k < i { k } else { k + 1 };
            assert(entries[k0].addr == a);
        }
        if holds(entries, a) && a != gone {
            let k = place(entries, a);
            let k1 = if k < i { k } else { k - 1 };
            assert(next[k1].addr == a);
        }
    }
    assert forall|a: IpAddr| holds(next, a) implies #[trigger] leases(next)[a] == leases(
        entries,
    )[a] by {
        let k = place(next, a);
        lemma_place(next, k);
        let k0 = if k < i { k } else { k + 1 };
        assert(entries[k0] == next[k]);
        lemma_place(entries, k0);
    }
    assert(leases(next) =~= leases(entries).remove(gone));
}

/// Distinct entries are as many as the addresses that hold a lease.
proof fn lemma_count(entries: Seq<LeaseEntry>)
    requires
        distinct(entries),
    ensures
        leases(entries).dom().finite(),
        leases(entries).dom().len() == entries.len(),
    decreases entries.len(),
{
    if entries.len() == 0 {
        assert(leases(entries).dom() =~= Set::<IpAddr>::empty());
    } else {
        let last = entries.len() - 1;
        lemma_remove(entries, last);
        lemma_place(entries, last);
        let rest = entries.remove(last);
        lemma_count(rest);
        assert(leases(entries).dom() =~= leases(rest).dom().insert(entries[last].addr));
    }
}

/// Where no entry counts too many renewals, no lease does.
proof fn lemma_bounded(entries: Seq<LeaseEntry>)
    requires
        bounded(entries),
    ensures
        all_valid(leases(entries)),
{
    assert forall|addr: IpAddr| leases(entries).contains_key(addr) implies (#[trigger] leases(
        entries,
    )[addr]).valid() by {
        let k = place(entries, addr);
        assert(entries[k].interval@.valid());
    }
}

/// The active leases, at most one for each client address.
pub struct LeaseTable {
    entries: Vec<LeaseEntry>,
}

impl View for LeaseTable {
    type V = Map<IpAddr, SessionIntervalView>;

    closed spec fn view(&self) -> Map<IpAddr, SessionIntervalView> {
        leases(self.entries@)
    }
}

impl LeaseTable {
    /// What holds of every table: no address has two leases, and no lease
    /// counts more than [`MAX_RENEWALS`] renewals.
    #[verifier::type_invariant]
    pub closed spec fn well_formed(&self) -> bool {
        distinct(self.entries@) && bounded(self.entries@)
    }

    /// In a table as every table is, no lease counts more than
    /// [`MAX_RENEWALS`] renewals.
    pub proof fn lemma_renewals_bounded(&self)
        requires
            self.well_formed(),
        ensures
            all_valid(self@),
    {
        lemma_bounded(self.entries@);
    }

    /// The table without leases.
    pub fn new() -> (table: LeaseTable)
        ensures
            table@ == Map::<IpAddr, SessionIntervalView>::empty(),
            all_valid(table@),
    {
        let table = LeaseTable { entries: Vec::new() };
        assert(table@ =~= Map::<IpAddr, SessionIntervalView>::empty());
        table
    }

    /// Where the entry for `addr` stands, if the table has one.
    fn position(&self, addr: &IpAddr) -> (at: Option<usize>)
        ensures
            at is Some <==> holds(self.entries@, *addr),
            at matches Some(i) ==> i < self.entries.len() && self.entries[i as int].addr == *addr
                && place(self.entries@, *addr) == i,
    {
        proof {
            use_type_invariant(self);
        }
        let mut i: usize = 0;
        while i < self.entries.len()
            invariant
                i <= self.entries.len(),
                distinct(self.entries@),
                forall|k: int| 0 <= k < i ==> (#[trigger] self.entries[k]).addr != *addr,
            decreases self.entries.len() - i,
        {
            if self.entries[i].addr == *addr {
                return Some(i);
            }
            i += 1;
        }
        None
    }

    /// The lease that `addr` holds, if it holds one.
    pub fn entry_for(&self, addr: &IpAddr) -> (lease: Option<SessionInterval>)
        ensures
            lease is Some <==> self@.contains_key(*addr),
            lease matches Some(l) ==> l@ == self@[*addr] && l@.valid(),
            all_valid(self@),
    {
        proof {
            use_type_invariant(self);
            lemma_bounded(self.entries@);
        }
        match self.position(addr) {
            Some(i) => {
                let l = self.entries[i].interval;
                proof {
                    use_type_invariant(&l);
                }
                Some(l)
            },
            None => None,
        }
    }

    /// Gives `addr` the lease `interval`, in place of the one it held.
    pub fn insert(&mut self, addr: IpAddr, interval: SessionInterval)
        ensures
            final(self)@ == old(self)@.insert(addr, interval@),
            all_valid(final(self)@),
    {
        proof {
            use_type_invariant(&*self);
            use_type_invariant(&interval);
        }
        let at = self.position(&addr);
        let mut entries: Vec<LeaseEntry> = Vec::new();
        core::mem::swap(&mut self.entries, &mut entries);
        let entry = LeaseEntry { addr, interval };
        match at {
            Some(i) => {
                proof {
                    lemma_update(entries@, i as int, entry);
                }
                entries.set(i, entry);
            },
            None => {
                proof {
                    lemma_push(entries@, entry);
                }
                entries.push(entry);
            },
        }
        proof {
            lemma_bounded(entries@);
        }
        core::mem::swap(&mut self.entries, &mut entries);
    }

    /// Gives `addr` the lease `interval` unless it holds one already.
    pub fn insert_if_absent(&mut self, addr: IpAddr, interval: SessionInterval)
        ensures
            old(self)@.contains_key(addr) ==> final(self)@ == old(self)@,
            !old(self)@.contains_key(addr) ==> final(self)@ == old(self)@.insert(addr, interval@),
            all_valid(final(self)@),
    {
        proof {
            use_type_invariant(&*self);
            lemma_bounded(self.entries@);
        }
        if self.position(&addr).is_none() {
            self.insert(addr, interval);
        }
    }

    /// Takes the lease of `addr` out of the table and returns it, if there
    /// was one. Afterwards `addr` holds none.
    pub fn remove(&mut self, addr: &IpAddr) -> (lease: Option<SessionInterval>)
        ensures
            final(self)@ == old(self)@.remove(*addr),
            !final(self)@.contains_key(*addr),
            lease is Some <==> old(self)@.contains_key(*addr),
            lease matches Some(l) ==> l@ == old(self)@[*addr],
            all_valid(final(self)@),
    {
        proof {
            use_type_invariant(&*self);
            lemma_bounded(self.entries@);
        }
        match self.position(addr) {
            Some(i) => {
                let mut entries: Vec<LeaseEntry> = Vec::new();
                core::mem::swap(&mut self.entries, &mut entries);
                proof {
                    lemma_remove(entries@, i as int);
                }
                let entry = entries.remove(i);
                proof {
                    lemma_bounded(entries@);
                }
                core::mem::swap(&mut self.entries, &mut entries);
                Some(entry.interval)
            },
            None => {
                assert(self@ =~= old(self)@.remove(*addr));
                None
            },
        }
    }

    /// How many leases are active: as many as there are addresses that
    /// hold one.
    pub fn len(&self) -> (n: usize)
        ensures
            self@.dom().finite(),
            n == self@.dom().len(),
            all_valid(self@),
    {
        proof {
            use_type_invariant(self);
            lemma_count(self.entries@);
            lemma_bounded(self.entries@);
        }
        self.entries.len()
    }

    /// Whether no lease is active.
    pub fn is_empty(&self) -> (empty: bool)
        ensures
            empty == (self@ == Map::<IpAddr, SessionIntervalView>::empty()),
    {
        proof {
            use_type_invariant(self);
            lemma_count(self.entries@);
            if self.entries@.len() == 0 {
                assert(self@ =~= Map::<IpAddr, SessionIntervalView>::empty());
            } else {
                lemma_place(self.entries@, 0);
            }
        }
        self.entries.len() == 0
    }

    /// Whether `addr` holds a lease.
    pub fn contains(&self, addr: &IpAddr) -> (found: bool)
        ensures
            found == self@.contains_key(*addr),
    {
        self.position(addr).is_some()
    }
}

} // verus!
