//! The request numbers that defeat replayed requests, as each side keeps
//! them from run to run.

use crate::names::NameMap;
use vstd::prelude::*;

verus! {

/// What a client keeps: the number of its last request.
pub struct ClientState {
    /// Where this state is kept.
    pub path: String,
    /// The number of the last request sent; zero before the first.
    pub cur_req_id: u64,
}

/// What the server keeps: for each peer the number of the last request
/// accepted from it.
pub struct ServerState {
    /// Where this state is kept.
    pub path: String,
    /// The last accepted request number by peer name. A peer without an
    /// entry has had none accepted.
    pub cur_req_ids: NameMap<u64>,
}

/// The number of the last request accepted from `name`: zero where `ids`
/// has none.
pub open spec fn current_id(ids: Map<Seq<char>, u64>, name: Seq<char>) -> u64 {
    if ids.contains_key(name) {
        ids[name]
    } else {
        0
    }
}

/// Whether a request numbered `req_id` from `name` repeats or precedes one
/// that was accepted already.
pub open spec fn is_replay(ids: Map<Seq<char>, u64>, name: Seq<char>, req_id: u64) -> bool {
    req_id <= current_id(ids, name)
}

/// The numbers kept once a request numbered `req_id` from `name` has been
/// looked at: an accepted request leaves its number, a replay leaves
/// nothing.
pub open spec fn ids_after(ids: Map<Seq<char>, u64>, name: Seq<char>, req_id: u64) -> Map<
    Seq<char>,
    u64,
> {
    if is_replay(ids, name, req_id) {
        ids
    } else {
        ids.insert(name, req_id)
    }
}

impl ClientState {
    /// The state of a client that has sent nothing yet, to be kept at
    /// `path`.
    pub fn new_at_path(path: String) -> (state: ClientState)
        ensures
            state.cur_req_id == 0,
            state.path@ == path@,
    {
        ClientState { path, cur_req_id: 0 }
    }

    /// The state with the last request number `cur_req_id`, to be kept at
    /// `path`.
    pub fn with_req_id(path: String, cur_req_id: u64) -> (state: ClientState)
        ensures
            state.cur_req_id == cur_req_id,
            state.path@ == path@,
    {
        ClientState { path, cur_req_id }
    }

    /// Where this state is kept.
    pub fn path(&self) -> (path: &String)
        ensures
            path@ == self.path@,
    {
        &self.path
    }

    /// Keeps this state at `path` from now on.
    pub fn set_path(&mut self, path: String)
        ensures
            final(self).path@ == path@,
            final(self).cur_req_id == old(self).cur_req_id,
    {
        self.path = path;
    }

    /// Takes the next request number, or `None` when the numbers have run
    /// out, which leaves the state as it was.
    pub fn next_req_id(&mut self) -> (id: Option<u64>)
        ensures
            final(self).path == old(self).path,
            old(self).cur_req_id < u64::MAX ==> id == Some((old(self).cur_req_id + 1) as u64)
                && final(self).cur_req_id == old(self).cur_req_id + 1,
            old(self).cur_req_id == u64::MAX ==> id is None && final(self).cur_req_id == old(
                self,
            ).cur_req_id,
    {
        if self.cur_req_id < u64::MAX {
            self.cur_req_id = self.cur_req_id + 1;
            Some(self.cur_req_id)
        } else {
            None
        }
    }
}

/// The request numbers that the entries `entries` of a state file spell,
/// each a peer's name with a number. Of two entries under one name the
/// later counts.
pub open spec fn ids_of(entries: Seq<(String, u64)>) -> Map<Seq<char>, u64>
    decreases entries.len(),
{
    if entries.len() == 0 {
        Map::empty()
    } else {
        ids_of(entries.drop_last()).insert(entries.last().0@, entries.last().1)
    }
}

/// Entries that list each name once spell, for every listed name, the
/// number listed with it, and nothing for any other name.
proof fn lemma_ids_of_listing(
    entries: Seq<(String, u64)>,
    names: Seq<Seq<char>>,
    values: Seq<u64>,
    upto: int,
)
    requires
        names.no_duplicates(),
        names.len() == entries.len(),
        values.len() == entries.len(),
        0 <= upto <= entries.len(),
        forall|k: int|
            0 <= k < entries.len() ==> (#[trigger] entries[k]).0@ == names[k] && entries[k].1
                == values[k],
    ensures
        forall|name: Seq<char>| #[trigger]
            ids_of(entries.take(upto)).contains_key(name) <==> names.take(upto).contains(name),
        forall|k: int|
            0 <= k < upto ==> ids_of(entries.take(upto))[#[trigger] names[k]] == values[k],
    decreases upto,
{
    let now = entries.take(upto);
    if upto > 0 {
        lemma_ids_of_listing(entries, names, values, upto - 1);
        let before = entries.take(upto - 1);
        assert(now.drop_last() =~= before);
        assert(now.last() == entries[upto - 1]);
        assert(names.take(upto) =~= names.take(upto - 1).push(names[upto - 1]));
        let prior = names.take(upto - 1);
        let listed = names.take(upto);
        let added = names[upto - 1];
        assert(ids_of(now) == ids_of(before).insert(added, values[upto - 1]));
        assert forall|name: Seq<char>| #[trigger]
            ids_of(now).contains_key(name) <==> listed.contains(name) by {
            if prior.contains(name) {
                let k = choose|k: int| 0 <= k < prior.len() && prior[k] == name;
                assert(listed[k] == name);
            }
            if name == added {
                assert(listed[upto - 1] == name);
            }
            if listed.contains(name) {
                let k = choose|k: int| 0 <= k < listed.len() && listed[k] == name;
                if k < upto - 1 {
                    assert(prior[k] == name);
                }
            }
        }
        assert forall|k: int| 0 <= k < upto implies ids_of(now)[#[trigger] names[k]]
            == values[k] by {
            if k < upto - 1 {
                assert(names[k] != added);
            }
        }
    } else {
        assert(names.take(0) =~= Seq::<Seq<char>>::empty());
    }
}

impl ServerState {
    /// The state read from the entries `entries` of the state file at
    /// `path`.
    pub fn from_entries(path: String, entries: &Vec<(String, u64)>) -> (state: ServerState)
        ensures
            state.path@ == path@,
            state.cur_req_ids@ == ids_of(entries@),
    {
        let mut cur_req_ids: NameMap<u64> = NameMap::new();
        let mut i: usize = 0;
        assert(entries@.take(0) =~= Seq::<(String, u64)>::empty());
        while i < entries.len()
            invariant
                i <= entries.len(),
                cur_req_ids@ == ids_of(entries@.take(i as int)),
            decreases entries.len() - i,
        {
            assert(entries@.take(i + 1).drop_last() =~= entries@.take(i as int));
            assert(entries@.take(i + 1).last() == entries@[i as int]);
            cur_req_ids.insert(entries[i].0.clone(), entries[i].1);
            i += 1;
        }
        assert(entries@.take(i as int) =~= entries@);
        ServerState { path, cur_req_ids }
    }

    /// The entries to write to the state file: each peer's name with the
    /// number of the last request accepted from it.
    pub fn entries(&self) -> (entries: Vec<(String, u64)>)
        ensures
            ids_of(entries@) == self.cur_req_ids@,
            entries@.len() == self.cur_req_ids.names().len(),
            forall|i: int|
                0 <= i < entries@.len() ==> (#[trigger] entries@[i]).0@
                    == self.cur_req_ids.names()[i] && self.cur_req_ids@.contains_key(
                    entries@[i].0@,
                ) && entries@[i].1 == self.cur_req_ids@[entries@[i].0@],
    {
        let count: usize = self.cur_req_ids.len();
        let mut entries: Vec<(String, u64)> = Vec::new();
        let mut i: usize = 0;
        while i < count
            invariant
                i <= count,
                count == self.cur_req_ids.names().len(),
                count == self.cur_req_ids.values().len(),
                self.cur_req_ids.in_order(),
                entries@.len() == i,
                forall|k: int|
                    0 <= k < i ==> (#[trigger] entries@[k]).0@ == self.cur_req_ids.names()[k]
                        && self.cur_req_ids@.contains_key(entries@[k].0@) && entries@[k].1
                        == self.cur_req_ids@[entries@[k].0@],
            decreases count - i,
        {
            let name = self.cur_req_ids.name_at(i).clone();
            let id: u64 = *self.cur_req_ids.value_at(i);
            entries.push((name, id));
            i += 1;
        }
        proof {
            let names = self.cur_req_ids.names();
            let values = self.cur_req_ids.values();
            assert forall|k: int| 0 <= k < entries@.len() implies (#[trigger] entries@[k]).0@
                == names[k] && entries@[k].1 == values[k] by {
                assert(self.cur_req_ids@[names[k]] == values[k]);
            }
            lemma_ids_of_listing(entries@, names, values, entries@.len() as int);
            assert(entries@.take(entries@.len() as int) =~= entries@);
            assert(names.take(names.len() as int) =~= names);
            assert(ids_of(entries@) =~= self.cur_req_ids@);
        }
        entries
    }

    /// The state of a server that has accepted nothing yet, to be kept at
    /// `path`.
    pub fn new_at_path(path: String) -> (state: ServerState)
        ensures
            state.cur_req_ids@ == Map::<Seq<char>, u64>::empty(),
            state.path@ == path@,
    {
        ServerState { path, cur_req_ids: NameMap::new() }
    }

    /// Where this state is kept.
    pub fn path(&self) -> (path: &String)
        ensures
            path@ == self.path@,
    {
        &self.path
    }

    /// Keeps this state at `path` from now on.
    pub fn set_path(&mut self, path: String)
        ensures
            final(self).path@ == path@,
            final(self).cur_req_ids == old(self).cur_req_ids,
    {
        self.path = path;
    }

    /// The number of the last request accepted from `name`, zero if there
    /// was none.
    pub fn current(&self, name: &String) -> (id: u64)
        ensures
            id == current_id(self.cur_req_ids@, name@),
    {
        match self.cur_req_ids.get(name) {
            Some(id) => *id,
            None => 0,
        }
    }

    /// Looks at a request numbered `req_id` from `name`. A number above
    /// the last one accepted from that peer is accepted and becomes the
    /// last; any other is a replay and changes nothing.
    pub fn accept(&mut self, name: String, req_id: u64) -> (accepted: bool)
        ensures
            accepted == !is_replay(old(self).cur_req_ids@, name@, req_id),
            final(self).cur_req_ids@ == ids_after(old(self).cur_req_ids@, name@, req_id),
            final(self).path == old(self).path,
            current_id(final(self).cur_req_ids@, name@) >= req_id,
            current_id(final(self).cur_req_ids@, name@) == if req_id >= current_id(
                old(self).cur_req_ids@,
                name@,
            ) {
                req_id
            } else {
                current_id(old(self).cur_req_ids@, name@)
            },
    {
        let cur: u64 = self.current(&name);
        if cur >= req_id {
            false
        } else {
            self.cur_req_ids.insert(name, req_id);
            true
        }
    }
}

/// A request as the replay check sees it: who sent it, and its number.
pub struct Arrival {
    /// The peer's name.
    pub name: Seq<char>,
    /// The request's number.
    pub req_id: u64,
}

/// The numbers kept once the requests `arrivals` have been looked at in
/// turn, starting from `ids`.
pub open spec fn ids_after_all(ids: Map<Seq<char>, u64>, arrivals: Seq<Arrival>) -> Map<
    Seq<char>,
    u64,
>
    decreases arrivals.len(),
{
    if arrivals.len() == 0 {
        ids
    } else {
        ids_after(
            ids_after_all(ids, arrivals.drop_last()),
            arrivals.last().name,
            arrivals.last().req_id,
        )
    }
}

/// Whether the request at `i` of `arrivals` is accepted when the requests
/// are looked at in turn, starting from `ids`.
pub open spec fn accepted_at(ids: Map<Seq<char>, u64>, arrivals: Seq<Arrival>, i: int) -> bool {
    !is_replay(ids_after_all(ids, arrivals.take(i)), arrivals[i].name, arrivals[i].req_id)
}

/// Looking at a request never lowers the number kept for any peer, and
/// an accepted request leaves its own number for its peer.
pub proof fn lemma_ids_never_fall(
    ids: Map<Seq<char>, u64>,
    name: Seq<char>,
    req_id: u64,
    peer: Seq<char>,
)
    ensures
        current_id(ids_after(ids, name, req_id), peer) >= current_id(ids, peer),
        current_id(ids_after(ids, name, req_id), name) >= req_id,
        !is_replay(ids, name, req_id) ==> current_id(ids_after(ids, name, req_id), name) == req_id,
{
}

/// Whatever requests arrive between the places `i` and `j`, the number
/// kept for a peer at `j` is no lower than it was at `i`.
proof fn lemma_ids_grow(
    ids: Map<Seq<char>, u64>,
    arrivals: Seq<Arrival>,
    i: int,
    j: int,
    peer: Seq<char>,
)
    requires
        0 <= i <= j <= arrivals.len(),
    ensures
        current_id(ids_after_all(ids, arrivals.take(i)), peer) <= current_id(
            ids_after_all(ids, arrivals.take(j)),
            peer,
        ),
    decreases j - i,
{
    if i < j {
        lemma_ids_grow(ids, arrivals, i, j - 1, peer);
        let upto = arrivals.take(j);
        assert(upto.drop_last() =~= arrivals.take(j - 1));
        assert(upto.last() == arrivals[j - 1]);
        lemma_ids_never_fall(
            ids_after_all(ids, arrivals.take(j - 1)),
            arrivals[j - 1].name,
            arrivals[j - 1].req_id,
            peer,
        );
    }
}

/// Of any two requests that the server accepts from one peer, the later
/// one carries the higher number, whatever other requests arrive before,
/// between and after them.
pub proof fn lemma_accepted_ids_increase(
    ids: Map<Seq<char>, u64>,
    arrivals: Seq<Arrival>,
    i: int,
    j: int,
)
    requires
        0 <= i < j < arrivals.len(),
        arrivals[i].name == arrivals[j].name,
        accepted_at(ids, arrivals, i),
        accepted_at(ids, arrivals, j),
    ensures
        arrivals[i].req_id < arrivals[j].req_id,
{
    let upto = arrivals.take(i + 1);
    assert(upto.drop_last() =~= arrivals.take(i));
    assert(upto.last() == arrivals[i]);
    lemma_ids_never_fall(
        ids_after_all(ids, arrivals.take(i)),
        arrivals[i].name,
        arrivals[i].req_id,
        arrivals[i].name,
    );
    lemma_ids_grow(ids, arrivals, i + 1, j, arrivals[i].name);
}

} // verus!
