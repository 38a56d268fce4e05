//! The matchmaker: a waiting pool pairing anonymous usernames into
//! two-party rooms.
//!
//! Each username runs through the states absent, waiting (`room` unset)
//! and matched (`room` set); `release` puts a matched or waiting user
//! back to unset. A pairing request scans the pool in arrival order for
//! the first waiting entry under a different username (FIFO pairing, and
//! a user never matches themself); if one is found, both entries get the
//! same freshly drawn room identifier in one step, so no half-assigned
//! room is ever observable. The whole scan-and-mutate runs inside one
//! `&mut` call, so callers serialise concurrent requests by holding the
//! pool exclusively, and two simultaneous requests can never both match
//! against the same waiting entry.

use vstd::prelude::*;

use crate::room::{generate_room_id, is_room_id};

verus! {

/// Spec-level view of one pool entry.
pub ghost struct UserModel {
    pub name: Seq<char>,
    pub room: Option<Seq<char>>,
}

/// One pool entry: a username and its room assignment, unset while the
/// user is waiting.
pub struct WaitingUser {
    pub username: String,
    pub room: Option<String>,
}

/// The view of an optional room assignment.
pub open spec fn opt_view(o: Option<String>) -> Option<Seq<char>> {
    match o {
        Option::Some(s) => Option::Some(s@),
        Option::None => Option::None,
    }
}

impl View for WaitingUser {
    type V = UserModel;

    open spec fn view(&self) -> UserModel {
        UserModel { name: self.username@, room: opt_view(self.room) }
    }
}

/// Entry `j` can be matched against a request from `name`: it is
/// waiting, and it belongs to someone else.
pub open spec fn is_partner(pool: Seq<UserModel>, name: Seq<char>, j: int) -> bool {
    &&& 0 <= j < pool.len()
    &&& pool[j].room is None
    &&& pool[j].name != name
}

/// Some entry can be matched against a request from `name`.
pub open spec fn has_partner(pool: Seq<UserModel>, name: Seq<char>) -> bool {
    exists|j: int| is_partner(pool, name, j)
}

/// `j` is the first matchable entry in arrival order.
pub open spec fn first_partner_is(pool: Seq<UserModel>, name: Seq<char>, j: int) -> bool {
    &&& is_partner(pool, name, j)
    &&& forall|k: int| 0 <= k < j ==> !is_partner(pool, name, k)
}

/// `name` already has an entry in the pool.
pub open spec fn contains_name(pool: Seq<UserModel>, name: Seq<char>) -> bool {
    exists|i: int| 0 <= i < pool.len() && pool[i].name == name
}

/// The index of `name`'s entry (meaningful only when it is present and
/// usernames are distinct).
pub open spec fn name_index(pool: Seq<UserModel>, name: Seq<char>) -> int {
    choose|i: int| 0 <= i < pool.len() && pool[i].name == name
}

/// At most one entry per username: the pool's invariant.
pub open spec fn distinct_names(pool: Seq<UserModel>) -> bool {
    forall|i: int, j: int|
        0 <= i < j < pool.len() ==> #[trigger] pool[i].name != #[trigger] pool[j].name
}

/// The pool with `name`'s room assignment set to `room`: updated in
/// place when the name is present, appended otherwise.
pub open spec fn upsert(
    pool: Seq<UserModel>,
    name: Seq<char>,
    room: Option<Seq<char>>,
) -> Seq<UserModel> {
    if contains_name(pool, name) {
        pool.update(name_index(pool, name), UserModel { name, room })
    } else {
        pool.push(UserModel { name, room })
    }
}

/// The pool after a successful match of `name` against partner `j`:
/// both the partner's entry and the caller's get the same room `id`.
pub open spec fn matched_pool(
    pre: Seq<UserModel>,
    name: Seq<char>,
    id: Seq<char>,
    j: int,
) -> Seq<UserModel> {
    upsert(
        pre.update(j, UserModel { name: pre[j].name, room: Option::Some(id) }),
        name,
        Option::Some(id),
    )
}

/// A pairing request from `name` that found a partner turned `pre` into
/// `post`, assigning room `id` to both parties; the partner is the first
/// waiting entry under another name, in arrival order.
pub open spec fn pairing_matched_post(
    pre: Seq<UserModel>,
    post: Seq<UserModel>,
    name: Seq<char>,
    id: Seq<char>,
) -> bool {
    exists|j: int| #[trigger]
        first_partner_is(pre, name, j) && post == matched_pool(pre, name, id, j)
}

/// Entry `i` exists and is still waiting for a partner.
pub open spec fn waiting_at(pool: Seq<UserModel>, i: int) -> bool {
    0 <= i < pool.len() && pool[i].room is None
}

/// At most one entry of the pool is waiting for a partner.
pub open spec fn at_most_one_waiting(pool: Seq<UserModel>) -> bool {
    forall|i: int, j: int| #[trigger]
        waiting_at(pool, i) && #[trigger] waiting_at(pool, j) ==> i == j
}

/// A user is never matched to themself: the partner slot filled by a
/// successful pairing belongs to a different username, was waiting
/// before the request, and holds the new room afterwards.
pub proof fn lemma_no_self_match(
    pre: Seq<UserModel>,
    post: Seq<UserModel>,
    name: Seq<char>,
    id: Seq<char>,
)
    requires
        pairing_matched_post(pre, post, name, id),
    ensures
        exists|j: int|
            0 <= j < pre.len() && #[trigger] pre[j].name != name && pre[j].room is None
                && post[j].name == pre[j].name && post[j].room == Option::Some(id),
{
    let j = choose|j: int| #[trigger]
        first_partner_is(pre, name, j) && post == matched_pool(pre, name, id, j);
    let mid = pre.update(j, UserModel { name: pre[j].name, room: Option::Some(id) });
    if contains_name(mid, name) {
        let i0 = name_index(mid, name);
        assert(0 <= i0 < mid.len() && mid[i0].name == name);
        assert(i0 != j);
        assert(post[j] == mid[j]);
    } else {
        assert(post[j] == mid[j]);
    }
    assert(0 <= j < pre.len() && pre[j].name != name && pre[j].room is None && post[j].name
        == pre[j].name && post[j].room == Option::Some(id));
}

/// Never a half-assigned room: after a successful pairing the caller's
/// own entry exists and carries the very same room identifier as the
/// partner's.
pub proof fn lemma_both_hold_room(
    pre: Seq<UserModel>,
    post: Seq<UserModel>,
    name: Seq<char>,
    id: Seq<char>,
)
    requires
        pairing_matched_post(pre, post, name, id),
    ensures
        exists|i: int|
            0 <= i < post.len() && #[trigger] post[i].name == name && post[i].room
                == Option::Some(id),
{
    let j = choose|j: int| #[trigger]
        first_partner_is(pre, name, j) && post == matched_pool(pre, name, id, j);
    let mid = pre.update(j, UserModel { name: pre[j].name, room: Option::Some(id) });
    if contains_name(mid, name) {
        let i0 = name_index(mid, name);
        assert(0 <= i0 < mid.len() && mid[i0].name == name);
        assert(post[i0].name == name && post[i0].room == Option::Some(id));
    } else {
        assert(post[post.len() - 1].name == name && post[post.len() - 1].room
            == Option::Some(id));
    }
}

/// The matchmaking alternation law: starting from a pool with at most
/// one waiting entry, a request from a fresh username leaves no waiting
/// entry when it matched (the single waiter and the caller became a pair
/// holding the same room) and exactly one — the caller — when it had to
/// wait. Iterating this from an empty pool, requests from distinct fresh
/// usernames alternate between "one waiter" and "none", so any number N
/// of them produces exactly N/2 rounded-down matched pairs, at most one
/// leftover waiter, and never a user matched twice.
pub proof fn lemma_single_waiter_alternation(
    pre: Seq<UserModel>,
    post: Seq<UserModel>,
    name: Seq<char>,
    id: Seq<char>,
)
    requires
        at_most_one_waiting(pre),
        !contains_name(pre, name),
        has_partner(pre, name) ==> pairing_matched_post(pre, post, name, id),
        !has_partner(pre, name) ==> post == upsert(pre, name, Option::<Seq<char>>::None),
    ensures
        at_most_one_waiting(post),
        post.len() == pre.len() + 1,
        forall|k: int| 0 <= k < pre.len() ==> (#[trigger] post[k].name) == pre[k].name,
        post[pre.len() as int].name == name,
        has_partner(pre, name) ==> forall|k: int|
            0 <= k < post.len() ==> (#[trigger] post[k].room) is Some,
        !has_partner(pre, name) ==> waiting_at(post, post.len() - 1) && post[post.len()
            - 1].name == name && forall|k: int|
            0 <= k < post.len() - 1 ==> (#[trigger] post[k].room) is Some,
{
    if has_partner(pre, name) {
        let j = choose|j: int| #[trigger]
            first_partner_is(pre, name, j) && post == matched_pool(pre, name, id, j);
        let mid = pre.update(j, UserModel { name: pre[j].name, room: Option::Some(id) });
        assert(!contains_name(mid, name)) by {
            assert(forall|i: int|
                0 <= i < mid.len() ==> #[trigger] mid[i].name == pre[i].name || mid[i].name
                    == pre[j].name);
        }
        assert(post == mid.push(UserModel { name, room: Option::Some(id) }));
        assert forall|k: int| 0 <= k < post.len() implies (#[trigger] post[k].room) is Some by {
            if k < pre.len() && k != j {
                if waiting_at(pre, k) {
                    assert(waiting_at(pre, j));
                }
                assert(post[k] == pre[k]);
            }
        }
    } else {
        assert(post == pre.push(UserModel { name, room: Option::<Seq<char>>::None }));
        assert forall|k: int| 0 <= k < pre.len() implies !waiting_at(pre, k) by {
            if waiting_at(pre, k) {
                if pre[k].name == name {
                    assert(contains_name(pre, name));
                } else {
                    assert(is_partner(pre, name, k));
                    assert(has_partner(pre, name));
                }
            }
        }
        assert forall|k: int| 0 <= k < post.len() - 1 implies (
        #[trigger] post[k].room) is Some by {
            assert(!waiting_at(pre, k));
            assert(post[k] == pre[k]);
        }
        assert(waiting_at(post, post.len() - 1));
        assert(forall|i: int, j: int| #[trigger]
            waiting_at(post, i) && #[trigger] waiting_at(post, j) ==> i == j);
    }
}

/// What one pairing request does to the pool, as `request_pairing`
/// guarantees it: a match against the first waiting other user when one
/// exists, otherwise the caller is recorded as waiting.
pub open spec fn step_post(
    pre: Seq<UserModel>,
    post: Seq<UserModel>,
    name: Seq<char>,
    id: Seq<char>,
) -> bool {
    if has_partner(pre, name) {
        pairing_matched_post(pre, post, name, id)
    } else {
        post == upsert(pre, name, Option::<Seq<char>>::None)
    }
}

/// `pools` is the trace of a run of pairing requests: `pools[k]` is the
/// pool before the request from `names[k]` with drawn identifier
/// `ids[k]`, and `pools[k + 1]` the pool after it.
pub open spec fn pairing_run(
    pools: Seq<Seq<UserModel>>,
    names: Seq<Seq<char>>,
    ids: Seq<Seq<char>>,
) -> bool {
    &&& pools.len() == names.len() + 1
    &&& ids.len() == names.len()
    &&& forall|k: int|
        0 <= k < names.len() ==> #[trigger] step_post(pools[k], pools[k + 1], names[k], ids[k])
}

/// The full matchmaking count law: any run of N pairing requests from N
/// distinct usernames, starting from an empty pool, matches the requests
/// pairwise in arrival order — request k finds a partner exactly when k
/// is odd, so exactly N/2 rounded down pairs form — and ends with every
/// user matched except, for odd N, the single last arrival still
/// waiting. No user is ever matched twice and no request leaves a
/// half-assigned room, whatever identifiers were drawn. Serialising
/// concurrent requests is the caller's side of the bargain: each request
/// holds the pool exclusively for its whole scan-and-mutate step.
pub proof fn lemma_pairing_run_counts(
    pools: Seq<Seq<UserModel>>,
    names: Seq<Seq<char>>,
    ids: Seq<Seq<char>>,
)
    requires
        pairing_run(pools, names, ids),
        pools[0] =~= Seq::<UserModel>::empty(),
        forall|a: int, b: int| 0 <= a < b < names.len() ==> names[a] != names[b],
    ensures
        pools[names.len() as int].len() == names.len(),
        forall|i: int|
            0 <= i < names.len() ==> (#[trigger] pools[names.len() as int][i].name) == names[i],
        at_most_one_waiting(pools[names.len() as int]),
        forall|k: int| 0 <= k < names.len() ==> (has_partner(pools[k], names[k]) <==> k % 2 == 1),
        forall|i: int|
            0 <= i < names.len() ==> (waiting_at(pools[names.len() as int], i) <==> (names.len()
                % 2 == 1 && i == names.len() - 1)),
    decreases names.len(),
{
    if names.len() == 0 {
        assert(at_most_one_waiting(pools[0]));
    } else {
        let n = names.len() - 1;
        let pre_pools = pools.subrange(0, n + 1);
        let sub_names = names.subrange(0, n as int);
        let sub_ids = ids.subrange(0, n as int);
        assert(pairing_run(pre_pools, sub_names, sub_ids)) by {
            assert forall|k: int| 0 <= k < sub_names.len() implies #[trigger] step_post(
                pre_pools[k],
                pre_pools[k + 1],
                sub_names[k],
                sub_ids[k],
            ) by {
                assert(step_post(pools[k], pools[k + 1], names[k], ids[k]));
            }
        }
        lemma_pairing_run_counts(pre_pools, sub_names, sub_ids);
        assert forall|k: int|
            0 <= k < n implies (has_partner(pools[k], names[k]) <==> k % 2 == 1) by {
            assert(pre_pools[k] == pools[k]);
            assert(sub_names[k] == names[k]);
            assert(has_partner(pre_pools[k], sub_names[k]) <==> k % 2 == 1);
        }
        let pre = pools[n as int];
        let post = pools[n + 1];
        let nm = names[n as int];
        assert(pre == pools.subrange(0, n + 1)[n as int]);
        assert(pre.len() == n);
        assert(!contains_name(pre, nm)) by {
            assert forall|i: int| 0 <= i < pre.len() implies (#[trigger] pre[i].name) != nm by {
                assert(pre[i].name == names[i]);
            }
        }
        // Request n finds a partner exactly when a waiter is left over,
        // that is, exactly when n is odd.
        if n % 2 == 1 {
            assert(waiting_at(pre, n - 1));
            assert(pre[n - 1].name == names[n - 1]);
            assert(is_partner(pre, nm, n - 1));
            assert(has_partner(pre, nm));
        } else {
            assert forall|j: int| !is_partner(pre, nm, j) by {
                if 0 <= j < pre.len() && pre[j].room is None {
                    assert(waiting_at(pre, j));
                }
            }
            assert(!has_partner(pre, nm));
        }
        assert(step_post(pre, post, nm, ids[n as int]));
        lemma_single_waiter_alternation(pre, post, nm, ids[n as int]);
        assert forall|i: int|
            0 <= i < names.len() implies (#[trigger] post[i].name) == names[i] by {
            if i < n {
                assert(post[i].name == pre[i].name);
            }
        }
        assert forall|i: int|
            0 <= i < names.len() implies (waiting_at(post, i) <==> (names.len() % 2 == 1 && i
            == names.len() - 1)) by {
            if n % 2 == 1 {
                assert(!(post[i].room is None));
            }
        }
    }
}

/// What `request_pairing` returned: told to wait, or joined a room.
pub enum PairingOutcome {
    Waiting,
    Matched(String),
}

/// The registry of usernames not yet paired (or already paired) into a
/// room, in arrival order.
pub struct WaitingPool {
    users: Vec<WaitingUser>,
}

impl View for WaitingPool {
    type V = Seq<UserModel>;

    closed spec fn view(&self) -> Seq<UserModel> {
        self.users@.map_values(|u: WaitingUser| u@)
    }
}

impl WaitingPool {
    /// The pool's invariant: at most one entry per username.
    pub open spec fn wf(self) -> bool {
        distinct_names(self@)
    }

    /// An empty pool.
    pub fn new() -> (p: WaitingPool)
        ensures
            p.wf(),
            p@ =~= Seq::<UserModel>::empty(),
    {
        let p = WaitingPool { users: Vec::new() };
        proof {
            assert(p@ =~= Seq::<UserModel>::empty());
        }
        p
    }

    /// Number of entries in the pool.
    pub fn len(&self) -> (n: usize)
        ensures
            n == self@.len(),
    {
        self.users.len()
    }

    /// The index of `username`'s entry, if present.
    fn find_name(&self, username: &String) -> (r: Option<usize>)
        ensures
            match r {
                Option::Some(i) => 0 <= i < self@.len() && self@[i as int].name == username@,
                Option::None => !contains_name(self@, username@),
            },
    {
        let mut i: usize = 0;
        while i < self.users.len()
            invariant
                i <= self.users.len(),
                self@.len() == self.users@.len(),
                forall|k: int| 0 <= k < i ==> self@[k].name != username@,
            decreases self.users.len() - i,
        {
            if self.users[i].username == *username {
                return Some(i);
            }
            i = i + 1;
        }
        None
    }

    /// The first waiting entry under a name other than `username`, in
    /// arrival order, if any.
    fn find_partner(&self, username: &String) -> (r: Option<usize>)
        ensures
            match r {
                Option::Some(j) => first_partner_is(self@, username@, j as int),
                Option::None => !has_partner(self@, username@),
            },
    {
        let mut j: usize = 0;
        while j < self.users.len()
            invariant
                j <= self.users.len(),
                self@.len() == self.users@.len(),
                forall|k: int| 0 <= k < j ==> !is_partner(self@, username@, k),
            decreases self.users.len() - j,
        {
            if self.users[j].room.is_none() && !(self.users[j].username == *username) {
                return Some(j);
            }
            j = j + 1;
        }
        None
    }

    /// The room currently assigned to `username`: `None` when the user
    /// is absent or still waiting.
    pub fn room_of(&self, username: &String) -> (r: Option<String>)
        ensures
            !contains_name(self@, username@) ==> r is None,
            contains_name(self@, username@) ==> exists|i: int|
                0 <= i < self@.len() && #[trigger] self@[i].name == username@ && self@[i].room
                    == opt_view(r),
    {
        match self.find_name(username) {
            Some(i) => match &self.users[i].room {
                Some(room) => Some(room.clone()),
                None => None,
            },
            None => None,
        }
    }

    /// Pairs `username` against the first waiting entry under another
    /// name, assigning `room_id` to both; inserts (or keeps) the caller
    /// as waiting when no partner exists. The deterministic core of
    /// `request_pairing`, taking the drawn identifier as an argument.
    pub fn request_pairing_with(&mut self, username: String, room_id: String) -> (r:
        PairingOutcome)
        requires
            old(self).wf(),
        ensures
            final(self).wf(),
            has_partner(old(self)@, username@) ==> pairing_matched_post(
                old(self)@,
                final(self)@,
                username@,
                room_id@,
            ) && r == PairingOutcome::Matched(room_id),
            !has_partner(old(self)@, username@) ==> final(self)@ == upsert(
                old(self)@,
                username@,
                Option::<Seq<char>>::None,
            ) && r == PairingOutcome::Waiting,
    {
        let ghost pre = self@;
        match self.find_partner(&username) {
            Some(j) => {
                let ghost jj = j as int;
                self.users[j].room = Some(room_id.clone());
                let ghost mid = self@;
                proof {
                    assert(mid =~= pre.update(
                        jj,
                        UserModel { name: pre[jj].name, room: Option::Some(room_id@) },
                    ));
                    assert(distinct_names(mid));
                }
                match self.find_name(&username) {
                    Some(i) => {
                        self.users[i].room = Some(room_id.clone());
                        proof {
                            assert(contains_name(mid, username@));
                            let i0 = name_index(mid, username@);
                            assert(0 <= i0 < mid.len() && mid[i0].name == username@);
                            assert(i0 == i as int);
                            assert(self@ =~= upsert(mid, username@, Option::Some(room_id@)));
                            assert(first_partner_is(pre, username@, jj) && self@ == matched_pool(
                                pre,
                                username@,
                                room_id@,
                                jj,
                            ));
                            assert(distinct_names(self@));
                        }
                    },
                    None => {
                        self.users.push(WaitingUser { username, room: Some(room_id.clone()) });
                        proof {
                            assert(self@ =~= mid.push(
                                UserModel { name: username@, room: Option::Some(room_id@) },
                            ));
                            assert(self@ =~= upsert(mid, username@, Option::Some(room_id@)));
                            assert(first_partner_is(pre, username@, jj) && self@ == matched_pool(
                                pre,
                                username@,
                                room_id@,
                                jj,
                            ));
                            assert(distinct_names(self@));
                        }
                    },
                }
                PairingOutcome::Matched(room_id)
            },
            None => {
                match self.find_name(&username) {
                    Some(i) => {
                        self.users[i].room = None;
                        proof {
                            assert(contains_name(pre, username@));
                            let i0 = name_index(pre, username@);
                            assert(0 <= i0 < pre.len() && pre[i0].name == username@);
                            assert(i0 == i as int);
                            assert(self@ =~= upsert(pre, username@, Option::<Seq<char>>::None));
                            assert(distinct_names(self@));
                        }
                    },
                    None => {
                        self.users.push(WaitingUser { username, room: None });
                        proof {
                            assert(self@ =~= pre.push(
                                UserModel { name: username@, room: Option::<Seq<char>>::None },
                            ));
                            assert(self@ =~= upsert(pre, username@, Option::<Seq<char>>::None));
                            assert(distinct_names(self@));
                        }
                    },
                }
                PairingOutcome::Waiting
            },
        }
    }

    /// One pairing request: draws a fresh six-digit room identifier and
    /// runs the scan-and-mutate step with it.
    pub fn request_pairing(&mut self, username: String) -> (r: PairingOutcome)
        requires
            old(self).wf(),
        ensures
            final(self).wf(),
            has_partner(old(self)@, username@) ==> (r matches PairingOutcome::Matched(id)
                && is_room_id(id@) && pairing_matched_post(old(self)@, final(self)@, username@, id@)),
            !has_partner(old(self)@, username@) ==> final(self)@ == upsert(
                old(self)@,
                username@,
                Option::<Seq<char>>::None,
            ) && r == PairingOutcome::Waiting,
    {
        let id = generate_room_id();
        self.request_pairing_with(username, id)
    }

    /// Clears `username`'s room assignment back to unset, making the
    /// entry reusable for a later pairing; absent usernames are a no-op,
    /// not an error.
    pub fn release(&mut self, username: &String)
        requires
            old(self).wf(),
        ensures
            final(self).wf(),
            contains_name(old(self)@, username@) ==> final(self)@ == upsert(
                old(self)@,
                username@,
                Option::<Seq<char>>::None,
            ),
            !contains_name(old(self)@, username@) ==> final(self)@ == old(self)@,
    {
        let ghost pre = self@;
        match self.find_name(username) {
            Some(i) => {
                self.users[i].room = None;
                proof {
                    assert(contains_name(pre, username@));
                    let i0 = name_index(pre, username@);
                    assert(0 <= i0 < pre.len() && pre[i0].name == username@);
                    assert(i0 == i as int);
                    assert(self@ =~= upsert(pre, username@, Option::<Seq<char>>::None));
                    assert(distinct_names(self@));
                }
            },
            None => {
                proof {
                    assert(self@ =~= pre);
                }
            },
        }
    }
}

} // verus!
