//! Room membership and per-connection metadata.
//!
//! A room that loses its last member is deleted, so a room exists exactly
//! when it has at least one member. Every member of a room has metadata that
//! names that room, and every connection whose metadata names a room is a
//! member of it; hence a connection is a member of at most one room.
use vstd::prelude::*;
use crate::message::WsError;
use crate::tables::{
    MetaTable, RoomTable, meta_get, meta_insert, meta_new, meta_remove, meta_table, room_table, rooms_get, rooms_insert,
    rooms_new, rooms_remove,
};

verus! {

/// What the server knows of one connection.
#[derive(Debug, Clone, PartialEq, Eq, Default)]
pub struct WsMetadata {
    pub user_id: String,
    pub room_id: Option<String>,
    /// Unix seconds at which the connection's token was last validated.
    pub last_verified_at: i64,
}

/// Mathematical view of [`WsMetadata`].
pub struct MetaView {
    pub user: Seq<char>,
    pub room: Option<Seq<char>>,
    pub verified_at: i64,
}

pub open spec fn opt_view(o: Option<String>) -> Option<Seq<char>> {
    match o {
        Some(s) => Some(s@),
        None => None,
    }
}

impl View for WsMetadata {
    type V = MetaView;

    open spec fn view(&self) -> MetaView {
        MetaView { user: self.user_id@, room: opt_view(self.room_id), verified_at: self.last_verified_at }
    }
}

/// The storage key of a room's member set in a shared key/value store.
pub fn get_room_key(room_id: &String) -> (r: String)
    ensures
        r@ == "room:"@ + room_id@,
{
    let mut key = String::from_str("room:");
    key.append(room_id.as_str());
    key
}

/// Whether `c` is listed among the members of room `r` in table `t`.
pub open spec fn listed(t: Map<Seq<char>, Seq<u128>>, r: Seq<char>, c: u128) -> bool {
    t.contains_key(r) && t[r].contains(c)
}

/// Every listed room has at least one member, and none twice.
pub open spec fn rooms_wf(t: Map<Seq<char>, Seq<u128>>) -> bool {
    forall|r: Seq<char>| #[trigger] t.contains_key(r) ==> t[r].len() > 0 && t[r].no_duplicates()
}

proof fn lemma_remove_unique(s: Seq<u128>, i: int)
    requires
        s.no_duplicates(),
        0 <= i < s.len(),
    ensures
        s.remove(i).no_duplicates(),
        forall|x: u128| s.remove(i).contains(x) <==> (s.contains(x) && x != s[i]),
{
    let t = s.remove(i);
    assert forall|x: u128| t.contains(x) implies (s.contains(x) && x != s[i]) by {
        let j = choose|j: int| 0 <= j < t.len() && t[j] == x;
        if j < i {
            assert(s[j] == x);
        } else {
            assert(s[j + 1] == x);
        }
    }
    assert forall|x: u128| s.contains(x) && x != s[i] implies t.contains(x) by {
        let k = choose|k: int| 0 <= k < s.len() && s[k] == x;
        if k < i {
            assert(t[k] == x);
        } else {
            assert(t[k - 1] == x);
        }
    }
}

/// Index of `c` in `v`, if it occurs.
fn position(v: &Vec<u128>, c: u128) -> (r: Option<usize>)
    ensures
        r matches Some(i) ==> i < v@.len() && v@[i as int] == c,
        r is None ==> !v@.contains(c),
{
    let mut i: usize = 0;
    while i < v.len()
        invariant
            i <= v@.len(),
            forall|j: int| 0 <= j < i ==> v@[j] != c,
        decreases v@.len() - i,
    {
        if v[i] == c {
            return Some(i);
        }
        i = i + 1;
    }
    None
}

/// Takes `c` out of room `r`, deleting the room when it becomes empty.
fn unlist(rooms: &mut RoomTable, r: &String, c: u128)
    requires
        rooms_wf(room_table(*old(rooms))),
    ensures
        rooms_wf(room_table(*final(rooms))),
        forall|r2: Seq<char>, x: u128|
            #[trigger] listed(room_table(*final(rooms)), r2, x) <==> (listed(room_table(*old(rooms)), r2, x)
                && !(r2 == r@ && x == c)),
{
    let ghost t0 = room_table(*rooms);
    match rooms_get(rooms, r) {
        None => {},
        Some(v) => {
            let mut v = v;
            match position(&v, c) {
                None => {},
                Some(i) => {
                    proof {
                        lemma_remove_unique(v@, i as int);
                    }
                    v.remove(i);
                    if v.len() == 0 {
                        rooms_remove(rooms, r);
                        assert forall|r2: Seq<char>, x: u128|
                            #[trigger] listed(room_table(*rooms), r2, x) <==> (listed(t0, r2, x) && !(r2 == r@
                                && x == c)) by {
                            if r2 == r@ {
                                assert(!v@.contains(x));
                            }
                        }
                    } else {
                        rooms_insert(rooms, r.clone(), v);
                    }
                },
            }
        },
    }
}

/// Adds `c` to room `r`, creating the room when it does not exist.
fn enlist(rooms: &mut RoomTable, r: &String, c: u128)
    requires
        rooms_wf(room_table(*old(rooms))),
    ensures
        rooms_wf(room_table(*final(rooms))),
        forall|r2: Seq<char>, x: u128|
            #[trigger] listed(room_table(*final(rooms)), r2, x) <==> (listed(room_table(*old(rooms)), r2, x)
                || (r2 == r@ && x == c)),
{
    let ghost t0 = room_table(*rooms);
    match rooms_get(rooms, r) {
        None => {
            let mut v: Vec<u128> = Vec::new();
            v.push(c);
            assert(v@.len() == 1 && v@[0] == c);
            assert(v@.contains(c));
            rooms_insert(rooms, r.clone(), v);
            assert forall|r2: Seq<char>, x: u128|
                #[trigger] listed(room_table(*rooms), r2, x) <==> (listed(t0, r2, x) || (r2 == r@ && x == c)) by {
                if r2 == r@ && v@.contains(x) {
                    let k = choose|k: int| 0 <= k < v@.len() && v@[k] == x;
                    assert(k == 0);
                }
            }
        },
        Some(v) => {
            if position(&v, c).is_none() {
                let mut v = v;
                let ghost v0 = v@;
                v.push(c);
                assert(v@ == v0.push(c));
                assert(v@[v0.len() as int] == c);
                assert forall|x: u128| #[trigger] v@.contains(x) <==> (v0.contains(x) || x == c) by {
                    if v@.contains(x) && x != c {
                        let k = choose|k: int| 0 <= k < v@.len() && v@[k] == x;
                        assert(v0[k] == x);
                    }
                    if v0.contains(x) {
                        let k = choose|k: int| 0 <= k < v0.len() && v0[k] == x;
                        assert(v@[k] == x);
                    }
                }
                assert(v@.no_duplicates()) by {
                    assert forall|i: int, j: int| 0 <= i < j < v@.len() implies v@[i] != v@[j] by {
                        if j == v0.len() {
                            assert(v0[i] == v@[i]);
                            assert(v0.contains(v0[i]));
                        }
                    }
                }
                rooms_insert(rooms, r.clone(), v);
            }
        },
    }
}

/// Room membership and connection metadata of one server process.
pub struct StateStore {
    rooms: RoomTable,
    meta: MetaTable,
}

impl StateStore {
    /// Room id to the ids of its members.
    pub closed spec fn room_map(&self) -> Map<Seq<char>, Seq<u128>> {
        room_table(self.rooms)
    }

    /// Connection id to what is known of the connection.
    pub closed spec fn meta_map(&self) -> Map<u128, MetaView> {
        meta_table(self.meta)
    }

    /// The room exists, which under `wf` means it has a member.
    pub open spec fn has_room(&self, r: Seq<char>) -> bool {
        self.room_map().contains_key(r)
    }

    pub open spec fn is_member(&self, r: Seq<char>, c: u128) -> bool {
        listed(self.room_map(), r, c)
    }

    pub open spec fn has_conn(&self, c: u128) -> bool {
        self.meta_map().contains_key(c)
    }

    /// The set of members of room `r` (empty when the room does not exist).
    pub open spec fn members_of(&self, r: Seq<char>) -> Set<u128> {
        Set::new(|c: u128| self.is_member(r, c))
    }

    /// Membership and metadata agree: see the module documentation.
    pub open spec fn wf(&self) -> bool {
        &&& rooms_wf(self.room_map())
        &&& forall|r: Seq<char>, c: u128| #[trigger]
            self.is_member(r, c) ==> self.has_conn(c) && self.meta_map()[c].room == Some(r)
        &&& forall|c: u128| #[trigger]
            self.has_conn(c) && self.meta_map()[c].room is Some ==> self.is_member(
                self.meta_map()[c].room->0,
                c,
            )
    }

    /// An empty store.
    pub fn new() -> (s: Self)
        ensures
            s.wf(),
            s.room_map().dom().is_empty(),
            s.meta_map().dom().is_empty(),
    {
        StateStore { rooms: rooms_new(), meta: meta_new() }
    }

    /// Whether room `room` exists, i.e. has at least one member.
    pub fn verify(&self, room: &String) -> (r: bool)
        requires
            self.wf(),
        ensures
            r == self.has_room(room@),
            r <==> exists|c: u128| self.is_member(room@, c),
    {
        let found = rooms_get(&self.rooms, room);
        proof {
            if self.has_room(room@) {
                let c = self.room_map()[room@][0];
                assert(self.room_map()[room@].contains(c));
                assert(self.is_member(room@, c));
            }
        }
        found.is_some()
    }

    /// A snapshot of the members of `room`, each listed once.
    pub fn members(&self, room: &String) -> (r: Vec<u128>)
        requires
            self.wf(),
        ensures
            r@.no_duplicates(),
            forall|c: u128| r@.contains(c) <==> self.is_member(room@, c),
            self.has_room(room@) ==> r@ == self.room_map()[room@],
    {
        match rooms_get(&self.rooms, room) {
            Some(v) => v,
            None => Vec::new(),
        }
    }

    /// The metadata of connection `c`, if it is known.
    pub fn get_metadata(&self, c: u128) -> (r: Option<WsMetadata>)
        ensures
            r is Some <==> self.has_conn(c),
            r matches Some(m) ==> m@ == self.meta_map()[c],
    {
        meta_get(&self.meta, c)
    }

    /// Records a newly accepted connection of user `user_id`, in no room.
    /// A connection already known under `c` is removed first.
    pub fn register(&mut self, c: u128, user_id: String, now: i64)
        requires
            old(self).wf(),
        ensures
            final(self).wf(),
            final(self).meta_map() == old(self).meta_map().insert(
                c,
                MetaView { user: user_id@, room: None, verified_at: now },
            ),
            forall|r: Seq<char>, x: u128|
                #[trigger] final(self).is_member(r, x) <==> (old(self).is_member(r, x) && x != c),
    {
        self.remove_connection(c);
        let ghost mid = *self;
        let m = WsMetadata { user_id, room_id: None, last_verified_at: now };
        meta_insert(&mut self.meta, c, m);
        assert(self.meta_map() =~= old(self).meta_map().insert(c, m@));
        assert(self.room_map() == mid.room_map());
        assert forall|r: Seq<char>, x: u128| #[trigger]
            self.is_member(r, x) <==> (old(self).is_member(r, x) && x != c) by {
            assert(self.is_member(r, x) == mid.is_member(r, x));
        }
        assert forall|r: Seq<char>, x: u128| #[trigger]
            self.is_member(r, x) implies self.has_conn(x) && self.meta_map()[x].room == Some(r) by {
            assert(mid.is_member(r, x));
        }
        assert forall|c2: u128| #[trigger]
            self.has_conn(c2) && self.meta_map()[c2].room is Some implies self.is_member(
                self.meta_map()[c2].room->0,
                c2,
            ) by {
            if c2 != c {
                assert(mid.has_conn(c2));
            }
        }
    }

    /// Makes connection `c` a member of `room` under user id `user_id`,
    /// leaving the room it was in before. Fails, changing nothing, when the
    /// connection is not known.
    pub fn join(&mut self, c: u128, room: &String, user_id: String, now: i64) -> (r: Result<(), WsError>)
        requires
            old(self).wf(),
        ensures
            final(self).wf(),
            !old(self).has_conn(c) ==> r == Err::<(), WsError>(WsError::ConnectionNotFound) && final(self).room_map()
                == old(self).room_map() && final(self).meta_map() == old(self).meta_map(),
            old(self).has_conn(c) ==> {
                &&& r is Ok
                &&& final(self).meta_map() == old(self).meta_map().insert(
                    c,
                    MetaView { user: user_id@, room: Some(room@), verified_at: now },
                )
                &&& forall|r2: Seq<char>, x: u128| #[trigger]
                    final(self).is_member(r2, x) <==> if x == c {
                        r2 == room@
                    } else {
                        old(self).is_member(r2, x)
                    }
            },
    {
        match meta_get(&self.meta, c) {
            None => Err(WsError::ConnectionNotFound),
            Some(m) => {
                let ghost old_room = old(self).meta_map()[c].room;
                match &m.room_id {
                    Some(prev) => {
                        unlist(&mut self.rooms, prev, c);
                    },
                    None => {},
                }
                enlist(&mut self.rooms, room, c);
                let nm = WsMetadata { user_id, room_id: Some(room.clone()), last_verified_at: now };
                meta_insert(&mut self.meta, c, nm);
                assert forall|r2: Seq<char>, x: u128| #[trigger]
                    self.is_member(r2, x) <==> if x == c {
                        r2 == room@
                    } else {
                        old(self).is_member(r2, x)
                    } by {
                    if x == c && old(self).is_member(r2, x) {
                        assert(old_room == Some(r2));
                    }
                }
                assert forall|c2: u128| #[trigger]
                    self.has_conn(c2) && self.meta_map()[c2].room is Some implies self.is_member(
                        self.meta_map()[c2].room->0,
                        c2,
                    ) by {
                    if c2 != c {
                        assert(old(self).has_conn(c2));
                    }
                }
                Ok(())
            },
        }
    }

    /// Records that connection `c` presented a valid token of user
    /// `user_id` at time `now`; its room is kept. An unknown connection is
    /// recorded in no room.
    pub fn refresh_auth(&mut self, c: u128, user_id: String, now: i64)
        requires
            old(self).wf(),
        ensures
            final(self).wf(),
            final(self).room_map() == old(self).room_map(),
            final(self).meta_map() == old(self).meta_map().insert(
                c,
                MetaView {
                    user: user_id@,
                    room: if old(self).has_conn(c) {
                        old(self).meta_map()[c].room
                    } else {
                        None
                    },
                    verified_at: now,
                },
            ),
    {
        let room_id = match meta_get(&self.meta, c) {
            Some(m) => m.room_id,
            None => None,
        };
        let nm = WsMetadata { user_id, room_id, last_verified_at: now };
        meta_insert(&mut self.meta, c, nm);
        assert forall|r: Seq<char>, x: u128| #[trigger]
            self.is_member(r, x) implies self.has_conn(x) && self.meta_map()[x].room == Some(r) by {
            assert(old(self).is_member(r, x));
        }
        assert forall|c2: u128| #[trigger]
            self.has_conn(c2) && self.meta_map()[c2].room is Some implies self.is_member(
                self.meta_map()[c2].room->0,
                c2,
            ) by {
            if c2 != c {
                assert(old(self).has_conn(c2));
            }
        }
    }

    /// Forgets connection `c`: it leaves its room (a room left empty is
    /// deleted) and its metadata is removed. Doing so for an unknown
    /// connection changes nothing.
    pub fn remove_connection(&mut self, c: u128)
        requires
            old(self).wf(),
        ensures
            final(self).wf(),
            final(self).meta_map() == old(self).meta_map().remove(c),
            forall|r: Seq<char>, x: u128|
                #[trigger] final(self).is_member(r, x) <==> (old(self).is_member(r, x) && x != c),
            forall|r: Seq<char>|
                old(self).members_of(r) == set![c] ==> !(#[trigger] final(self).has_room(r)),
    {
        self.remove_connection_inner(c);
        assert forall|r: Seq<char>| old(self).members_of(r) == set![c] implies !(#[trigger] self.has_room(
            r,
        )) by {
            if self.has_room(r) {
                let x = self.room_map()[r][0];
                assert(self.room_map()[r].contains(x));
                assert(self.is_member(r, x));
                assert(old(self).members_of(r).contains(x));
            }
        }
    }

    fn remove_connection_inner(&mut self, c: u128)
        requires
            old(self).wf(),
        ensures
            final(self).wf(),
            final(self).meta_map() == old(self).meta_map().remove(c),
            forall|r: Seq<char>, x: u128|
                #[trigger] final(self).is_member(r, x) <==> (old(self).is_member(r, x) && x != c),
    {
        match meta_get(&self.meta, c) {
            None => {
                assert(self.meta_map() =~= old(self).meta_map().remove(c));
            },
            Some(m) => {
                match &m.room_id {
                    Some(prev) => {
                        unlist(&mut self.rooms, prev, c);
                    },
                    None => {},
                }
                meta_remove(&mut self.meta, c);
                assert forall|r: Seq<char>, x: u128| #[trigger]
                    self.is_member(r, x) <==> (old(self).is_member(r, x) && x != c) by {
                    if x == c && old(self).is_member(r, x) {
                        assert(old(self).meta_map()[c].room == Some(r));
                    }
                }
                assert forall|c2: u128| #[trigger]
                    self.has_conn(c2) && self.meta_map()[c2].room is Some implies self.is_member(
                        self.meta_map()[c2].room->0,
                        c2,
                    ) by {
                    assert(old(self).has_conn(c2));
                }
            },
        }
    }
}

/// Whether some of the first `n` entries of `s` is `x`.
pub open spec fn seen(s: Seq<u128>, n: int, x: u128) -> bool {
    exists|j: int| 0 <= j < n && s[j] == x
}

/// The metadata of `x` after a prune of `room` by `failed`: a pruned member
/// is in no room any more.
pub open spec fn meta_after_prune(m: MetaView, room: Seq<char>, pruned: bool) -> MetaView {
    if pruned && m.room == Some(room) {
        MetaView { user: m.user, room: None, verified_at: m.verified_at }
    } else {
        m
    }
}

impl StateStore {
    /// Removes from `room` every member listed in `failed` (connections to
    /// which a delivery failed); each of them is then in no room. Other
    /// rooms and members are untouched.
    pub fn prune(&mut self, room: &String, failed: &Vec<u128>)
        requires
            old(self).wf(),
        ensures
            final(self).wf(),
            final(self).meta_map().dom() == old(self).meta_map().dom(),
            forall|x: u128| #[trigger]
                old(self).has_conn(x) ==> final(self).meta_map()[x] == meta_after_prune(
                    old(self).meta_map()[x],
                    room@,
                    failed@.contains(x),
                ),
            forall|r2: Seq<char>, x: u128| #[trigger]
                final(self).is_member(r2, x) <==> (old(self).is_member(r2, x) && !(r2 == room@
                    && failed@.contains(x))),
    {
        let mut i: usize = 0;
        while i < failed.len()
            invariant
                i <= failed@.len(),
                self.wf(),
                self.meta_map().dom() == old(self).meta_map().dom(),
                forall|x: u128| #[trigger]
                    old(self).has_conn(x) ==> self.meta_map()[x] == meta_after_prune(
                        old(self).meta_map()[x],
                        room@,
                        seen(failed@, i as int, x),
                    ),
                forall|r2: Seq<char>, x: u128| #[trigger]
                    self.is_member(r2, x) <==> (old(self).is_member(r2, x) && !(r2 == room@ && seen(
                        failed@,
                        i as int,
                        x,
                    ))),
            decreases failed@.len() - i,
        {
            let x = failed[i];
            let ghost before = *self;
            match meta_get(&self.meta, x) {
                None => {},
                Some(m) => {
                    let in_room = match &m.room_id {
                        Some(r) => *r == *room,
                        None => false,
                    };
                    if in_room {
                        unlist(&mut self.rooms, room, x);
                        let nm = WsMetadata { user_id: m.user_id, room_id: None, last_verified_at: m.last_verified_at };
                        meta_insert(&mut self.meta, x, nm);
                        assert forall|r2: Seq<char>, y: u128| #[trigger]
                            self.is_member(r2, y) implies self.has_conn(y) && self.meta_map()[y].room == Some(r2) by {
                            assert(before.is_member(r2, y));
                        }
                        assert forall|c2: u128| #[trigger]
                            self.has_conn(c2) && self.meta_map()[c2].room is Some implies self.is_member(
                                self.meta_map()[c2].room->0,
                                c2,
                            ) by {
                            if c2 != x {
                                assert(before.has_conn(c2));
                            }
                        }
                    }
                },
            }
            assert forall|y: u128| #[trigger] seen(failed@, i + 1, y) <==> (seen(failed@, i as int, y) || y == x) by {
                if seen(failed@, i + 1, y) && y != x {
                    let j = choose|j: int| 0 <= j < i + 1 && failed@[j] == y;
                    assert(0 <= j < i && failed@[j] == y);
                }
                if seen(failed@, i as int, y) {
                    let j = choose|j: int| 0 <= j < i && failed@[j] == y;
                    assert(0 <= j < i + 1 && failed@[j] == y);
                }
                if y == x {
                    assert(0 <= i < i + 1 && failed@[i as int] == y);
                }
            }
            assert forall|y: u128| #[trigger]
                old(self).has_conn(y) implies self.meta_map()[y] == meta_after_prune(
                    old(self).meta_map()[y],
                    room@,
                    seen(failed@, i + 1, y),
                ) by {
                assert(seen(failed@, i + 1, y) == (seen(failed@, i as int, y) || y == x));
            }
            assert forall|r2: Seq<char>, y: u128| #[trigger]
                self.is_member(r2, y) <==> (old(self).is_member(r2, y) && !(r2 == room@ && seen(
                    failed@,
                    i + 1,
                    y,
                ))) by {
                assert(seen(failed@, i + 1, y) == (seen(failed@, i as int, y) || y == x));
                assert(before.is_member(r2, y) <==> (old(self).is_member(r2, y) && !(r2 == room@ && seen(
                    failed@,
                    i as int,
                    y,
                ))));
                if y == x && before.is_member(room@, y) {
                    assert(before.has_conn(y) && before.meta_map()[y].room == Some(room@));
                }
            }
            i = i + 1;
        }
        assert forall|x: u128| seen(failed@, failed@.len() as int, x) == failed@.contains(x) by {
            if failed@.contains(x) {
                let j = choose|j: int| 0 <= j < failed@.len() && failed@[j] == x;
                assert(seen(failed@, failed@.len() as int, x));
            }
        }
    }

    /// The user ids of the members of the room that connection `c` is in,
    /// in member order; `None` when `c` is unknown or in no room.
    pub fn participants(&self, c: u128) -> (r: Option<Vec<String>>)
        requires
            self.wf(),
        ensures
            r is Some <==> self.has_conn(c) && self.meta_map()[c].room is Some,
            r matches Some(users) ==> {
                let members = self.room_map()[self.meta_map()[c].room->0];
                &&& users@.len() == members.len()
                &&& forall|i: int| 0 <= i < users@.len() ==> #[trigger] users@[i]@ == self.meta_map()[members[i]].user
            },
    {
        let m = match meta_get(&self.meta, c) {
            None => return None,
            Some(m) => m,
        };
        let room = match m.room_id {
            None => return None,
            Some(room) => room,
        };
        let members = self.members(&room);
        let ghost rv = room@;
        assert(self.has_conn(c));
        assert(m@.room == Some(rv));
        assert(self.is_member(rv, c));
        let mut users: Vec<String> = Vec::new();
        let mut i: usize = 0;
        while i < members.len()
            invariant
                self.wf(),
                self.has_room(rv),
                members@ == self.room_map()[rv],
                i <= members@.len(),
                users@.len() == i,
                forall|j: int| 0 <= j < i ==> #[trigger] users@[j]@ == self.meta_map()[members@[j]].user,
            decreases members@.len() - i,
        {
            let x = members[i];
            assert(members@.contains(x));
            assert(self.is_member(rv, x));
            match meta_get(&self.meta, x) {
                Some(mx) => {
                    users.push(mx.user_id);
                },
                None => {},
            }
            i = i + 1;
        }
        Some(users)
    }
}

} // verus!
