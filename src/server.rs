//! The per-process signaling core: connection registry, room state and peer
//! sessions held together, and the router that turns each inbound frame into
//! state changes and the deliveries, engine work and closing that the
//! transport must carry out.
use vstd::prelude::*;
use crate::auth::{AuthError, Claims};
use crate::message::{
    error_text, Delivery, Outbound, Reply, Task, WsError, WsInboundEvents, WsMessage, WsOutboundEvents, WsResponse,
};
use crate::peer::PeerSessions;
use crate::store::{MetaView, StateStore};
use crate::tables::{sink_ids, sinks_get, sinks_insert, sinks_new, sinks_remove, SinkTable};

verus! {

/// Characters of the URL-safe alphabet that room ids are drawn from.
pub open spec fn url_safe(c: char) -> bool {
    ('a' <= c && c <= 'z') || ('A' <= c && c <= 'Z') || ('0' <= c && c <= '9') || c == '_' || c == '-'
}

/// Relies on nanoid::format with the default random source and the SAFE
/// alphabet: `size` characters drawn at random from the URL-safe alphabet.
/// It does not return for a size of 0.
#[verifier::external_body]
fn random_id(size: usize) -> (r: String)
    requires
        size > 0,
    ensures
        r@.len() == size,
        forall|i: int| 0 <= i < r@.len() ==> url_safe(#[trigger] r@[i]),
{
    nanoid::format(nanoid::rngs::default, &nanoid::alphabet::SAFE, size)
}

/// Length of a minted room id.
pub const ROOM_ID_LEN: usize = 21;

/// How many random ids are tried before minting gives up.
pub const MINT_ATTEMPTS: usize = 8;

/// The signaling state of one server process.
pub struct Server {
    sinks: SinkTable,
    store: StateStore,
    sessions: PeerSessions,
}

impl Server {
    pub closed spec fn state(&self) -> StateStore {
        self.store
    }

    pub closed spec fn peers(&self) -> PeerSessions {
        self.sessions
    }

    /// The connections that have an outbound channel.
    pub closed spec fn registered_ids(&self) -> Set<u128> {
        sink_ids(self.sinks)
    }

    /// Connection `c` has an outbound channel.
    pub open spec fn registered(&self, c: u128) -> bool {
        self.registered_ids().contains(c)
    }

    /// A connection is registered exactly when it has metadata, and only a
    /// registered connection has a peer session.
    pub open spec fn wf(&self) -> bool {
        &&& self.state().wf()
        &&& self.peers().wf()
        &&& self.registered_ids() == self.state().meta_map().dom()
        &&& forall|c: u128| #[trigger] self.peers().sessions().contains_key(c) ==> self.registered(c)
    }

    pub fn new() -> (r: Self)
        ensures
            r.wf(),
            forall|c: u128| !r.registered(c),
            r.state().room_map().dom().is_empty(),
            r.peers().sessions().dom().is_empty(),
    {
        Server { sinks: sinks_new(), store: StateStore::new(), sessions: PeerSessions::new() }
    }

    /// Read access to the room state.
    pub fn store(&self) -> (r: &StateStore)
        ensures
            *r == self.state(),
    {
        &self.store
    }

    /// Read access to the peer sessions.
    pub fn peer_sessions(&self) -> (r: &PeerSessions)
        ensures
            *r == self.peers(),
    {
        &self.sessions
    }

    /// Admits an authenticated connection: its outbound channel is
    /// registered and its metadata records user `user_id`, in no room.
    pub fn connect(&mut self, c: u128, sink: tokio::sync::mpsc::Sender<String>, user_id: String, now: i64)
        requires
            old(self).wf(),
        ensures
            final(self).wf(),
            final(self).registered(c),
            forall|x: u128| x != c ==> (final(self).registered(x) == old(self).registered(x)),
            final(self).state().meta_map() == old(self).state().meta_map().insert(
                c,
                MetaView { user: user_id@, room: None, verified_at: now },
            ),
            forall|r: Seq<char>, x: u128| #[trigger]
                final(self).state().is_member(r, x) <==> (old(self).state().is_member(r, x) && x != c),
            final(self).peers().sessions() == old(self).peers().sessions(),
    {
        self.store.register(c, user_id, now);
        sinks_insert(&mut self.sinks, c, sink);
        assert(self.registered_ids() =~= self.store.meta_map().dom());
        assert forall|x: u128| #[trigger] self.sessions.sessions().contains_key(x) implies self.registered(x) by {
            assert(old(self).registered(x));
        }
    }

    /// The outbound channel of connection `c`, if it is registered.
    pub fn sink_of(&self, c: u128) -> (r: Option<tokio::sync::mpsc::Sender<String>>)
        ensures
            r is Some <==> self.registered(c),
    {
        sinks_get(&self.sinks, c)
    }

    /// Forgets connection `c` everywhere: its channel, its metadata, its
    /// room membership (a room it was alone in disappears) and its peer
    /// session, whose number is handed back for the engine to release.
    /// Running it again, or for an unknown connection, changes nothing.
    pub fn cleanup(&mut self, c: u128) -> (r: Option<u64>)
        requires
            old(self).wf(),
        ensures
            final(self).wf(),
            !final(self).registered(c),
            forall|x: u128| x != c ==> (final(self).registered(x) == old(self).registered(x)),
            final(self).state().meta_map() == old(self).state().meta_map().remove(c),
            forall|rm: Seq<char>, x: u128| #[trigger]
                final(self).state().is_member(rm, x) <==> (old(self).state().is_member(rm, x) && x != c),
            forall|rm: Seq<char>|
                old(self).state().members_of(rm) == set![c] ==> !(#[trigger] final(self).state().has_room(rm)),
            final(self).peers().sessions() == old(self).peers().sessions().remove(c),
            r is Some <==> old(self).peers().sessions().contains_key(c),
            r matches Some(s) ==> s == old(self).peers().sessions()[c],
    {
        sinks_remove(&mut self.sinks, c);
        let closed = self.sessions.close(c);
        self.store.remove_connection(c);
        assert(self.registered_ids() =~= self.store.meta_map().dom());
        assert forall|x: u128| #[trigger] self.sessions.sessions().contains_key(x) implies self.registered(x) by {
            assert(old(self).registered(x));
        }
        closed
    }
}

/// `r` sends exactly one message, to `c`, and asks nothing else.
pub open spec fn plain(r: Reply, c: u128) -> bool {
    &&& r.deliveries@.len() == 1
    &&& r.deliveries@[0].to == c
    &&& r.task == Task::Nothing
    &&& r.prune_room is None
    &&& !r.close
}

/// The protocol response that `r` delivers first, if any.
pub open spec fn first_response(r: Reply) -> Option<WsResponse> {
    if r.deliveries@.len() > 0 {
        match r.deliveries@[0].what {
            Outbound::Response(x) => Some(x),
            _ => None,
        }
    } else {
        None
    }
}

/// The session that task `t` asks to build, if any.
pub open spec fn new_session(t: Task) -> Option<u64> {
    match t {
        Task::Negotiate { session, created, .. } => if created {
            Some(session)
        } else {
            None
        },
        _ => None,
    }
}

/// `r` first delivers the `Error` response for `e`.
pub open spec fn errs_with(r: Reply, e: WsError) -> bool {
    first_response(r) matches Some(WsResponse::Error { message }) && message@ == error_text(e)
}

/// A room id as minting makes them: of the usual length, URL-safe.
pub open spec fn mintable(id: Seq<char>) -> bool {
    id.len() == ROOM_ID_LEN && forall|i: int| 0 <= i < id.len() ==> url_safe(#[trigger] id[i])
}

/// Draws random room ids, one per minting attempt.
fn draw_ids() -> (r: Vec<String>)
    ensures
        r@.len() == MINT_ATTEMPTS,
        forall|i: int| 0 <= i < r@.len() ==> mintable((#[trigger] r@[i])@),
{
    let mut v: Vec<String> = Vec::new();
    let mut k: usize = 0;
    while k < MINT_ATTEMPTS
        invariant
            k <= MINT_ATTEMPTS,
            v@.len() == k,
            forall|i: int| 0 <= i < v@.len() ==> mintable((#[trigger] v@[i])@),
        decreases MINT_ATTEMPTS - k,
    {
        v.push(random_id(ROOM_ID_LEN));
        k = k + 1;
    }
    v
}

/// Every draw names an existing room.
pub open spec fn all_taken(s: Server, draws: Seq<String>) -> bool {
    forall|i: int| 0 <= i < draws.len() ==> s.state().has_room((#[trigger] draws[i])@)
}

/// Draw `i` is the first that names no existing room.
pub open spec fn first_fresh(s: Server, draws: Seq<String>, i: int) -> bool {
    &&& 0 <= i < draws.len()
    &&& !s.state().has_room(draws[i]@)
    &&& forall|j: int| 0 <= j < i ==> s.state().has_room((#[trigger] draws[j])@)
}

/// `Create` answered in `r`: a fresh minted room id, or an internal error
/// when minting found none.
pub open spec fn created(pre: Server, c: u128, r: Reply) -> bool {
    &&& plain(r, c)
    &&& first_response(r) matches Some(WsResponse::CreateOK { room_id }) ==> !pre.state().has_room(room_id@)
        && mintable(room_id@)
    &&& !(first_response(r) matches Some(WsResponse::CreateOK { .. })) ==> errs_with(r, WsError::InternalServerError)
}

/// `VerifyRoom` answered in `r`.
pub open spec fn verified_room(pre: Server, c: u128, room: String, r: Reply) -> bool {
    &&& plain(r, c)
    &&& pre.state().has_room(room@) ==> first_response(r) == Some((WsResponse::VerifySuccess { room }))
    &&& !pre.state().has_room(room@) ==> (first_response(r) matches Some(WsResponse::VerifyError { error })
        && error@ == "Room does not exist"@)
}

/// `IceCandidate` handled in `r`.
pub open spec fn ice_done(pre: Server, c: u128, candidate: String, r: Reply) -> bool {
    &&& !pre.peers().sessions().contains_key(c) ==> plain(r, c) && errs_with(r, WsError::ConnectionNotFound)
    &&& pre.peers().sessions().contains_key(c) ==> r.deliveries@.len() == 0 && r.task == (Task::AddCandidate {
        session: pre.peers().sessions()[c],
        candidate,
    }) && r.prune_room is None && !r.close
}

/// `Offer` handled from `pre` to `post` in `r`.
pub open spec fn offer_done(pre: Server, post: Server, c: u128, sdp: String, r: Reply) -> bool {
    &&& post.state() == pre.state()
    &&& post.registered_ids() == pre.registered_ids()
    &&& pre.peers().sessions().contains_key(c) ==> post.peers().sessions() == pre.peers().sessions() && r == (Reply {
        deliveries: r.deliveries,
        task: Task::Negotiate { session: pre.peers().sessions()[c], created: false, sdp },
        prune_room: None,
        close: false,
    }) && r.deliveries@.len() == 0
    &&& !pre.registered(c) ==> plain(r, c) && errs_with(r, WsError::ConnectionNotFound) && post.peers() == pre.peers()
    &&& pre.registered(c) && !pre.peers().sessions().contains_key(c) ==> {
        &&& pre.peers().next() != u64::MAX ==> new_session(r.task) is Some
        &&& pre.peers().next() == u64::MAX ==> plain(r, c) && errs_with(r, WsError::InternalServerError)
            && post.peers().sessions() == pre.peers().sessions()
    }
    &&& new_session(r.task) matches Some(s) ==> {
        &&& r.task == (Task::Negotiate { session: s, created: true, sdp })
        &&& r.deliveries@.len() == 0 && r.prune_room is None && !r.close
        &&& !pre.peers().sessions().contains_key(c)
        &&& post.peers().sessions() == pre.peers().sessions().insert(c, s)
        &&& forall|x: u128| #[trigger] pre.peers().sessions().contains_key(x) ==> pre.peers().sessions()[x] != s
    }
}

/// `Join` handled from `pre` to `post` in `r`.
pub open spec fn join_done(pre: Server, post: Server, c: u128, room: Option<String>, user_id: String, now: i64, r: Reply) -> bool {
    &&& post.registered_ids() == pre.registered_ids()
    &&& post.peers() == pre.peers()
    &&& r.task == Task::Nothing
    &&& !r.close
    &&& pre.state().has_conn(c) && room is Some ==> r.prune_room == room
    &&& !pre.state().has_conn(c) ==> plain(r, c) && errs_with(r, WsError::ConnectionNotFound)
    &&& r.prune_room is None ==> {
        &&& post.state().room_map() == pre.state().room_map()
        &&& post.state().meta_map() == pre.state().meta_map()
        &&& plain(r, c)
        &&& first_response(r) matches Some(WsResponse::Error { .. })
    }
    &&& r.prune_room matches Some(joined) ==> {
        &&& room is None ==> !pre.state().has_room(joined@)
        &&& post.state().has_room(joined@)
        &&& post.state().is_member(joined@, c)
        &&& post.state().meta_map() == pre.state().meta_map().insert(
            c,
            MetaView { user: user_id@, room: Some(joined@), verified_at: now },
        )
        &&& forall|r2: Seq<char>, x: u128| #[trigger]
            post.state().is_member(r2, x) <==> if x == c {
                r2 == joined@
            } else {
                pre.state().is_member(r2, x)
            }
        &&& r.deliveries@.len() >= 1
        &&& r.deliveries@[0] == (Delivery { to: c, what: Outbound::Response(WsResponse::JoinOk { room: joined }) })
        &&& forall|k: int| #![trigger r.deliveries@[k]] 1 <= k < r.deliveries@.len() ==> {
            &&& r.deliveries@[k].to != c
            &&& post.state().is_member(joined@, r.deliveries@[k].to)
            &&& r.deliveries@[k].what == Outbound::Response(WsResponse::PeerJoined { user_id })
        }
        &&& forall|m: u128| #[trigger]
            post.state().is_member(joined@, m) && m != c ==> exists|k: int|
                1 <= k < r.deliveries@.len() && (#[trigger] r.deliveries@[k]).to == m
        &&& forall|k1: int, k2: int| #![trigger r.deliveries@[k1], r.deliveries@[k2]]
            1 <= k1 < k2 < r.deliveries@.len() ==> r.deliveries@[k1].to != r.deliveries@[k2].to
    }
}

/// Request `msg` of connection `c` handled from `pre` to `post` in `r`, as
/// its handler does.
pub open spec fn handled(pre: Server, post: Server, c: u128, msg: WsMessage, now: i64, r: Reply) -> bool {
    match msg {
        WsMessage::Create => post == pre && created(pre, c, r),
        WsMessage::Join { room, user_id } => join_done(pre, post, c, room, user_id, now, r) && (room is None
            && r.prune_room is Some ==> mintable(r.prune_room->0@)),
        WsMessage::Offer { sdp } => offer_done(pre, post, c, sdp, r),
        WsMessage::IceCandidate { candidate } => post == pre && ice_done(pre, c, candidate, r),
        WsMessage::RefreshToken { token } => post == pre && r.deliveries@.len() == 0 && r.task == (
        Task::Authenticate { token }) && r.prune_room is None && !r.close,
        WsMessage::VerifyRoom { room } => post == pre && verified_room(pre, c, room, r),
    }
}

/// A reply that sends `resp` to `c` and asks nothing else.
fn reply_to(c: u128, resp: WsResponse) -> (r: Reply)
    ensures
        plain(r, c),
        first_response(r) == Some(resp),
{
    let mut deliveries: Vec<Delivery> = Vec::new();
    deliveries.push(Delivery { to: c, what: Outbound::Response(resp) });
    Reply { deliveries, task: Task::Nothing, prune_room: None, close: false }
}

fn reply_error(c: u128, e: WsError) -> (r: Reply)
    ensures
        plain(r, c),
        errs_with(r, e),
{
    reply_to(c, WsResponse::Error { message: e.message() })
}

impl Server {
    /// Picks the first of `draws` that names no existing room; `None` when
    /// every draw names one.
    pub fn pick_fresh(&self, draws: &Vec<String>) -> (r: Option<String>)
        requires
            self.wf(),
        ensures
            r is None <==> all_taken(*self, draws@),
            r matches Some(id) ==> exists|i: int| first_fresh(*self, draws@, i) && (#[trigger] draws@[i])@ == id@,
    {
        let mut i: usize = 0;
        while i < draws.len()
            invariant
                self.wf(),
                i <= draws@.len(),
                forall|j: int| 0 <= j < i ==> self.state().has_room((#[trigger] draws@[j])@),
            decreases draws@.len() - i,
        {
            if !self.store.verify(&draws[i]) {
                let id = draws[i].clone();
                assert(first_fresh(*self, draws@, i as int));
                return Some(id);
            }
            i = i + 1;
        }
        None
    }

    /// `Create` with the random ids `draws`: answers with the first of them
    /// that names no existing room; the caller does not join it.
    pub fn create_from(&self, c: u128, draws: &Vec<String>) -> (r: Reply)
        requires
            self.wf(),
        ensures
            plain(r, c),
            all_taken(*self, draws@) ==> errs_with(r, WsError::InternalServerError),
            !all_taken(*self, draws@) ==> (first_response(r) matches Some(WsResponse::CreateOK { room_id })
                && exists|i: int| first_fresh(*self, draws@, i) && (#[trigger] draws@[i])@ == room_id@),
    {
        match self.pick_fresh(draws) {
            Some(room_id) => reply_to(c, WsResponse::CreateOK { room_id }),
            None => reply_error(c, WsError::InternalServerError),
        }
    }

    /// `Create`: answers with a new random room id that names no existing
    /// room; the caller does not join it.
    pub fn handle_create(&self, c: u128) -> (r: Reply)
        requires
            self.wf(),
        ensures
            created(*self, c, r),
    {
        let draws = draw_ids();
        let r = self.create_from(c, &draws);
        proof {
            if let Some(WsResponse::CreateOK { room_id }) = first_response(r) {
                if !all_taken(*self, draws@) {
                    let i = choose|i: int| first_fresh(*self, draws@, i) && (#[trigger] draws@[i])@ == room_id@;
                    assert(mintable(draws@[i]@));
                }
            }
        }
        r
    }

    /// `VerifyRoom`: `VerifySuccess` when the room has a member, else
    /// `VerifyError` with the text "Room does not exist".
    pub fn handle_verify_room(&self, c: u128, room: String) -> (r: Reply)
        requires
            self.wf(),
        ensures
            verified_room(*self, c, room, r),
    {
        if self.store.verify(&room) {
            reply_to(c, WsResponse::VerifySuccess { room })
        } else {
            reply_to(c, WsResponse::VerifyError { error: String::from_str("Room does not exist") })
        }
    }

    /// `IceCandidate`: hands the candidate to the connection's peer session;
    /// without a session (no `Offer` yet) the answer is a
    /// connection-not-found error and nothing else happens.
    pub fn handle_ice_candidate(&self, c: u128, candidate: String) -> (r: Reply)
        requires
            self.wf(),
        ensures
            ice_done(*self, c, candidate, r),
    {
        match self.sessions.session_of(c) {
            None => {
                let r = reply_error(c, WsError::ConnectionNotFound);
                r
            },
            Some(session) => Reply {
                deliveries: Vec::new(),
                task: Task::AddCandidate { session, candidate },
                prune_room: None,
                close: false,
            },
        }
    }

    /// `Offer`: the connection's peer session (made now if it has none) is
    /// to take the offer and answer it. A second offer reuses the session.
    pub fn handle_offer(&mut self, c: u128, sdp: String) -> (r: Reply)
        requires
            old(self).wf(),
        ensures
            final(self).wf(),
            offer_done(*old(self), *final(self), c, sdp, r),
    {
        if sinks_get(&self.sinks, c).is_none() {
            let r = reply_error(c, WsError::ConnectionNotFound);
            return r;
        }
        let granted = self.sessions.get_or_create(c);
        assert forall|x: u128| #[trigger] self.sessions.sessions().contains_key(x) implies self.registered(x) by {
            if x != c {
                assert(old(self).sessions.sessions().contains_key(x));
            }
        }
        match granted {
            None => reply_error(c, WsError::InternalServerError),
            Some(grant) => {
                Reply {
                    deliveries: Vec::new(),
                    task: Task::Negotiate { session: grant.session, created: grant.created, sdp },
                    prune_room: None,
                    close: false,
                }
            },
        }
    }
}

impl Server {
    /// Deliveries of `note` to every member of `room` except `except`
    /// (a snapshot of the membership), appended to `out`.
    fn notify_room(&self, room: &String, except: u128, note: &WsResponse, out: &mut Vec<Delivery>)
        requires
            self.wf(),
        ensures
            final(out)@.len() >= old(out)@.len(),
            final(out)@.subrange(0, old(out)@.len() as int) == old(out)@,
            forall|k: int| #![trigger final(out)@[k]] old(out)@.len() <= k < final(out)@.len() ==> {
                &&& final(out)@[k].to != except
                &&& self.state().is_member(room@, final(out)@[k].to)
                &&& final(out)@[k].what == Outbound::Response(*note)
            },
            forall|m: u128| #[trigger]
                self.state().is_member(room@, m) && m != except ==> exists|k: int|
                    old(out)@.len() <= k < final(out)@.len() && (#[trigger] final(out)@[k]).to == m,
            forall|k1: int, k2: int| #![trigger final(out)@[k1], final(out)@[k2]]
                old(out)@.len() <= k1 < k2 < final(out)@.len() ==> final(out)@[k1].to != final(out)@[k2].to,
    {
        let members = self.store.members(room);
        let ghost start = out@.len();
        let ghost out0 = out@;
        let mut i: usize = 0;
        while i < members.len()
            invariant
                i <= members@.len(),
                self.wf(),
                forall|m: u128| members@.contains(m) <==> self.state().is_member(room@, m),
                out@.len() >= start,
                out@.subrange(0, start as int) == out0,
                forall|k: int| #![trigger out@[k]] start <= k < out@.len() ==> {
                    &&& out@[k].to != except
                    &&& self.state().is_member(room@, out@[k].to)
                    &&& out@[k].what == Outbound::Response(*note)
                },
                forall|j: int| 0 <= j < i && #[trigger] members@[j] != except ==> exists|k: int|
                    start <= k < out@.len() && (#[trigger] out@[k]).to == members@[j],
                members@.no_duplicates(),
                forall|k: int| #![trigger out@[k]] start <= k < out@.len() ==> exists|j: int|
                    0 <= j < i && (#[trigger] members@[j]) == out@[k].to,
                forall|k1: int, k2: int| #![trigger out@[k1], out@[k2]] start <= k1 < k2 < out@.len() ==> out@[k1].to
                    != out@[k2].to,
            decreases members@.len() - i,
        {
            let m = members[i];
            assert(members@.contains(m));
            if m != except {
                let ghost before = out@;
                out.push(Delivery { to: m, what: Outbound::Response(note.copy()) });
                assert(out@.subrange(0, start as int) =~= before.subrange(0, start as int));
                assert(out@[out@.len() - 1].to == m);
                assert forall|j: int| 0 <= j < i + 1 && #[trigger] members@[j] != except implies exists|k: int|
                    start <= k < out@.len() && (#[trigger] out@[k]).to == members@[j] by {
                    if j < i {
                        let k = choose|k: int| start <= k < before.len() && (#[trigger] before[k]).to == members@[j];
                        assert(out@[k] == before[k]);
                    } else {
                        assert(out@[out@.len() - 1].to == members@[j]);
                    }
                }
                assert forall|k: int| #![trigger out@[k]] start <= k < out@.len() implies exists|j: int|
                    0 <= j < i + 1 && (#[trigger] members@[j]) == out@[k].to by {
                    if k < before.len() {
                        let j = choose|j: int| 0 <= j < i && (#[trigger] members@[j]) == before[k].to;
                        assert(out@[k] == before[k]);
                        assert(0 <= j < i + 1 && members@[j] == out@[k].to);
                    } else {
                        assert(members@[i as int] == out@[k].to);
                    }
                }
                assert forall|k1: int, k2: int| #![trigger out@[k1], out@[k2]] start <= k1 < k2 < out@.len() implies out@[k1].to
                    != out@[k2].to by {
                    if k2 < before.len() {
                        assert(out@[k1] == before[k1] && out@[k2] == before[k2]);
                    } else {
                        assert(out@[k1] == before[k1]);
                        let j = choose|j: int| 0 <= j < i && (#[trigger] members@[j]) == before[k1].to;
                        assert(members@[j] != members@[i as int]);
                    }
                }
            }
            i = i + 1;
        }
        assert forall|m: u128| #[trigger]
            self.state().is_member(room@, m) && m != except implies exists|k: int|
                start <= k < out@.len() && (#[trigger] out@[k]).to == m by {
            assert(members@.contains(m));
            let j = choose|j: int| 0 <= j < members@.len() && members@[j] == m;
            assert(members@[j] != except);
        }
    }

    /// `Join` with the random ids `draws` to mint from: connection `c`
    /// becomes a member of `room`, or when none is given of the first draw
    /// that names no existing room, under user id `user_id`, leaving its
    /// previous room. It is answered `JoinOk`, and every other member of the
    /// room is sent `PeerJoined` once; failed deliveries are to be pruned
    /// from the room.
    pub fn join_from(&mut self, c: u128, room: Option<String>, user_id: String, now: i64, draws: &Vec<String>) -> (r: Reply)
        requires
            old(self).wf(),
        ensures
            final(self).wf(),
            join_done(*old(self), *final(self), c, room, user_id, now, r),
            old(self).state().has_conn(c) && room is None && all_taken(*old(self), draws@) ==> errs_with(
                r,
                WsError::InternalServerError,
            ),
            old(self).state().has_conn(c) && room is None && !all_taken(*old(self), draws@) ==> (r.prune_room matches Some(
                joined,
            ) && exists|i: int| first_fresh(*old(self), draws@, i) && (#[trigger] draws@[i])@ == joined@),
    {
        if self.store.get_metadata(c).is_none() {
            return reply_error(c, WsError::ConnectionNotFound);
        }
        let room = match room {
            Some(given) => given,
            None => match self.pick_fresh(draws) {
                Some(minted) => minted,
                None => return reply_error(c, WsError::InternalServerError),
            },
        };
        let ghost pre = self.store;
        match self.store.join(c, &room, user_id.clone(), now) {
            Err(e) => {
                return reply_error(c, e);
            },
            Ok(()) => {},
        }
        assert(self.store.meta_map().dom() =~= pre.meta_map().dom());
        assert(self.store.is_member(room@, c));
        let mut out: Vec<Delivery> = Vec::new();
        out.push(Delivery { to: c, what: Outbound::Response(WsResponse::JoinOk { room: room.clone() }) });
        let note = WsResponse::PeerJoined { user_id };
        self.notify_room(&room, c, &note, &mut out);
        assert(out@[0] == out@.subrange(0, 1)[0]);
        Reply { deliveries: out, task: Task::Nothing, prune_room: Some(room), close: false }
    }

    /// `Join`: as [`Server::join_from`], minting from fresh random ids when
    /// no room is given.
    pub fn handle_join(&mut self, c: u128, room: Option<String>, user_id: String, now: i64) -> (r: Reply)
        requires
            old(self).wf(),
        ensures
            final(self).wf(),
            join_done(*old(self), *final(self), c, room, user_id, now, r),
            room is None && r.prune_room is Some ==> mintable(r.prune_room->0@),
    {
        let draws = if room.is_none() {
            draw_ids()
        } else {
            Vec::new()
        };
        let r = self.join_from(c, room, user_id, now, &draws);
        proof {
            if room is None && r.prune_room is Some {
                let joined = r.prune_room->0;
                if old(self).state().has_conn(c) && !all_taken(*old(self), draws@) {
                    let i = choose|i: int| first_fresh(*old(self), draws@, i) && (#[trigger] draws@[i])@ == joined@;
                    assert(mintable(draws@[i]@));
                }
            }
        }
        r
    }

    /// Completes `RefreshToken` with the outcome of validating the token:
    /// on success the connection's user id and validation time are updated
    /// and it is answered `AuthOk`; on failure it is answered `AuthFailed`
    /// and must be closed.
    pub fn finish_refresh(&mut self, c: u128, outcome: Result<Claims, AuthError>, now: i64) -> (r: Reply)
        requires
            old(self).wf(),
        ensures
            final(self).wf(),
            forall|x: u128| final(self).registered(x) == old(self).registered(x),
            final(self).peers() == old(self).peers(),
            outcome is Err ==> final(self).state() == old(self).state() && r.close && r.deliveries@.len() == 1
                && r.deliveries@[0] == (Delivery { to: c, what: Outbound::Response(WsResponse::AuthFailed) }),
            outcome is Ok && old(self).registered(c) ==> {
                &&& plain(r, c)
                &&& first_response(r) == Some(WsResponse::AuthOk)
                &&& final(self).state().room_map() == old(self).state().room_map()
                &&& final(self).state().meta_map() == old(self).state().meta_map().insert(
                    c,
                    MetaView {
                        user: outcome->Ok_0.sub@,
                        room: old(self).state().meta_map()[c].room,
                        verified_at: now,
                    },
                )
            },
            outcome is Ok && !old(self).registered(c) ==> final(self).state() == old(self).state() && r.close
                && errs_with(r, WsError::ConnectionNotFound),
    {
        match outcome {
            Err(_) => {
                let mut r = reply_to(c, WsResponse::AuthFailed);
                r.close = true;
                r
            },
            Ok(claims) => {
                if sinks_get(&self.sinks, c).is_none() {
                    let mut r = reply_error(c, WsError::ConnectionNotFound);
                    r.close = true;
                    return r;
                }
                let ghost pre = self.store;
                assert(self.registered(c));
                assert(pre.has_conn(c));
                self.store.refresh_auth(c, claims.sub, now);
                assert(self.store.meta_map().dom() =~= pre.meta_map().dom());
                reply_to(c, WsResponse::AuthOk)
            },
        }
    }

    /// After a broadcast to `room`: the recipients whose delivery failed
    /// leave the room (and are then in no room); the others stay.
    pub fn finish_broadcast(&mut self, room: &String, failed: &Vec<u128>)
        requires
            old(self).wf(),
        ensures
            final(self).wf(),
            forall|x: u128| final(self).registered(x) == old(self).registered(x),
            final(self).peers() == old(self).peers(),
            final(self).state().members_of(room@) == old(self).state().members_of(room@).difference(failed@.to_set()),
            forall|r2: Seq<char>| r2 != room@ ==> #[trigger] final(self).state().members_of(r2) == old(self).state().members_of(r2),
    {
        self.store.prune(room, failed);
        assert(self.state().members_of(room@) =~= old(self).state().members_of(room@).difference(failed@.to_set()));
        assert forall|r2: Seq<char>| r2 != room@ implies #[trigger] self.state().members_of(r2) == old(self).state().members_of(r2) by {
            assert(self.state().members_of(r2) =~= old(self).state().members_of(r2));
        }
    }

    /// `ListParticipants` (first protocol revision): the user ids of the
    /// members of the caller's room; a caller that is unknown or in no room
    /// is closed.
    pub fn list_participants(&self, c: u128) -> (r: Reply)
        requires
            self.wf(),
        ensures
            r.task == Task::Nothing,
            r.prune_room is None,
            r.close <==> !(self.state().has_conn(c) && self.state().meta_map()[c].room is Some),
            r.close ==> r.deliveries@.len() == 0,
            !r.close ==> {
                let members = self.state().room_map()[self.state().meta_map()[c].room->0];
                &&& r.deliveries@.len() == 1
                &&& r.deliveries@[0].to == c
                &&& r.deliveries@[0].what matches Outbound::Event(WsOutboundEvents::Participants { users })
                    && users@.len() == members.len() && forall|i: int|
                    0 <= i < users@.len() ==> #[trigger] users@[i]@ == self.state().meta_map()[members[i]].user
            },
    {
        match self.store.participants(c) {
            None => Reply { deliveries: Vec::new(), task: Task::Nothing, prune_room: None, close: true },
            Some(users) => {
                let mut deliveries: Vec<Delivery> = Vec::new();
                deliveries.push(Delivery { to: c, what: Outbound::Event(WsOutboundEvents::Participants { users }) });
                Reply { deliveries, task: Task::Nothing, prune_room: None, close: false }
            },
        }
    }
}

impl Server {
    /// Dispatches a decoded request of connection `c` to its handler.
    pub fn route_message(&mut self, c: u128, msg: WsMessage, now: i64) -> (r: Reply)
        requires
            old(self).wf(),
        ensures
            final(self).wf(),
            handled(*old(self), *final(self), c, msg, now, r),
    {
        match msg {
            WsMessage::Create => self.handle_create(c),
            WsMessage::Join { room, user_id } => self.handle_join(c, room, user_id, now),
            WsMessage::Offer { sdp } => self.handle_offer(c, sdp),
            WsMessage::IceCandidate { candidate } => self.handle_ice_candidate(c, candidate),
            WsMessage::RefreshToken { token } => Reply {
                deliveries: Vec::new(),
                task: Task::Authenticate { token },
                prune_room: None,
                close: false,
            },
            WsMessage::VerifyRoom { room } => self.handle_verify_room(c, room),
        }
    }

    /// Handles one text frame of connection `c`. `parsed` is the frame
    /// decoded as a request, or the decoder's complaint. The literal text
    /// `ping` is answered with the literal text `pong` whatever the decoder
    /// said; any other frame that did not decode is answered with an
    /// `Error` and the connection stays open.
    pub fn route_text(&mut self, c: u128, text: &str, parsed: Result<WsMessage, String>, now: i64) -> (r: Reply)
        requires
            old(self).wf(),
        ensures
            final(self).wf(),
            forall|x: u128| final(self).registered(x) == old(self).registered(x),
            text@ == "ping"@ ==> {
                &&& *final(self) == *old(self)
                &&& r.deliveries@.len() == 1
                &&& r.deliveries@[0].to == c
                &&& r.deliveries@[0].what matches Outbound::Text(t) && t@ == "pong"@
                &&& r.task == Task::Nothing
                &&& r.prune_room is None
                &&& !r.close
            },
            text@ != "ping"@ && parsed is Ok ==> handled(*old(self), *final(self), c, parsed->Ok_0, now, r),
            text@ != "ping"@ && parsed is Err ==> {
                &&& *final(self) == *old(self)
                &&& plain(r, c)
                &&& first_response(r) matches Some(WsResponse::Error { message }) && message@ == "Invalid message format: "@
                    + parsed->Err_0@
            },
    {
        let ping = String::from_str("ping");
        if String::from_str(text) == ping {
            let mut deliveries: Vec<Delivery> = Vec::new();
            deliveries.push(Delivery { to: c, what: Outbound::Text(String::from_str("pong")) });
            return Reply { deliveries, task: Task::Nothing, prune_room: None, close: false };
        }
        match parsed {
            Err(e) => {
                let message = String::from_str("Invalid message format: ").concat(e.as_str());
                reply_to(c, WsResponse::Error { message })
            },
            Ok(msg) => self.route_message(c, msg, now),
        }
    }
}

impl Server {
    /// Dispatches a request of the first protocol revision. `Join` moves
    /// the caller, under the user id it connected with, into the room and
    /// answers `JoinOk`; `ListParticipants` answers with the room's user
    /// ids. A caller that is not known is closed.
    pub fn route_event(&mut self, c: u128, ev: WsInboundEvents, now: i64) -> (r: Reply)
        requires
            old(self).wf(),
        ensures
            final(self).wf(),
            forall|x: u128| final(self).registered(x) == old(self).registered(x),
            final(self).peers() == old(self).peers(),
            r.task == Task::Nothing,
            r.prune_room is None,
            ev matches WsInboundEvents::Join { room } ==> {
                &&& !old(self).state().has_conn(c) ==> r.close && r.deliveries@.len() == 0
                &&& old(self).state().has_conn(c) ==> {
                    &&& !r.close
                    &&& r.deliveries@ == seq![
                        Delivery { to: c, what: Outbound::Event(WsOutboundEvents::JoinOk { room }) },
                    ]
                    &&& final(self).state().is_member(room@, c)
                    &&& final(self).state().meta_map()[c].user == old(self).state().meta_map()[c].user
                }
            },
            ev is ListParticipants ==> *final(self) == *old(self) && (r.close <==> !(old(self).state().has_conn(
                c,
            ) && old(self).state().meta_map()[c].room is Some)),
    {
        match ev {
            WsInboundEvents::ListParticipants => self.list_participants(c),
            WsInboundEvents::Join { room } => {
                let user_id = match self.store.get_metadata(c) {
                    None => return Reply { deliveries: Vec::new(), task: Task::Nothing, prune_room: None, close: true },
                    Some(m) => m.user_id,
                };
                let ghost pre = self.store;
                let _outcome = self.store.join(c, &room, user_id, now);
                assert(self.store.meta_map().dom() =~= pre.meta_map().dom());
                assert(self.store.is_member(room@, c));
                let mut deliveries: Vec<Delivery> = Vec::new();
                deliveries.push(Delivery { to: c, what: Outbound::Event(WsOutboundEvents::JoinOk { room }) });
                Reply { deliveries, task: Task::Nothing, prune_room: None, close: false }
            },
        }
    }
}

impl Server {
    /// Drops the peer session of connection `c` (its engine could not be
    /// built or failed), handing back its number; the connection stays.
    pub fn release_session(&mut self, c: u128) -> (r: Option<u64>)
        requires
            old(self).wf(),
        ensures
            final(self).wf(),
            final(self).state() == old(self).state(),
            forall|x: u128| final(self).registered(x) == old(self).registered(x),
            final(self).peers().sessions() == old(self).peers().sessions().remove(c),
            r is Some <==> old(self).peers().sessions().contains_key(c),
    {
        let r = self.sessions.close(c);
        assert forall|x: u128| #[trigger] self.sessions.sessions().contains_key(x) implies self.registered(x) by {
            assert(old(self).sessions.sessions().contains_key(x));
        }
        r
    }
}

} // verus!
