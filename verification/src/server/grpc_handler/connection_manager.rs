//! Long-lived gRPC stream connections: each has an id, a user, maybe a room,
//! and a broadcast channel; the manager indexes them by user and by room so
//! that messages can be sent to a user's or a room's connections.
//!
//! The indexes always agree with the connections: a user (room) is listed
//! exactly while it has live connections, and lists exactly those, once
//! each.

use std::time::Instant;

use crossbeam_queue::SegQueue;
use dashmap::DashMap;
use tokio::sync::broadcast;
use vstd::prelude::*;

use crate::common::text::{decimal, decimal_string, lemma_decimal_injective, str_eq, texts};

verus! {

#[verifier::external_type_specification]
#[verifier::external_body]
pub struct ExInstant(Instant);

#[verifier::external_type_specification]
#[verifier::external_body]
#[verifier::reject_recursive_types(T)]
pub struct ExBroadcastSender<T>(broadcast::Sender<T>);

#[verifier::external_type_specification]
#[verifier::external_body]
#[verifier::reject_recursive_types(T)]
pub struct ExBroadcastReceiver<T>(broadcast::Receiver<T>);

#[verifier::external_type_specification]
#[verifier::external_body]
#[verifier::reject_recursive_types(T)]
pub struct ExSegQueue<T>(SegQueue<T>);

/// The kind of a long-lived gRPC connection.
#[derive(Debug, Clone, Copy, PartialEq, Eq, Structural)]
pub enum GrpcConnectionType {
    /// The client streams to the server.
    ClientStream,
    /// The server pushes to the client.
    ServerStream,
    /// Both stream.
    BidirectionalStream,
}

/// A live connection.
#[derive(Debug)]
pub struct GrpcConnection {
    /// Its id.
    pub connection_id: String,
    /// The user it belongs to.
    pub user_id: String,
    /// The room it joined, if any (for room broadcasts).
    pub room_id: Option<String>,
    /// Its kind.
    pub connection_type: GrpcConnectionType,
    /// When it was opened.
    pub connected_at: Instant,
    /// When it was last active.
    pub last_active: Instant,
    /// Where messages for it are sent.
    pub broadcast_tx: broadcast::Sender<Vec<u8>>,
}

/// What the manager knows of a connection: its user, its room and its kind.
pub type ConnectionView = (Seq<char>, Option<Seq<char>>, GrpcConnectionType);

/// Text of an optional string.
pub open spec fn opt_text(o: Option<String>) -> Option<Seq<char>> {
    match o {
        Some(s) => Some(s@),
        None => None,
    }
}

/// What the manager knows of a connection.
pub open spec fn connection_view(c: GrpcConnection) -> ConnectionView {
    (c.user_id@, opt_text(c.room_id), c.connection_type)
}

/// The live connections a map holds, by id.
pub uninterp spec fn live_connections(m: DashMap<String, GrpcConnection>) -> Map<Seq<char>, ConnectionView>;

/// The id lists an index map holds, by key.
pub uninterp spec fn index_lists(m: DashMap<String, Vec<String>>) -> Map<Seq<char>, Seq<Seq<char>>>;

/// The messages a queue holds, oldest first.
pub uninterp spec fn queued_messages(q: SegQueue<Vec<u8>>) -> Seq<Seq<u8>>;

/// `DashMap::new` for connections: none.
#[verifier::external_body]
fn new_connection_map() -> (r: DashMap<String, GrpcConnection>)
    ensures
        live_connections(r).dom() == Set::<Seq<char>>::empty(),
{
    DashMap::new()
}

/// `DashMap::insert` for connections.
#[verifier::external_body]
fn connections_insert(m: &mut DashMap<String, GrpcConnection>, id: String, c: GrpcConnection)
    ensures
        live_connections(*final(m)) == live_connections(*old(m)).insert(id@, connection_view(c)),
{
    m.insert(id, c);
}

/// `DashMap::remove` for connections: the removed connection, when there
/// was one.
#[verifier::external_body]
fn connections_remove(m: &mut DashMap<String, GrpcConnection>, id: &str) -> (r: Option<GrpcConnection>)
    ensures
        match r {
            Some(c) => live_connections(*old(m)).contains_key(id@) && live_connections(*old(m))[id@]
                == connection_view(c),
            None => !live_connections(*old(m)).contains_key(id@),
        },
        live_connections(*final(m)) == live_connections(*old(m)).remove(id@),
{
    m.remove(id).map(|(_, c)| c)
}

/// `DashMap::get`, with the connection's sender shared out of the entry.
#[verifier::external_body]
fn connection_sender(m: &DashMap<String, GrpcConnection>, id: &str) -> (r: Option<broadcast::Sender<Vec<u8>>>)
    ensures
        r is Some <==> live_connections(*m).contains_key(id@),
{
    m.get(id).map(|entry| entry.value().broadcast_tx.clone())
}

/// `DashMap::get_mut`, setting the connection's last activity; what the
/// manager knows of it does not change.
#[verifier::external_body]
fn connections_touch(m: &mut DashMap<String, GrpcConnection>, id: &str, now: Instant)
    ensures
        live_connections(*final(m)) == live_connections(*old(m)),
{
    if let Some(mut entry) = m.get_mut(id) {
        entry.last_active = now;
    }
}

/// `DashMap::iter` over connections, collected: each id once with its last
/// activity, in the map's own order.
#[verifier::external_body]
fn connections_activity(m: &DashMap<String, GrpcConnection>) -> (r: Vec<(String, Instant)>)
    ensures
        r@.map_values(|e: (String, Instant)| e.0@).to_set() == live_connections(*m).dom(),
        r@.map_values(|e: (String, Instant)| e.0@).no_duplicates(),
{
    m.iter().map(|entry| (entry.key().clone(), entry.value().last_active)).collect()
}

/// `DashMap::iter` over connections, collected: every connection's sender.
#[verifier::external_body]
fn connections_senders(m: &DashMap<String, GrpcConnection>) -> (r: Vec<broadcast::Sender<Vec<u8>>>)
    ensures
        r@.len() == live_connections(*m).dom().len(),
{
    m.iter().map(|entry| entry.value().broadcast_tx.clone()).collect()
}

/// `DashMap::len` for connections.
#[verifier::external_body]
fn connections_len(m: &DashMap<String, GrpcConnection>) -> (r: usize)
    ensures
        r == live_connections(*m).dom().len(),
{
    m.len()
}

/// `DashMap::new` for an index: no key.
#[verifier::external_body]
fn new_index_map() -> (r: DashMap<String, Vec<String>>)
    ensures
        index_lists(r).dom() == Set::<Seq<char>>::empty(),
{
    DashMap::new()
}

/// `DashMap::get` for an index, with the list copied out of the entry.
#[verifier::external_body]
fn index_get(m: &DashMap<String, Vec<String>>, key: &str) -> (r: Option<Vec<String>>)
    ensures
        match r {
            Some(v) => index_lists(*m).contains_key(key@) && index_lists(*m)[key@] == texts(v@),
            None => !index_lists(*m).contains_key(key@),
        },
{
    m.get(key).map(|entry| entry.value().clone())
}

/// `DashMap::insert` for an index: `key` now lists `ids`.
#[verifier::external_body]
fn index_set(m: &mut DashMap<String, Vec<String>>, key: String, ids: Vec<String>)
    ensures
        index_lists(*final(m)) == index_lists(*old(m)).insert(key@, texts(ids@)),
{
    m.insert(key, ids);
}

/// `DashMap::remove` for an index.
#[verifier::external_body]
fn index_remove(m: &mut DashMap<String, Vec<String>>, key: &str)
    ensures
        index_lists(*final(m)) == index_lists(*old(m)).remove(key@),
{
    m.remove(key);
}

/// `DashMap::len` for an index.
#[verifier::external_body]
fn index_len(m: &DashMap<String, Vec<String>>) -> (r: usize)
    ensures
        r == index_lists(*m).dom().len(),
{
    m.len()
}

/// `SegQueue::new`: an empty queue.
#[verifier::external_body]
fn new_history() -> (r: SegQueue<Vec<u8>>)
    ensures
        queued_messages(r) == Seq::<Seq<u8>>::empty(),
{
    SegQueue::new()
}

/// `SegQueue::push`: the message joins the end of the queue.
#[verifier::external_body]
fn history_push(q: &mut SegQueue<Vec<u8>>, message: Vec<u8>)
    ensures
        queued_messages(*final(q)) == queued_messages(*old(q)).push(message@),
{
    q.push(message);
}

/// `tokio::sync::broadcast::channel`: a channel keeping up to `capacity`
/// unread messages (it panics on a capacity of zero or above half the
/// address space, which `requires` leaves out).
#[verifier::external_body]
fn new_broadcast_channel(capacity: usize) -> (r: (broadcast::Sender<Vec<u8>>, broadcast::Receiver<Vec<u8>>))
    requires
        0 < capacity <= usize::MAX / 2,
{
    broadcast::channel(capacity)
}

/// `broadcast::Sender::send`: whether some receiver got the message (none
/// does once every receiver is dropped; only the running program knows).
#[verifier::external_body]
fn broadcast_send(sender: &broadcast::Sender<Vec<u8>>, message: Vec<u8>) -> (r: bool) {
    sender.send(message).is_ok()
}

/// `Instant::now`.
#[verifier::external_body]
fn instant_now() -> (r: Instant) {
    Instant::now()
}

/// `Instant::duration_since`, in nanoseconds: how long after `earlier` the
/// instant `later` is (zero when it is not after).
#[verifier::external_body]
fn nanos_since(later: &Instant, earlier: &Instant) -> (r: u128) {
    later.duration_since(*earlier).as_nanos()
}

// ---------------------------------------------------------------------------
// Id lists.
// ---------------------------------------------------------------------------

/// The list without `x`, in order.
pub open spec fn without(s: Seq<Seq<char>>, x: Seq<char>) -> Seq<Seq<char>>
    decreases s.len(),
{
    if s.len() == 0 {
        s
    } else {
        let rest = without(s.drop_last(), x);
        if s.last() == x {
            rest
        } else {
            rest.push(s.last())
        }
    }
}

proof fn lemma_without(s: Seq<Seq<char>>, x: Seq<char>)
    ensures
        forall|t: Seq<char>|
            #![trigger without(s, x).contains(t)]
            #![trigger s.contains(t)]
            without(s, x).contains(t) <==> (s.contains(t) && t != x),
        s.no_duplicates() ==> without(s, x).no_duplicates(),
    decreases s.len(),
{
    if s.len() > 0 {
        let d = s.drop_last();
        let last = s.last();
        lemma_without(d, x);
        let rest = without(d, x);
        let w = without(s, x);
        assert forall|t: Seq<char>| w.contains(t) <==> (s.contains(t) && t != x) by {
            if s.contains(t) && t != x {
                let i = choose|i: int| 0 <= i < s.len() && s[i] == t;
                if i < s.len() - 1 {
                    assert(d[i] == t);
                    assert(d.contains(t));
                    assert(rest.contains(t));
                    let j = choose|j: int| 0 <= j < rest.len() && rest[j] == t;
                    if last != x {
                        assert(w[j] == t);
                    }
                } else {
                    assert(last == t);
                    assert(w[rest.len() as int] == t);
                }
            }
            if w.contains(t) {
                let i = choose|i: int| 0 <= i < w.len() && w[i] == t;
                if i < rest.len() {
                    assert(w[i] == rest[i]);
                    assert(rest.contains(t));
                    assert(d.contains(t));
                    let j = choose|j: int| 0 <= j < d.len() && d[j] == t;
                    assert(s[j] == t);
                } else {
                    assert(last != x);
                    assert(s[s.len() - 1] == t);
                }
            }
        }
        if s.no_duplicates() {
            assert(d.no_duplicates()) by {
                assert forall|i: int, j: int| 0 <= i < j < d.len() implies d[i] != d[j] by {
                    assert(s[i] != s[j]);
                }
            }
            if last != x {
                assert(!rest.contains(last)) by {
                    if rest.contains(last) {
                        assert(d.contains(last));
                        let j = choose|j: int| 0 <= j < d.len() && d[j] == last;
                        assert(s[j] == s[s.len() - 1]);
                    }
                }
                assert forall|i: int, j: int| 0 <= i < j < w.len() implies w[i] != w[j] by {
                    if j == rest.len() {
                        assert(w[i] == rest[i]);
                        assert(rest.contains(rest[i]));
                    } else {
                        assert(w[i] == rest[i]);
                        assert(w[j] == rest[j]);
                    }
                }
            }
        }
    }
}

/// A copy of `list` without `id`.
fn list_without(list: &Vec<String>, id: &str) -> (r: Vec<String>)
    ensures
        texts(r@) == without(texts(list@), id@),
{
    let mut out: Vec<String> = Vec::new();
    let mut i: usize = 0;
    while i < list.len()
        invariant
            i <= list.len(),
            texts(out@) == without(texts(list@).take(i as int), id@),
        decreases list.len() - i,
    {
        let ghost before = out@;
        proof {
            assert(texts(list@).take(i + 1).drop_last() =~= texts(list@).take(i as int));
        }
        if !str_eq(list[i].as_str(), id) {
            out.push(list[i].clone());
            assert(texts(out@) =~= texts(before).push(texts(list@)[i as int]));
        }
        i = i + 1;
    }
    assert(texts(list@).take(i as int) =~= texts(list@));
    out
}

// ---------------------------------------------------------------------------
// Idle connections.
// ---------------------------------------------------------------------------

/// Connection ids with how long (nanoseconds) each has been idle.
pub open spec fn idle_view(v: Seq<(String, u128)>) -> Seq<(Seq<char>, u128)> {
    v.map_values(|e: (String, u128)| (e.0@, e.1))
}

/// The ids of `a` idle for longer than `limit` nanoseconds, in order.
pub open spec fn idle_beyond(a: Seq<(Seq<char>, u128)>, limit: int) -> Seq<Seq<char>>
    decreases a.len(),
{
    if a.len() == 0 {
        Seq::empty()
    } else {
        let rest = idle_beyond(a.drop_last(), limit);
        if a.last().1 > limit {
            rest.push(a.last().0)
        } else {
            rest
        }
    }
}

/// The ids of `a`.
pub open spec fn idle_ids(a: Seq<(Seq<char>, u128)>) -> Seq<Seq<char>> {
    a.map_values(|e: (Seq<char>, u128)| e.0)
}

/// What `idle_beyond` picks is among the ids of `a`, and once each when
/// they are.
proof fn lemma_idle_beyond(a: Seq<(Seq<char>, u128)>, limit: int)
    ensures
        forall|t: Seq<char>| #[trigger] idle_beyond(a, limit).contains(t) ==> idle_ids(a).contains(t),
        idle_ids(a).no_duplicates() ==> idle_beyond(a, limit).no_duplicates(),
    decreases a.len(),
{
    if a.len() > 0 {
        let d = a.drop_last();
        lemma_idle_beyond(d, limit);
        let rest = idle_beyond(d, limit);
        assert(idle_ids(d) =~= idle_ids(a).drop_last());
        assert forall|t: Seq<char>| #[trigger] idle_beyond(a, limit).contains(t) implies idle_ids(a).contains(t) by {
            if rest.contains(t) {
                let j = choose|j: int| 0 <= j < idle_ids(d).len() && idle_ids(d)[j] == t;
                assert(idle_ids(a)[j] == t);
            } else {
                assert(idle_ids(a)[a.len() - 1] == t);
            }
        }
        if idle_ids(a).no_duplicates() {
            assert(idle_ids(d).no_duplicates()) by {
                assert forall|i: int, j: int| 0 <= i < j < idle_ids(d).len() implies idle_ids(d)[i]
                    != idle_ids(d)[j] by {
                    assert(idle_ids(a)[i] != idle_ids(a)[j]);
                }
            }
            if a.last().1 > limit {
                let w = rest.push(a.last().0);
                assert(!rest.contains(a.last().0)) by {
                    if rest.contains(a.last().0) {
                        let j = choose|j: int| 0 <= j < idle_ids(d).len() && idle_ids(d)[j] == a.last().0;
                        assert(idle_ids(a)[j] == idle_ids(a)[a.len() - 1]);
                    }
                }
                assert forall|i: int, j: int| 0 <= i < j < w.len() implies w[i] != w[j] by {
                    if j == rest.len() {
                        assert(w[i] == rest[i]);
                        assert(rest.contains(rest[i]));
                    } else {
                        assert(w[i] == rest[i]);
                        assert(w[j] == rest[j]);
                    }
                }
            }
        }
    }
}

/// The ids in `activity` idle for longer than `timeout_secs` seconds, in
/// order; each entry pairs an id with how long (nanoseconds) it has been
/// idle.
pub fn ids_idle_beyond(activity: &Vec<(String, u128)>, timeout_secs: u64) -> (r: Vec<String>)
    ensures
        texts(r@) == idle_beyond(idle_view(activity@), timeout_secs * 1_000_000_000),
{
    let limit: u128 = (timeout_secs as u128) * 1_000_000_000u128;
    let ghost a = idle_view(activity@);
    let mut out: Vec<String> = Vec::new();
    let mut i: usize = 0;
    while i < activity.len()
        invariant
            i <= activity.len(),
            a == idle_view(activity@),
            limit == timeout_secs * 1_000_000_000,
            texts(out@) == idle_beyond(a.take(i as int), limit as int),
        decreases activity.len() - i,
    {
        let ghost before = out@;
        proof {
            assert(a.take(i + 1).drop_last() =~= a.take(i as int));
            assert(a.take(i + 1).last() == a[i as int]);
        }
        let (ref id, ref idle) = activity[i];
        if *idle > limit {
            out.push(id.clone());
            assert(texts(out@) =~= texts(before).push(id@));
        }
        i = i + 1;
    }
    assert(a.take(i as int) =~= a);
    out
}

/// How many of `ids` are live connections (counted once per listing).
pub open spec fn live_count(ids: Seq<Seq<char>>, conns: Map<Seq<char>, ConnectionView>) -> nat
    decreases ids.len(),
{
    if ids.len() == 0 {
        0
    } else {
        live_count(ids.drop_last(), conns) + if conns.contains_key(ids.last()) {
            1nat
        } else {
            0nat
        }
    }
}

/// At most every listed id counts.
proof fn lemma_live_count_le(ids: Seq<Seq<char>>, conns: Map<Seq<char>, ConnectionView>)
    ensures
        live_count(ids, conns) <= ids.len(),
    decreases ids.len(),
{
    if ids.len() > 0 {
        lemma_live_count_le(ids.drop_last(), conns);
    }
}

/// When every listed id is live, all of them count.
proof fn lemma_live_count_all(ids: Seq<Seq<char>>, conns: Map<Seq<char>, ConnectionView>)
    requires
        forall|i: int| 0 <= i < ids.len() ==> conns.contains_key(#[trigger] ids[i]),
    ensures
        live_count(ids, conns) == ids.len(),
    decreases ids.len(),
{
    if ids.len() > 0 {
        let d = ids.drop_last();
        assert forall|i: int| 0 <= i < d.len() implies conns.contains_key(#[trigger] d[i]) by {
            assert(d[i] == ids[i]);
        }
        lemma_live_count_all(d, conns);
        assert(conns.contains_key(ids[ids.len() - 1]));
    }
}

// ---------------------------------------------------------------------------
// The manager.
// ---------------------------------------------------------------------------

/// Every live connection is listed under its user and (when it has one)
/// its room.
pub open spec fn connections_indexed(
    conns: Map<Seq<char>, ConnectionView>,
    users: Map<Seq<char>, Seq<Seq<char>>>,
    rooms: Map<Seq<char>, Seq<Seq<char>>>,
) -> bool {
    forall|id: Seq<char>| #[trigger]
        conns.contains_key(id) ==> {
            &&& users.contains_key(conns[id].0)
            &&& users[conns[id].0].contains(id)
            &&& (conns[id].1 matches Some(room) ==> rooms.contains_key(room) && rooms[room].contains(id))
        }
}

/// Every listed key lists live connections of that key, at least one, each
/// once; `key_of` reads the key off a connection.
pub open spec fn index_sound(
    conns: Map<Seq<char>, ConnectionView>,
    index: Map<Seq<char>, Seq<Seq<char>>>,
    by_room: bool,
) -> bool {
    forall|k: Seq<char>| #[trigger]
        index.contains_key(k) ==> {
            &&& index[k].len() > 0
            &&& index[k].no_duplicates()
            &&& forall|i: int|
                0 <= i < index[k].len() ==> conns.contains_key(#[trigger] index[k][i]) && (if by_room {
                    conns[index[k][i]].1 == Some(k)
                } else {
                    conns[index[k][i]].0 == k
                })
        }
}

/// Live gRPC connections, indexed by user and by room.
pub struct GrpcConnectionManager {
    connections: DashMap<String, GrpcConnection>,
    user_connections: DashMap<String, Vec<String>>,
    room_connections: DashMap<String, Vec<String>>,
    connection_id_counter: u64,
    message_history: SegQueue<Vec<u8>>,
    keepalive_interval_secs: u64,
    connection_timeout_secs: u64,
}

impl GrpcConnectionManager {
    /// The live connections, by id.
    pub closed spec fn conns(&self) -> Map<Seq<char>, ConnectionView> {
        live_connections(self.connections)
    }

    /// The connection ids of each user.
    pub closed spec fn users(&self) -> Map<Seq<char>, Seq<Seq<char>>> {
        index_lists(self.user_connections)
    }

    /// The connection ids of each room.
    pub closed spec fn rooms(&self) -> Map<Seq<char>, Seq<Seq<char>>> {
        index_lists(self.room_connections)
    }

    /// The number the next connection id is made of.
    pub closed spec fn next_id(&self) -> nat {
        self.connection_id_counter as nat
    }

    /// Every message broadcast to a room, oldest first.
    pub closed spec fn history(&self) -> Seq<Seq<u8>> {
        queued_messages(self.message_history)
    }

    /// After how many idle seconds a connection expires.
    pub closed spec fn timeout_secs(&self) -> nat {
        self.connection_timeout_secs as nat
    }

    /// How often (seconds) keep-alive messages go out.
    pub closed spec fn keepalive_secs(&self) -> nat {
        self.keepalive_interval_secs as nat
    }

    /// The indexes agree with the connections, and every id is the decimal
    /// text of a number below the next one.
    pub open spec fn well_formed(&self) -> bool {
        &&& self.next_id() >= 1
        &&& forall|id: Seq<char>| #[trigger]
            self.conns().contains_key(id) ==> exists|k: nat| 1 <= k < self.next_id() && id == decimal(k)
        &&& connections_indexed(self.conns(), self.users(), self.rooms())
        &&& index_sound(self.conns(), self.users(), false)
        &&& index_sound(self.conns(), self.rooms(), true)
    }

    /// No connection yet; ids start at 1, keep-alive every 30 seconds,
    /// connections expire after 300 idle seconds.
    pub fn new() -> (r: Self)
        ensures
            r.well_formed(),
            r.conns().dom() == Set::<Seq<char>>::empty(),
            r.users().dom() == Set::<Seq<char>>::empty(),
            r.rooms().dom() == Set::<Seq<char>>::empty(),
            r.next_id() == 1,
            r.history() == Seq::<Seq<u8>>::empty(),
            r.keepalive_secs() == 30,
            r.timeout_secs() == 300,
    {
        GrpcConnectionManager {
            connections: new_connection_map(),
            user_connections: new_index_map(),
            room_connections: new_index_map(),
            connection_id_counter: 1,
            message_history: new_history(),
            keepalive_interval_secs: 30,
            connection_timeout_secs: 300,
        }
    }

    /// Opens a connection for `user_id` (in `room_id`, if given) with a new
    /// id, the decimal text of the next number; hands back the id and the
    /// receiving end of its channel (which keeps up to 1000 unread messages).
    pub fn add_connection(
        &mut self,
        user_id: String,
        room_id: Option<String>,
        connection_type: GrpcConnectionType,
    ) -> (r: (String, broadcast::Receiver<Vec<u8>>))
        requires
            old(self).well_formed(),
            old(self).next_id() < u64::MAX,
        ensures
            final(self).well_formed(),
            r.0@ == decimal(old(self).next_id()),
            !old(self).conns().contains_key(r.0@),
            final(self).conns() == old(self).conns().insert(r.0@, (user_id@, opt_text(room_id), connection_type)),
            final(self).next_id() == old(self).next_id() + 1,
            final(self).history() == old(self).history(),
    {
        let ghost old_conns = self.conns();
        let ghost old_users = self.users();
        let ghost old_rooms = self.rooms();
        let n = self.connection_id_counter;
        let connection_id = decimal_string(n);
        proof {
            if old_conns.contains_key(connection_id@) {
                let k = choose|k: nat| 1 <= k < n && connection_id@ == decimal(k);
                lemma_decimal_injective(k, n as nat);
            }
            assert forall|u: Seq<char>| #[trigger] old_users.contains_key(u) implies !old_users[u].contains(connection_id@) by {
                if old_users[u].contains(connection_id@) {
                    let i = choose|i: int| 0 <= i < old_users[u].len() && old_users[u][i] == connection_id@;
                    assert(old_conns.contains_key(old_users[u][i]));
                }
            }
            assert forall|rm: Seq<char>| #[trigger] old_rooms.contains_key(rm) implies !old_rooms[rm].contains(connection_id@) by {
                if old_rooms[rm].contains(connection_id@) {
                    let i = choose|i: int| 0 <= i < old_rooms[rm].len() && old_rooms[rm][i] == connection_id@;
                    assert(old_conns.contains_key(old_rooms[rm][i]));
                }
            }
        }
        self.connection_id_counter = n + 1;
        let (tx, rx) = new_broadcast_channel(1000);
        let now = instant_now();
        let connection = GrpcConnection {
            connection_id: connection_id.clone(),
            user_id: user_id.clone(),
            room_id: room_id.clone(),
            connection_type,
            connected_at: now,
            last_active: now,
            broadcast_tx: tx,
        };
        connections_insert(&mut self.connections, connection_id.clone(), connection);
        let mut user_list = match index_get(&self.user_connections, user_id.as_str()) {
            Some(l) => l,
            None => {
                let l: Vec<String> = Vec::new();
                assert(texts(l@) =~= Seq::<Seq<char>>::empty());
                l
            },
        };
        let ghost user_before = texts(user_list@);
        assert(user_before == (if old_users.contains_key(user_id@) { old_users[user_id@] } else { seq![] }));
        user_list.push(connection_id.clone());
        proof {
            assert(texts(user_list@) =~= user_before.push(connection_id@));
        }
        index_set(&mut self.user_connections, user_id.clone(), user_list);
        let ghost room_text = opt_text(room_id);
        match room_id {
            Some(room) => {
                let mut room_list = match index_get(&self.room_connections, room.as_str()) {
                    Some(l) => l,
                    None => {
                        let l: Vec<String> = Vec::new();
                        assert(texts(l@) =~= Seq::<Seq<char>>::empty());
                        l
                    },
                };
                let ghost room_before = texts(room_list@);
                assert(room_before == (if old_rooms.contains_key(room@) { old_rooms[room@] } else { seq![] }));
                room_list.push(connection_id.clone());
                proof {
                    assert(texts(room_list@) =~= room_before.push(connection_id@));
                }
                index_set(&mut self.room_connections, room, room_list);
            },
            None => {},
        }
        proof {
            let id = connection_id@;
            let view = (user_id@, room_text, connection_type);
            assert(self.conns() == old_conns.insert(id, view));
            lemma_add_keeps_index(old_conns, old_users, old_rooms, id, view, self.users(), self.rooms());
            assert forall|x: Seq<char>| #[trigger]
                self.conns().contains_key(x) implies exists|k: nat| 1 <= k < self.next_id() && x == decimal(k) by {
                if x == id {
                    assert(1 <= n && (n as nat) < self.next_id() && x == decimal(n as nat));
                } else {
                    assert(old_conns.contains_key(x));
                    let k = choose|k: nat| 1 <= k < n && x == decimal(k);
                    assert(1 <= k < self.next_id() && x == decimal(k));
                }
            }
        }
        (connection_id, rx)
    }

    /// Closes a connection: it leaves the connections and its user's and
    /// room's lists; a user or room left with no connection is dropped.
    pub fn remove_connection(&mut self, connection_id: &str)
        requires
            old(self).well_formed(),
        ensures
            final(self).well_formed(),
            final(self).conns() == old(self).conns().remove(connection_id@),
            final(self).next_id() == old(self).next_id(),
            final(self).history() == old(self).history(),
    {
        let ghost old_conns = self.conns();
        let ghost old_users = self.users();
        let ghost old_rooms = self.rooms();
        match connections_remove(&mut self.connections, connection_id) {
            Some(c) => {
                let ghost view = connection_view(c);
                match index_get(&self.user_connections, c.user_id.as_str()) {
                    Some(list) => {
                        let kept = list_without(&list, connection_id);
                        if kept.len() == 0 {
                            index_remove(&mut self.user_connections, c.user_id.as_str());
                        } else {
                            index_set(&mut self.user_connections, c.user_id.clone(), kept);
                        }
                    },
                    None => {},
                }
                match &c.room_id {
                    Some(room) => {
                        match index_get(&self.room_connections, room.as_str()) {
                            Some(list) => {
                                let kept = list_without(&list, connection_id);
                                if kept.len() == 0 {
                                    index_remove(&mut self.room_connections, room.as_str());
                                } else {
                                    index_set(&mut self.room_connections, room.clone(), kept);
                                }
                            },
                            None => {},
                        }
                    },
                    None => {},
                }
                proof {
                    lemma_remove_keeps_index(
                        old_conns,
                        old_users,
                        old_rooms,
                        connection_id@,
                        self.users(),
                        self.rooms(),
                    );
                }
            },
            None => {
                assert(self.conns() =~= old_conns.remove(connection_id@));
            },
        }
    }

    /// Notes activity on a connection now.
    pub fn update_activity(&mut self, connection_id: &str)
        requires
            old(self).well_formed(),
        ensures
            final(self).well_formed(),
            final(self).conns() == old(self).conns(),
            final(self).users() == old(self).users(),
            final(self).rooms() == old(self).rooms(),
            final(self).next_id() == old(self).next_id(),
            final(self).history() == old(self).history(),
    {
        let now = instant_now();
        connections_touch(&mut self.connections, connection_id, now);
    }

    /// Hands `message` to the channel of every listed id that is a live
    /// connection, one after the other; how many that was. Whether a channel
    /// still has a receiver to take it only the running program knows.
    fn send_to_listed(&self, ids: &Vec<String>, message: &Vec<u8>) -> (r: usize)
        ensures
            r == live_count(texts(ids@), self.conns()),
    {
        let mut sent: usize = 0;
        let mut i: usize = 0;
        while i < ids.len()
            invariant
                i <= ids.len(),
                sent == live_count(texts(ids@).take(i as int), self.conns()),
                sent <= i,
            decreases ids.len() - i,
        {
            proof {
                let t = texts(ids@);
                assert(t.take(i + 1).drop_last() =~= t.take(i as int));
                assert(t.take(i + 1).last() == ids@[i as int]@);
            }
            match connection_sender(&self.connections, ids[i].as_str()) {
                Some(tx) => {
                    let _ = broadcast_send(&tx, message.clone());
                    sent = sent + 1;
                },
                None => {},
            }
            i = i + 1;
        }
        assert(texts(ids@).take(i as int) =~= texts(ids@));
        sent
    }

    /// Records `message` in the history and sends it to every live
    /// connection of the room; the number of connections it was sent to is
    /// returned (every one listed for the room, on a well-formed manager).
    pub fn broadcast_to_room(&mut self, room_id: &str, message: Vec<u8>) -> (r: usize)
        requires
            old(self).well_formed(),
        ensures
            final(self).well_formed(),
            final(self).history() == old(self).history().push(message@),
            final(self).conns() == old(self).conns(),
            final(self).users() == old(self).users(),
            final(self).rooms() == old(self).rooms(),
            final(self).next_id() == old(self).next_id(),
            r <= (if old(self).rooms().contains_key(room_id@) { old(self).rooms()[room_id@].len() } else { 0 }),
            r == (if old(self).rooms().contains_key(room_id@) { old(self).rooms()[room_id@].len() } else { 0 }),
    {
        history_push(&mut self.message_history, message.clone());
        match index_get(&self.room_connections, room_id) {
            Some(ids) => {
                proof {
                    let l = texts(ids@);
                    assert(self.rooms().contains_key(room_id@));
                    assert forall|k: int| 0 <= k < l.len() implies self.conns().contains_key(#[trigger] l[k]) by {
                        assert(self.rooms()[room_id@][k] == l[k]);
                    }
                    lemma_live_count_all(l, self.conns());
                }
                self.send_to_listed(&ids, &message)
            },
            None => 0,
        }
    }

    /// Sends `message` to every live connection listed for the user; the
    /// number of connections it was sent to is returned (every one listed
    /// for the user, on a well-formed manager).
    pub fn send_to_user(&self, user_id: &str, message: Vec<u8>) -> (r: usize)
        ensures
            r <= (if self.users().contains_key(user_id@) { self.users()[user_id@].len() } else { 0 }),
            r == (if self.users().contains_key(user_id@) { live_count(self.users()[user_id@], self.conns()) } else { 0 }),
            self.well_formed() ==> r == (if self.users().contains_key(user_id@) { self.users()[user_id@].len() } else { 0 }),
    {
        match index_get(&self.user_connections, user_id) {
            Some(ids) => {
                let r = self.send_to_listed(&ids, &message);
                proof {
                    lemma_live_count_le(texts(ids@), self.conns());
                    if self.well_formed() {
                        let l = texts(ids@);
                        assert forall|k: int| 0 <= k < l.len() implies self.conns().contains_key(#[trigger] l[k]) by {
                            assert(self.users()[user_id@][k] == l[k]);
                        }
                        lemma_live_count_all(l, self.conns());
                    }
                }
                r
            },
            None => 0,
        }
    }

    /// The connections idle for longer than the timeout, as of `now`: each
    /// live connection's idle time is read off the clock values it holds, and
    /// those past the timeout are picked by `ids_idle_beyond`. Each comes
    /// once; which ones depends on the clock.
    pub fn expired_connection_ids(&self, now: &Instant) -> (r: Vec<String>)
        ensures
            forall|i: int| 0 <= i < r@.len() ==> self.conns().contains_key(#[trigger] r@[i]@),
            texts(r@).no_duplicates(),
    {
        let activity = connections_activity(&self.connections);
        let ghost ids = activity@.map_values(|e: (String, Instant)| e.0@);
        let mut idle: Vec<(String, u128)> = Vec::new();
        let mut i: usize = 0;
        while i < activity.len()
            invariant
                i <= activity.len(),
                ids == activity@.map_values(|e: (String, Instant)| e.0@),
                idle_ids(idle_view(idle@)) == ids.take(i as int),
            decreases activity.len() - i,
        {
            let (ref id, ref last_active) = activity[i];
            let ghost before = idle@;
            idle.push((id.clone(), nanos_since(now, last_active)));
            proof {
                assert(idle_ids(idle_view(idle@)) =~= idle_ids(idle_view(before)).push(id@));
                assert(ids.take(i + 1) =~= ids.take(i as int).push(ids[i as int]));
            }
            i = i + 1;
        }
        proof {
            assert(ids.take(i as int) =~= ids);
            lemma_idle_beyond(idle_view(idle@), self.connection_timeout_secs * 1_000_000_000);
        }
        let out = ids_idle_beyond(&idle, self.connection_timeout_secs);
        proof {
            assert forall|k: int| 0 <= k < out@.len() implies self.conns().contains_key(#[trigger] out@[k]@) by {
                assert(texts(out@)[k] == out@[k]@);
                assert(texts(out@).contains(out@[k]@));
                assert(ids.contains(out@[k]@));
                assert(ids.to_set().contains(out@[k]@));
            }
        }
        out
    }

    /// Closes each listed connection, as `remove_connection` does; the rest
    /// stay as they are.
    pub fn remove_connections(&mut self, ids: &Vec<String>)
        requires
            old(self).well_formed(),
        ensures
            final(self).well_formed(),
            final(self).conns() == old(self).conns().remove_keys(texts(ids@).to_set()),
            final(self).next_id() == old(self).next_id(),
            final(self).history() == old(self).history(),
    {
        let mut i: usize = 0;
        while i < ids.len()
            invariant
                i <= ids.len(),
                self.well_formed(),
                self.conns() == old(self).conns().remove_keys(texts(ids@).take(i as int).to_set()),
                self.next_id() == old(self).next_id(),
                self.history() == old(self).history(),
            decreases ids.len() - i,
        {
            let ghost before = self.conns();
            self.remove_connection(ids[i].as_str());
            proof {
                let t = texts(ids@);
                assert(t.take(i + 1).to_set() =~= t.take(i as int).to_set().insert(t[i as int])) by {
                    assert(t.take(i + 1) =~= t.take(i as int).push(t[i as int]));
                    t.take(i as int).lemma_push_to_set_commute(t[i as int]);
                }
                assert(self.conns() =~= old(self).conns().remove_keys(t.take(i + 1).to_set()));
            }
            i = i + 1;
        }
        assert(texts(ids@).take(i as int) =~= texts(ids@));
    }

    /// Closes every connection idle for longer than the timeout (those that
    /// `expired_connection_ids` names at this moment).
    pub fn cleanup_expired_connections(&mut self)
        requires
            old(self).well_formed(),
        ensures
            final(self).well_formed(),
            final(self).conns().dom().subset_of(old(self).conns().dom()),
            forall|id: Seq<char>| #[trigger]
                final(self).conns().contains_key(id) ==> final(self).conns()[id] == old(self).conns()[id],
            final(self).next_id() == old(self).next_id(),
            final(self).history() == old(self).history(),
    {
        let now = instant_now();
        let expired = self.expired_connection_ids(&now);
        self.remove_connections(&expired);
    }

    /// Sends `keepalive` to every connection; the number of connections it
    /// was sent to (all of them) is returned.
    pub fn send_keepalive(&self) -> (r: usize)
        ensures
            r <= self.conns().dom().len(),
            r == self.conns().dom().len(),
    {
        let senders = connections_senders(&self.connections);
        let mut sent: usize = 0;
        let mut i: usize = 0;
        while i < senders.len()
            invariant
                i <= senders.len(),
                sent == i,
            decreases senders.len() - i,
        {
            let keepalive: Vec<u8> = vec![0x6bu8, 0x65u8, 0x65u8, 0x70u8, 0x61u8, 0x6cu8, 0x69u8, 0x76u8, 0x65u8];
            let _ = broadcast_send(&senders[i], keepalive);
            sent = sent + 1;
            i = i + 1;
        }
        sent
    }

    /// How many connections, users and rooms there are.
    pub fn get_stats(&self) -> (r: (usize, usize, usize))
        ensures
            r.0 == self.conns().dom().len(),
            r.1 == self.users().dom().len(),
            r.2 == self.rooms().dom().len(),
    {
        (
            connections_len(&self.connections),
            index_len(&self.user_connections),
            index_len(&self.room_connections),
        )
    }
}

/// Adding a fresh connection to the maps and appending it to its user's and
/// room's lists keeps the indexes in agreement.
proof fn lemma_add_keeps_index(
    conns: Map<Seq<char>, ConnectionView>,
    users: Map<Seq<char>, Seq<Seq<char>>>,
    rooms: Map<Seq<char>, Seq<Seq<char>>>,
    id: Seq<char>,
    view: ConnectionView,
    users2: Map<Seq<char>, Seq<Seq<char>>>,
    rooms2: Map<Seq<char>, Seq<Seq<char>>>,
)
    requires
        !conns.contains_key(id),
        connections_indexed(conns, users, rooms),
        index_sound(conns, users, false),
        index_sound(conns, rooms, true),
        forall|u: Seq<char>| #[trigger] users.contains_key(u) ==> !users[u].contains(id),
        forall|rm: Seq<char>| #[trigger] rooms.contains_key(rm) ==> !rooms[rm].contains(id),
        users2 == users.insert(view.0, (if users.contains_key(view.0) { users[view.0] } else { seq![] }).push(id)),
        rooms2 == (match view.1 {
            Some(rm) => rooms.insert(rm, (if rooms.contains_key(rm) { rooms[rm] } else { seq![] }).push(id)),
            None => rooms,
        }),
    ensures
        connections_indexed(conns.insert(id, view), users2, rooms2),
        index_sound(conns.insert(id, view), users2, false),
        index_sound(conns.insert(id, view), rooms2, true),
{
    let c2 = conns.insert(id, view);
    assert forall|x: Seq<char>| #[trigger] c2.contains_key(x) implies {
        &&& users2.contains_key(c2[x].0)
        &&& users2[c2[x].0].contains(x)
        &&& (c2[x].1 matches Some(room) ==> rooms2.contains_key(room) && rooms2[room].contains(x))
    } by {
        if x == id {
            let l = (if users.contains_key(view.0) { users[view.0] } else { seq![] }).push(id);
            assert(l[l.len() - 1] == id);
            if let Some(rm) = view.1 {
                let lr = (if rooms.contains_key(rm) { rooms[rm] } else { seq![] }).push(id);
                assert(lr[lr.len() - 1] == id);
            }
        } else {
            assert(conns.contains_key(x));
            let u = conns[x].0;
            let j = choose|j: int| 0 <= j < users[u].len() && users[u][j] == x;
            if u == view.0 {
                assert(users2[u][j] == x);
            }
            if let Some(rm) = conns[x].1 {
                let k = choose|k: int| 0 <= k < rooms[rm].len() && rooms[rm][k] == x;
                if view.1 == Some(rm) {
                    assert(rooms2[rm][k] == x);
                }
            }
        }
    }
    assert forall|k: Seq<char>| #[trigger] users2.contains_key(k) implies {
        &&& users2[k].len() > 0
        &&& users2[k].no_duplicates()
        &&& forall|i: int|
            0 <= i < users2[k].len() ==> c2.contains_key(#[trigger] users2[k][i]) && c2[users2[k][i]].0 == k
    } by {
        if k == view.0 {
            let base = if users.contains_key(view.0) { users[view.0] } else { seq![] };
            assert(users2[k] == base.push(id));
            assert forall|i: int, j: int| 0 <= i < j < users2[k].len() implies users2[k][i] != users2[k][j] by {
                if j == base.len() {
                    if users.contains_key(view.0) {
                        assert(base.contains(base[i]));
                    }
                } else {
                    assert(users.contains_key(view.0));
                }
            }
            assert forall|i: int| 0 <= i < users2[k].len() implies c2.contains_key(#[trigger] users2[k][i]) && c2[users2[k][i]].0 == k by {
                if i < base.len() {
                    assert(users.contains_key(view.0));
                    assert(users2[k][i] == users[k][i]);
                }
            }
        } else {
            assert forall|i: int| 0 <= i < users2[k].len() implies c2.contains_key(#[trigger] users2[k][i]) && c2[users2[k][i]].0 == k by {
                assert(users[k].contains(users[k][i]));
            }
        }
    }
    assert forall|k: Seq<char>| #[trigger] rooms2.contains_key(k) implies {
        &&& rooms2[k].len() > 0
        &&& rooms2[k].no_duplicates()
        &&& forall|i: int|
            0 <= i < rooms2[k].len() ==> c2.contains_key(#[trigger] rooms2[k][i]) && c2[rooms2[k][i]].1 == Some(k)
    } by {
        if view.1 == Some(k) {
            let base = if rooms.contains_key(k) { rooms[k] } else { seq![] };
            assert(rooms2[k] == base.push(id));
            assert forall|i: int, j: int| 0 <= i < j < rooms2[k].len() implies rooms2[k][i] != rooms2[k][j] by {
                if j == base.len() {
                    if rooms.contains_key(k) {
                        assert(base.contains(base[i]));
                    }
                } else {
                    assert(rooms.contains_key(k));
                }
            }
            assert forall|i: int| 0 <= i < rooms2[k].len() implies c2.contains_key(#[trigger] rooms2[k][i]) && c2[rooms2[k][i]].1 == Some(k) by {
                if i < base.len() {
                    assert(rooms.contains_key(k));
                    assert(rooms2[k][i] == rooms[k][i]);
                }
            }
        } else {
            assert(rooms.contains_key(k));
            assert forall|i: int| 0 <= i < rooms2[k].len() implies c2.contains_key(#[trigger] rooms2[k][i]) && c2[rooms2[k][i]].1 == Some(k) by {
                assert(rooms[k].contains(rooms[k][i]));
            }
        }
    }
}

/// Removing a connection, and dropping it from its user's and room's lists
/// (dropping a list left empty), keeps the indexes in agreement.
proof fn lemma_remove_keeps_index(
    conns: Map<Seq<char>, ConnectionView>,
    users: Map<Seq<char>, Seq<Seq<char>>>,
    rooms: Map<Seq<char>, Seq<Seq<char>>>,
    id: Seq<char>,
    users2: Map<Seq<char>, Seq<Seq<char>>>,
    rooms2: Map<Seq<char>, Seq<Seq<char>>>,
)
    requires
        conns.contains_key(id),
        connections_indexed(conns, users, rooms),
        index_sound(conns, users, false),
        index_sound(conns, rooms, true),
        users2 == (if without(users[conns[id].0], id).len() == 0 {
            users.remove(conns[id].0)
        } else {
            users.insert(conns[id].0, without(users[conns[id].0], id))
        }),
        rooms2 == (match conns[id].1 {
            Some(rm) => if without(rooms[rm], id).len() == 0 {
                rooms.remove(rm)
            } else {
                rooms.insert(rm, without(rooms[rm], id))
            },
            None => rooms,
        }),
    ensures
        connections_indexed(conns.remove(id), users2, rooms2),
        index_sound(conns.remove(id), users2, false),
        index_sound(conns.remove(id), rooms2, true),
{
    let c2 = conns.remove(id);
    let u0 = conns[id].0;
    lemma_without(users[u0], id);
    if let Some(rm) = conns[id].1 {
        lemma_without(rooms[rm], id);
    }
    assert forall|x: Seq<char>| #[trigger] c2.contains_key(x) implies {
        &&& users2.contains_key(c2[x].0)
        &&& users2[c2[x].0].contains(x)
        &&& (c2[x].1 matches Some(room) ==> rooms2.contains_key(room) && rooms2[room].contains(x))
    } by {
        assert(conns.contains_key(x));
        let u = conns[x].0;
        if u == u0 {
            assert(users[u].contains(x));
            assert(without(users[u0], id).contains(x));
        }
        if let Some(rm) = conns[x].1 {
            if conns[id].1 == Some(rm) {
                assert(rooms[rm].contains(x));
                lemma_without(rooms[rm], id);
                assert(without(rooms[rm], id).contains(x));
            }
        }
    }
    assert forall|k: Seq<char>| #[trigger] users2.contains_key(k) implies {
        &&& users2[k].len() > 0
        &&& users2[k].no_duplicates()
        &&& forall|i: int|
            0 <= i < users2[k].len() ==> c2.contains_key(#[trigger] users2[k][i]) && c2[users2[k][i]].0 == k
    } by {
        if k == u0 {
            let w = without(users[u0], id);
            assert(users2[k] == w);
            assert forall|i: int| 0 <= i < users2[k].len() implies c2.contains_key(#[trigger] users2[k][i]) && c2[users2[k][i]].0 == k by {
                assert(w.contains(w[i]));
                assert(users[u0].contains(w[i]) && w[i] != id);
                let j = choose|j: int| 0 <= j < users[u0].len() && users[u0][j] == w[i];
                assert(conns.contains_key(users[u0][j]));
            }
        } else {
            assert forall|i: int| 0 <= i < users2[k].len() implies c2.contains_key(#[trigger] users2[k][i]) && c2[users2[k][i]].0 == k by {
                assert(conns.contains_key(users[k][i]));
                assert(users[k][i] != id);
            }
        }
    }
    assert forall|k: Seq<char>| #[trigger] rooms2.contains_key(k) implies {
        &&& rooms2[k].len() > 0
        &&& rooms2[k].no_duplicates()
        &&& forall|i: int|
            0 <= i < rooms2[k].len() ==> c2.contains_key(#[trigger] rooms2[k][i]) && c2[rooms2[k][i]].1 == Some(k)
    } by {
        if conns[id].1 == Some(k) {
            let w = without(rooms[k], id);
            lemma_without(rooms[k], id);
            assert(rooms2[k] == w);
            assert forall|i: int| 0 <= i < rooms2[k].len() implies c2.contains_key(#[trigger] rooms2[k][i]) && c2[rooms2[k][i]].1 == Some(k) by {
                assert(w.contains(w[i]));
                assert(rooms[k].contains(w[i]) && w[i] != id);
                let j = choose|j: int| 0 <= j < rooms[k].len() && rooms[k][j] == w[i];
                assert(conns.contains_key(rooms[k][j]));
            }
        } else {
            assert forall|i: int| 0 <= i < rooms2[k].len() implies c2.contains_key(#[trigger] rooms2[k][i]) && c2[rooms2[k][i]].1 == Some(k) by {
                assert(conns.contains_key(rooms[k][i]));
                assert(rooms[k][i] != id);
            }
        }
    }
}

/// While the manager is well formed, a user lists exactly its live
/// connections: an id is under user `u` if and only if it is a live
/// connection of `u`.
pub proof fn lemma_user_lists_exactly_its_connections(m: GrpcConnectionManager, u: Seq<char>, id: Seq<char>)
    requires
        m.well_formed(),
    ensures
        (m.users().contains_key(u) && m.users()[u].contains(id)) <==> (m.conns().contains_key(id)
            && m.conns()[id].0 == u),
{
    if m.users().contains_key(u) && m.users()[u].contains(id) {
        let i = choose|i: int| 0 <= i < m.users()[u].len() && m.users()[u][i] == id;
        assert(m.conns().contains_key(m.users()[u][i]));
    }
}

/// Likewise for rooms: an id is under room `rm` if and only if it is a live
/// connection in `rm`.
pub proof fn lemma_room_lists_exactly_its_connections(m: GrpcConnectionManager, rm: Seq<char>, id: Seq<char>)
    requires
        m.well_formed(),
    ensures
        (m.rooms().contains_key(rm) && m.rooms()[rm].contains(id)) <==> (m.conns().contains_key(id)
            && m.conns()[id].1 == Some(rm)),
{
    if m.rooms().contains_key(rm) && m.rooms()[rm].contains(id) {
        let i = choose|i: int| 0 <= i < m.rooms()[rm].len() && m.rooms()[rm][i] == id;
        assert(m.conns().contains_key(m.rooms()[rm][i]));
    }
}

} // verus!
