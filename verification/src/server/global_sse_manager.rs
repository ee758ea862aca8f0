//! Server-sent events: a registry of open event streams by connection id,
//! the text of the events sent on them, and broadcasting to all of them.
//!
//! Each registered connection owns the sending half of an unbounded channel;
//! the caller turns the receiving half into the response body. A send fails
//! once that body has been dropped (the client left).

use std::sync::Arc;

use dashmap::DashMap;
use tokio::sync::mpsc::{UnboundedReceiver, UnboundedSender};
use vstd::prelude::*;

use crate::common::text::{concat, texts};

verus! {

#[verifier::external_type_specification]
#[verifier::external_body]
#[verifier::reject_recursive_types(K)]
#[verifier::reject_recursive_types(V)]
#[verifier::reject_recursive_types(S)]
pub struct ExDashMap<K, V, S>(DashMap<K, V, S>);

#[verifier::external_type_specification]
#[verifier::external_body]
#[verifier::reject_recursive_types(T)]
pub struct ExUnboundedSender<T>(UnboundedSender<T>);

#[verifier::external_type_specification]
#[verifier::external_body]
#[verifier::reject_recursive_types(T)]
pub struct ExUnboundedReceiver<T>(UnboundedReceiver<T>);

/// The sending half of a connection's event stream.
pub type SseSender = Arc<UnboundedSender<String>>;

/// The connection ids a registry holds (each with its sender).
pub uninterp spec fn registered_ids(m: DashMap<String, SseSender>) -> Set<Seq<char>>;

/// `DashMap::new`: an empty registry.
#[verifier::external_body]
fn new_registry() -> (r: DashMap<String, SseSender>)
    ensures
        registered_ids(r) == Set::<Seq<char>>::empty(),
{
    DashMap::new()
}

/// `DashMap::insert`: the id now maps to `sender` (replacing any earlier
/// one). It does not unwind: the shard lock does not poison, and running out
/// of memory aborts.
#[verifier::external_body]
fn registry_insert(m: &mut DashMap<String, SseSender>, id: String, sender: SseSender)
    ensures
        registered_ids(*final(m)) == registered_ids(*old(m)).insert(id@),
        registered_ids(*old(m)).finite() ==> registered_ids(*final(m)).finite(),
    no_unwind
{
    m.insert(id, sender);
}

/// `DashMap::get`, with the sender shared out of the entry: the sender of
/// `id`, when registered.
#[verifier::external_body]
fn registry_get(m: &DashMap<String, SseSender>, id: &str) -> (r: Option<SseSender>)
    ensures
        r is Some <==> registered_ids(*m).contains(id@),
{
    m.get(id).map(|entry| Arc::clone(entry.value()))
}

/// `DashMap::remove`: takes `id` out; its sender comes back when it was
/// registered. It does not unwind (the shard lock does not poison).
#[verifier::external_body]
fn registry_remove(m: &mut DashMap<String, SseSender>, id: &str) -> (r: Option<SseSender>)
    ensures
        r is Some <==> registered_ids(*old(m)).contains(id@),
        registered_ids(*final(m)) == registered_ids(*old(m)).remove(id@),
        registered_ids(*old(m)).finite() ==> registered_ids(*final(m)).finite(),
    no_unwind
{
    m.remove(id).map(|(_, sender)| sender)
}

/// `DashMap::len`: how many ids are registered.
#[verifier::external_body]
fn registry_len(m: &DashMap<String, SseSender>) -> (r: usize)
    ensures
        r == registered_ids(*m).len(),
{
    m.len()
}

/// `DashMap::contains_key`.
#[verifier::external_body]
fn registry_contains(m: &DashMap<String, SseSender>, id: &str) -> (r: bool)
    ensures
        r == registered_ids(*m).contains(id@),
{
    m.contains_key(id)
}

/// `DashMap::clear`: no id stays registered. It does not unwind (the shard
/// locks do not poison).
#[verifier::external_body]
fn registry_clear(m: &mut DashMap<String, SseSender>)
    ensures
        registered_ids(*final(m)) == Set::<Seq<char>>::empty(),
    no_unwind
{
    m.clear();
}

/// `DashMap::iter`, collected: every registered id with its sender, each id
/// once, in the map's own (unspecified) order.
#[verifier::external_body]
fn registry_entries(m: &DashMap<String, SseSender>) -> (r: Vec<(String, SseSender)>)
    ensures
        r@.map_values(|e: (String, SseSender)| e.0@).to_set() == registered_ids(*m),
        r@.map_values(|e: (String, SseSender)| e.0@).no_duplicates(),
{
    m.iter().map(|entry| (entry.key().clone(), Arc::clone(entry.value()))).collect()
}

/// `tokio::sync::mpsc::unbounded_channel`: a new channel's two halves.
#[verifier::external_body]
fn new_event_channel() -> (r: (UnboundedSender<String>, UnboundedReceiver<String>)) {
    tokio::sync::mpsc::unbounded_channel()
}

/// `UnboundedSender::send`: queues `text` on the stream. It fails when the
/// receiving half is gone, which only the running program knows; the failure
/// comes back as the error's debug text, which is always `SendError { .. }`.
#[verifier::external_body]
fn send_text(sender: &UnboundedSender<String>, text: String) -> (r: Result<(), String>)
    ensures
        r matches Err(e) ==> e@ == "SendError { .. }"@,
{
    sender.send(text).map_err(|e| format!("{:?}", e))
}

/// The text of an event with a type: `event: <type>`, `data: <data>`, then
/// a blank line.
pub open spec fn event_text(event: Seq<char>, data: Seq<char>) -> Seq<char> {
    "event: "@ + event + "\ndata: "@ + data + "\n\n"@
}

/// The text of a data-only event: `data: <data>`, then a blank line.
pub open spec fn data_text(data: Seq<char>) -> Seq<char> {
    "data: "@ + data + "\n\n"@
}

/// The text of an event with a type.
pub fn format_event(event: &str, data: &str) -> (r: String)
    ensures
        r@ == event_text(event@, data@),
{
    let mut s = concat("event: ", event);
    s.append("\ndata: ");
    s.append(data);
    s.append("\n\n");
    s
}

/// The text of a data-only event.
pub fn format_data(data: &str) -> (r: String)
    ensures
        r@ == data_text(data@),
{
    let mut s = concat("data: ", data);
    s.append("\n\n");
    s
}

/// The headers of an event-stream response: `Content-Type:
/// text/event-stream`, no caching, kept alive, open to every origin.
pub fn event_stream_headers() -> (r: Vec<(String, String)>)
    ensures
        r@.map_values(|h: (String, String)| (h.0@, h.1@)) == seq![
            ("Content-Type"@, "text/event-stream"@),
            ("Cache-Control"@, "no-cache"@),
            ("Connection"@, "keep-alive"@),
            ("Access-Control-Allow-Origin"@, "*"@),
        ],
{
    let r: Vec<(String, String)> = vec![
        (String::from_str("Content-Type"), String::from_str("text/event-stream")),
        (String::from_str("Cache-Control"), String::from_str("no-cache")),
        (String::from_str("Connection"), String::from_str("keep-alive")),
        (String::from_str("Access-Control-Allow-Origin"), String::from_str("*")),
    ];
    assert(r@.map_values(|h: (String, String)| (h.0@, h.1@)) =~= seq![
        ("Content-Type"@, "text/event-stream"@),
        ("Cache-Control"@, "no-cache"@),
        ("Connection"@, "keep-alive"@),
        ("Access-Control-Allow-Origin"@, "*"@),
    ]);
    r
}

/// The outcome of sending to a connection: `连接不存在` when the id is not
/// registered; otherwise success, or the send's failure under `prefix`.
pub open spec fn send_outcome(registered: bool, prefix: Seq<char>, r: Result<(), String>) -> bool {
    if !registered {
        r matches Err(e) && e@ == "连接不存在"@
    } else {
        r is Ok || (r matches Err(e) && e@ == prefix + "SendError { .. }"@)
    }
}

/// Open event streams by connection id.
pub struct GlobalSseManager {
    connections: DashMap<String, SseSender>,
}

impl GlobalSseManager {
    /// The ids of the open streams.
    pub closed spec fn ids(&self) -> Set<Seq<char>> {
        registered_ids(self.connections)
    }

    /// Finitely many streams are open.
    #[verifier::type_invariant]
    spec fn finitely_many(&self) -> bool {
        registered_ids(self.connections).finite()
    }

    /// A manager with no stream.
    pub fn new() -> (r: Self)
        ensures
            r.ids() == Set::<Seq<char>>::empty(),
    {
        GlobalSseManager { connections: new_registry() }
    }

    /// Opens a stream under `connection_id` (replacing any stream of that id)
    /// and hands back its receiving half, from which the response body is
    /// made (with `event_stream_headers`).
    pub fn register_connection(&mut self, connection_id: String) -> (r: UnboundedReceiver<String>)
        ensures
            final(self).ids() == old(self).ids().insert(connection_id@),
    {
        proof {
            use_type_invariant(&*self);
        }
        let (sender, receiver) = new_event_channel();
        registry_insert(&mut self.connections, connection_id, Arc::new(sender));
        receiver
    }

    /// Sends an event with a type to one stream.
    pub fn send_event(&self, connection_id: &str, event: &str, data: &str) -> (r: Result<(), String>)
        ensures
            send_outcome(self.ids().contains(connection_id@), "发送SSE事件失败: "@, r),
    {
        match registry_get(&self.connections, connection_id) {
            Some(sender) => match send_text(&sender, format_event(event, data)) {
                Ok(()) => Ok(()),
                Err(e) => Err(concat("发送SSE事件失败: ", e.as_str())),
            },
            None => Err(String::from_str("连接不存在")),
        }
    }

    /// Sends a data-only event to one stream.
    pub fn send_data(&self, connection_id: &str, data: &str) -> (r: Result<(), String>)
        ensures
            send_outcome(self.ids().contains(connection_id@), "发送SSE数据失败: "@, r),
    {
        match registry_get(&self.connections, connection_id) {
            Some(sender) => match send_text(&sender, format_data(data)) {
                Ok(()) => Ok(()),
                Err(e) => Err(concat("发送SSE数据失败: ", e.as_str())),
            },
            None => Err(String::from_str("连接不存在")),
        }
    }

    /// Sends a heartbeat comment (`: heartbeat`) to one stream.
    pub fn send_heartbeat(&self, connection_id: &str) -> (r: Result<(), String>)
        ensures
            send_outcome(self.ids().contains(connection_id@), "发送心跳失败: "@, r),
    {
        match registry_get(&self.connections, connection_id) {
            Some(sender) => match send_text(&sender, String::from_str(": heartbeat\n\n")) {
                Ok(()) => Ok(()),
                Err(e) => Err(concat("发送心跳失败: ", e.as_str())),
            },
            None => Err(String::from_str("连接不存在")),
        }
    }

    /// Closes a stream: removes it, then tries to tell the client (a
    /// `disconnect` event and the `DISCONNECT_EVENT` marker) whatever comes of
    /// the sends. Says whether the stream was open.
    pub fn disconnect_connection(&mut self, connection_id: &str) -> (r: bool)
        ensures
            r == old(self).ids().contains(connection_id@),
            final(self).ids() == old(self).ids().remove(connection_id@),
    {
        proof {
            use_type_invariant(&*self);
        }
        match registry_remove(&mut self.connections, connection_id) {
            Some(sender) => {
                let _ = send_text(&sender, String::from_str("event: disconnect\ndata: 服务器断开连接\n\n"));
                let _ = send_text(&sender, String::from_str("DISCONNECT_EVENT"));
                true
            },
            None => false,
        }
    }

    /// Removes a stream without telling the client. Says whether it was open.
    pub(crate) fn remove_connection(&mut self, connection_id: &str) -> (r: bool)
        ensures
            r == old(self).ids().contains(connection_id@),
            final(self).ids() == old(self).ids().remove(connection_id@),
    {
        proof {
            use_type_invariant(&*self);
        }
        registry_remove(&mut self.connections, connection_id).is_some()
    }

    /// Sends to every stream (a data-only event when `event` is empty, an
    /// event of that type otherwise) and closes the streams whose client has
    /// left. The streams that stay are exactly those reached, and their
    /// number is returned.
    pub fn broadcast(&mut self, event: &str, data: &str) -> (r: usize)
        ensures
            final(self).ids().subset_of(old(self).ids()),
            final(self).ids().finite(),
            r == final(self).ids().len(),
    {
        proof {
            use_type_invariant(&*self);
        }
        let entries = registry_entries(&self.connections);
        let ghost ids0 = self.ids();
        let ghost keys = entries@.map_values(|e: (String, SseSender)| e.0@);
        let text = if event.unicode_len() == 0 {
            format_data(data)
        } else {
            format_event(event, data)
        };
        let mut failed: Vec<String> = Vec::new();
        let mut i: usize = 0;
        while i < entries.len()
            invariant
                i <= entries.len(),
                keys == entries@.map_values(|e: (String, SseSender)| e.0@),
                keys.no_duplicates(),
                keys.to_set() == ids0,
                texts(failed@).to_set().subset_of(keys.take(i as int).to_set()),
                texts(failed@).no_duplicates(),
                self.ids() == ids0,
            decreases entries.len() - i,
        {
            let (ref id, ref sender) = entries[i];
            let ok = match send_text(sender, text.clone()) {
                Ok(()) => true,
                Err(_) => false,
            };
            if !ok {
                let ghost before = failed@;
                failed.push(id.clone());
                proof {
                    assert(texts(failed@) =~= texts(before).push(keys[i as int]));
                    assert(!texts(before).contains(keys[i as int])) by {
                        if texts(before).contains(keys[i as int]) {
                            let j = choose|j: int| 0 <= j < texts(before).len() && texts(before)[j] == keys[i as int];
                            assert(texts(before).to_set().contains(keys[i as int]));
                            let k = choose|k: int| 0 <= k < keys.take(i as int).len() && keys.take(i as int)[k] == keys[i as int];
                            assert(keys[k] == keys[i as int]);
                        }
                    }
                }
            }
            proof {
                assert(keys.take(i + 1) =~= keys.take(i as int).push(keys[i as int]));
                keys.take(i as int).lemma_push_to_set_commute(keys[i as int]);
                texts(failed@).lemma_push_to_set_commute(keys[i as int]);
            }
            i = i + 1;
        }
        let ghost failed_set = texts(failed@).to_set();
        proof {
            assert(keys.take(i as int) =~= keys);
        }
        let mut j: usize = 0;
        while j < failed.len()
            invariant
                j <= failed.len(),
                failed_set == texts(failed@).to_set(),
                failed_set.subset_of(ids0),
                self.ids() == ids0.difference(texts(failed@).take(j as int).to_set()),
            decreases failed.len() - j,
        {
            let _ = self.remove_connection(failed[j].as_str());
            proof {
                assert(texts(failed@).take(j + 1) =~= texts(failed@).take(j as int).push(texts(failed@)[j as int]));
                texts(failed@).take(j as int).lemma_push_to_set_commute(texts(failed@)[j as int]);
                assert(self.ids() =~= ids0.difference(texts(failed@).take(j + 1).to_set()));
            }
            j = j + 1;
        }
        proof {
            assert(texts(failed@).take(j as int) =~= texts(failed@));
            keys.unique_seq_to_set();
            texts(failed@).unique_seq_to_set();
            vstd::seq_lib::seq_to_set_is_finite(keys);
            vstd::seq_lib::seq_to_set_is_finite(texts(failed@));
            vstd::set_lib::lemma_len_subset(failed_set, ids0);
            vstd::set_lib::lemma_set_difference_len(ids0, failed_set);
            assert(ids0.intersect(failed_set) =~= failed_set);
        }
        let reached = entries.len() - failed.len();
        reached
    }

    /// How many streams are open.
    pub fn get_connection_count(&self) -> (r: usize)
        ensures
            self.ids().finite(),
            r == self.ids().len(),
    {
        proof {
            use_type_invariant(self);
        }
        registry_len(&self.connections)
    }

    /// Whether a stream is open under `connection_id`.
    pub fn has_connection(&self, connection_id: &str) -> (r: bool)
        ensures
            r == self.ids().contains(connection_id@),
    {
        registry_contains(&self.connections, connection_id)
    }

    /// Forgets every stream.
    pub fn clear(&mut self)
        ensures
            final(self).ids() == Set::<Seq<char>>::empty(),
    {
        registry_clear(&mut self.connections);
    }
}

impl Default for GlobalSseManager {
    fn default() -> (r: Self)
        ensures
            r.ids() == Set::<Seq<char>>::empty(),
    {
        Self::new()
    }
}

/// Sends a data-only event to one stream of `manager`.
pub fn send_sse_message(manager: &GlobalSseManager, connection_id: &str, data: &str) -> (r: Result<(), String>)
    ensures
        send_outcome(manager.ids().contains(connection_id@), "发送SSE数据失败: "@, r),
{
    manager.send_data(connection_id, data)
}

/// Sends an event with a type to one stream of `manager`.
pub fn send_sse_message_with_type(
    manager: &GlobalSseManager,
    connection_id: &str,
    event_type: &str,
    data: &str,
) -> (r: Result<(), String>)
    ensures
        send_outcome(manager.ids().contains(connection_id@), "发送SSE事件失败: "@, r),
{
    manager.send_event(connection_id, event_type, data)
}

/// Broadcasts a data-only event; the number of streams reached.
pub fn broadcast_sse_message(manager: &mut GlobalSseManager, data: &str) -> (r: usize)
    ensures
        final(manager).ids().subset_of(old(manager).ids()),
        final(manager).ids().finite(),
        r == final(manager).ids().len(),
{
    manager.broadcast("", data)
}

/// Broadcasts an event with a type; the number of streams reached.
pub fn broadcast_sse_message_with_type(manager: &mut GlobalSseManager, event_type: &str, data: &str) -> (r: usize)
    ensures
        final(manager).ids().subset_of(old(manager).ids()),
        final(manager).ids().finite(),
        r == final(manager).ids().len(),
{
    manager.broadcast(event_type, data)
}

/// Closes one stream of `manager`; whether it was open.
pub fn disconnect_sse_connection(manager: &mut GlobalSseManager, connection_id: &str) -> (r: bool)
    ensures
        r == old(manager).ids().contains(connection_id@),
        final(manager).ids() == old(manager).ids().remove(connection_id@),
{
    manager.disconnect_connection(connection_id)
}

/// How many streams `manager` has open.
pub fn get_sse_connection_count(manager: &GlobalSseManager) -> (r: usize)
    ensures
        manager.ids().finite(),
        r == manager.ids().len(),
{
    manager.get_connection_count()
}

} // verus!
