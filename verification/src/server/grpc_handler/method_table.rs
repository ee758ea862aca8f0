//! The names of the registered gRPC methods, by handler kind: what the
//! service registry looks up to pick a handler, and the list it reports.
//! The handlers themselves are kept beside it under the same names.

use vstd::multiset::Multiset;
use vstd::prelude::*;

use super::dispatch::{GrpcHandlerKind, RegisteredKinds};
use crate::common::order::{insert_sorted, sorted};
use crate::common::text::{concat, str_eq, texts};

verus! {

/// `t` is one of the listed texts.
pub open spec fn names(v: Seq<String>, t: Seq<char>) -> bool {
    texts(v).contains(t)
}

/// Whether `t` is one of the listed texts.
fn listed(v: &Vec<String>, t: &str) -> (r: bool)
    ensures
        r == names(v@, t@),
{
    let mut i: usize = 0;
    while i < v.len()
        invariant
            i <= v.len(),
            forall|j: int| 0 <= j < i ==> (#[trigger] v@[j])@ != t@,
        decreases v.len() - i,
    {
        if str_eq(v[i].as_str(), t) {
            assert(texts(v@)[i as int] == t@);
            return true;
        }
        i = i + 1;
    }
    proof {
        if texts(v@).contains(t@) {
            let k = choose|k: int| 0 <= k < texts(v@).len() && texts(v@)[k] == t@;
            assert(v@[k]@ == t@);
        }
    }
    false
}

/// The registered method names of each handler kind.
pub struct GrpcMethodTable {
    unary: Vec<String>,
    server_stream: Vec<String>,
    client_stream: Vec<String>,
    bidirectional: Vec<String>,
}

/// The text `方法未实现: <method>` with which an unknown method is answered.
pub fn unimplemented_message(method: &str) -> (r: String)
    ensures
        r@ == "方法未实现: "@ + method@,
{
    concat("方法未实现: ", method)
}

impl GrpcMethodTable {
    /// The names registered for one kind.
    pub closed spec fn methods(&self, kind: GrpcHandlerKind) -> Set<Seq<char>> {
        match kind {
            GrpcHandlerKind::Unary => texts(self.unary@).to_set(),
            GrpcHandlerKind::ServerStream => texts(self.server_stream@).to_set(),
            GrpcHandlerKind::ClientStream => texts(self.client_stream@).to_set(),
            GrpcHandlerKind::Bidirectional => texts(self.bidirectional@).to_set(),
        }
    }

    /// Every registered name, once per kind it is registered for.
    pub closed spec fn registrations(&self) -> Multiset<Seq<char>> {
        texts(self.unary@).to_multiset().add(texts(self.server_stream@).to_multiset()).add(
            texts(self.client_stream@).to_multiset(),
        ).add(texts(self.bidirectional@).to_multiset())
    }

    /// A name is registered at most once per kind.
    pub closed spec fn well_formed(&self) -> bool {
        &&& texts(self.unary@).no_duplicates()
        &&& texts(self.server_stream@).no_duplicates()
        &&& texts(self.client_stream@).no_duplicates()
        &&& texts(self.bidirectional@).no_duplicates()
    }

    /// An empty table.
    pub fn new() -> (r: Self)
        ensures
            r.well_formed(),
            forall|k: GrpcHandlerKind| r.methods(k) == Set::<Seq<char>>::empty(),
    {
        let r = GrpcMethodTable {
            unary: Vec::new(),
            server_stream: Vec::new(),
            client_stream: Vec::new(),
            bidirectional: Vec::new(),
        };
        assert(texts(r.unary@) =~= Seq::<Seq<char>>::empty());
        assert(texts(r.server_stream@) =~= Seq::<Seq<char>>::empty());
        assert(texts(r.client_stream@) =~= Seq::<Seq<char>>::empty());
        assert(texts(r.bidirectional@) =~= Seq::<Seq<char>>::empty());
        assert forall|k: GrpcHandlerKind| r.methods(k) == Set::<Seq<char>>::empty() by {
            assert(texts(r.unary@).to_set() =~= Set::<Seq<char>>::empty());
            assert(texts(r.server_stream@).to_set() =~= Set::<Seq<char>>::empty());
            assert(texts(r.client_stream@).to_set() =~= Set::<Seq<char>>::empty());
            assert(texts(r.bidirectional@).to_set() =~= Set::<Seq<char>>::empty());
        }
        r
    }

    /// Registers `method` for a handler kind (registering it again for the
    /// same kind changes nothing here; the new handler replaces the old one
    /// beside the table).
    pub fn register(&mut self, kind: GrpcHandlerKind, method: &str)
        requires
            old(self).well_formed(),
        ensures
            final(self).well_formed(),
            final(self).methods(kind) == old(self).methods(kind).insert(method@),
            forall|k: GrpcHandlerKind| k != kind ==> final(self).methods(k) == old(self).methods(k),
    {
        match kind {
            GrpcHandlerKind::Unary => add_name(&mut self.unary, method),
            GrpcHandlerKind::ServerStream => add_name(&mut self.server_stream, method),
            GrpcHandlerKind::ClientStream => add_name(&mut self.client_stream, method),
            GrpcHandlerKind::Bidirectional => add_name(&mut self.bidirectional, method),
        }
    }

    /// Which kinds have a handler registered for `method`.
    pub fn kinds_of(&self, method: &str) -> (r: RegisteredKinds)
        ensures
            r.unary == self.methods(GrpcHandlerKind::Unary).contains(method@),
            r.server_stream == self.methods(GrpcHandlerKind::ServerStream).contains(method@),
            r.client_stream == self.methods(GrpcHandlerKind::ClientStream).contains(method@),
            r.bidirectional == self.methods(GrpcHandlerKind::Bidirectional).contains(method@),
    {
        RegisteredKinds {
            unary: listed(&self.unary, method),
            server_stream: listed(&self.server_stream, method),
            client_stream: listed(&self.client_stream, method),
            bidirectional: listed(&self.bidirectional, method),
        }
    }

    /// Whether some handler is registered for `path` (the single-port listener
    /// routes such a request to gRPC and any other to HTTP).
    pub fn is_registered(&self, path: &str) -> (r: bool)
        ensures
            r == (self.methods(GrpcHandlerKind::Unary).contains(path@) || self.methods(
                GrpcHandlerKind::ServerStream,
            ).contains(path@) || self.methods(GrpcHandlerKind::ClientStream).contains(path@)
                || self.methods(GrpcHandlerKind::Bidirectional).contains(path@)),
    {
        let k = self.kinds_of(path);
        k.unary || k.server_stream || k.client_stream || k.bidirectional
    }

    /// Every registered method, sorted; a method registered for several kinds
    /// is listed once for each.
    pub fn list_methods(&self) -> (r: Vec<String>)
        ensures
            sorted(texts(r@)),
            texts(r@).to_multiset() == self.registrations(),
    {
        let mut out: Vec<String> = Vec::new();
        proof {
            lemma_empty_to_multiset(texts(out@));
        }
        add_sorted(&mut out, &self.unary);
        add_sorted(&mut out, &self.server_stream);
        add_sorted(&mut out, &self.client_stream);
        add_sorted(&mut out, &self.bidirectional);
        proof {
            broadcast use vstd::multiset::group_multiset_axioms;
            assert(texts(out@).to_multiset() =~= self.registrations());
        }
        out
    }
}

/// Adds a name to a list that holds each at most once.
fn add_name(v: &mut Vec<String>, method: &str)
    requires
        texts(old(v)@).no_duplicates(),
    ensures
        texts(final(v)@).no_duplicates(),
        texts(final(v)@).to_set() == texts(old(v)@).to_set().insert(method@),
{
    if listed(v, method) {
        assert(texts(v@).to_set() =~= texts(v@).to_set().insert(method@));
        return;
    }
    let ghost before = texts(v@);
    v.push(String::from_str(method));
    proof {
        assert(texts(v@) =~= before.push(method@));
        before.lemma_push_to_set_commute(method@);
        assert forall|i: int, j: int| 0 <= i < j < texts(v@).len() implies texts(v@)[i] != texts(v@)[j] by {
            if j == before.len() {
                assert(before[i] == texts(v@)[i]);
                assert(before.contains(before[i]));
            }
        }
    }
}

/// Adds every name of `from` to a sorted list, keeping it sorted.
fn add_sorted(out: &mut Vec<String>, from: &Vec<String>)
    requires
        sorted(texts(old(out)@)),
    ensures
        sorted(texts(final(out)@)),
        texts(final(out)@).to_multiset() == texts(old(out)@).to_multiset().add(texts(from@).to_multiset()),
{
    let mut i: usize = 0;
    proof {
        lemma_empty_to_multiset(texts(from@).take(0));
        broadcast use vstd::multiset::group_multiset_axioms;
        assert(texts(out@).to_multiset() =~= texts(out@).to_multiset().add(Multiset::<Seq<char>>::empty()));
    }
    while i < from.len()
        invariant
            i <= from.len(),
            sorted(texts(out@)),
            texts(out@).to_multiset() == texts(old(out)@).to_multiset().add(texts(from@).take(i as int).to_multiset()),
        decreases from.len() - i,
    {
        let name = from[i].clone();
        insert_sorted(out, name);
        proof {
            broadcast use vstd::multiset::group_multiset_axioms;
            let t = texts(from@);
            assert(t.take(i + 1) =~= t.take(i as int).push(t[i as int]));
            vstd::seq_lib::to_multiset_build(t.take(i as int), t[i as int]);
            assert(texts(out@).to_multiset() =~= texts(old(out)@).to_multiset().add(t.take(i + 1).to_multiset()));
        }
        i = i + 1;
    }
    assert(texts(from@).take(i as int) =~= texts(from@));
}

/// The kinds a method is registered for are those whose name set holds it;
/// a method is listed once per such kind.
pub proof fn lemma_listed_once_per_kind(table: GrpcMethodTable, t: Seq<char>)
    requires
        table.well_formed(),
    ensures
        table.registrations().count(t) == (if table.methods(GrpcHandlerKind::Unary).contains(t) { 1nat } else { 0nat })
            + (if table.methods(GrpcHandlerKind::ServerStream).contains(t) { 1nat } else { 0nat })
            + (if table.methods(GrpcHandlerKind::ClientStream).contains(t) { 1nat } else { 0nat })
            + (if table.methods(GrpcHandlerKind::Bidirectional).contains(t) { 1nat } else { 0nat }),
{
    broadcast use vstd::multiset::group_multiset_axioms;
    lemma_count_unique(texts(table.unary@), t);
    lemma_count_unique(texts(table.server_stream@), t);
    lemma_count_unique(texts(table.client_stream@), t);
    lemma_count_unique(texts(table.bidirectional@), t);
}

/// An empty list has the empty multiset.
proof fn lemma_empty_to_multiset(s: Seq<Seq<char>>)
    requires
        s.len() == 0,
    ensures
        s.to_multiset() == Multiset::<Seq<char>>::empty(),
{
    s.to_multiset_ensures();
    vstd::multiset::lemma_multiset_empty_len(s.to_multiset());
}

/// In a list without repeats, a text is counted once when present.
proof fn lemma_count_unique(s: Seq<Seq<char>>, t: Seq<char>)
    requires
        s.no_duplicates(),
    ensures
        s.to_multiset().count(t) == if s.to_set().contains(t) { 1nat } else { 0nat },
{
    broadcast use vstd::multiset::group_multiset_axioms;
    if s.contains(t) {
        s.lemma_multiset_has_no_duplicates();
        vstd::seq_lib::to_multiset_contains(s, t);
    } else {
        vstd::seq_lib::to_multiset_contains(s, t);
    }
}

} // verus!
