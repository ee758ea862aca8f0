//! Decisions the HTTP router takes around a handler's response: which
//! content encoding a client prefers, whether a response is already encoded
//! as it should be, the error body it answers with, and whether a path needs
//! a client certificate. The route table and handlers stay with the caller.

use vstd::prelude::*;

use crate::common::text::{decimal, push_decimal, push_str, str_contains, str_eq, text_contains, text_occurs_at};
use crate::server::cert_manager::manager::CertificateManager;
use crate::server::proxy_protocol::{IpAddress, IpSpec};

verus! {

/// The comma-separated items of a header value, in order (an empty value is
/// one empty item), as `str::split(',')` gives them.
pub open spec fn comma_items(s: Seq<char>) -> Seq<Seq<char>>
    decreases s.len(),
{
    if s.len() == 0 {
        seq![seq![]]
    } else {
        let p = comma_items(s.drop_last());
        if s.last() == ',' {
            p.push(seq![])
        } else {
            p.update(p.len() - 1, p.last().push(s.last()))
        }
    }
}

proof fn lemma_comma_items_nonempty(s: Seq<char>)
    ensures
        comma_items(s).len() >= 1,
    decreases s.len(),
{
    if s.len() > 0 {
        lemma_comma_items_nonempty(s.drop_last());
    }
}

/// The encoding an item names: the first of `zstd`, `br`, `gzip`, `deflate`,
/// `identity` that it contains (0 to 4), or 5 for none. Surrounding blanks
/// do not matter, since none of these names holds one.
pub open spec fn item_encoding(item: Seq<char>) -> int {
    if text_contains(item, "zstd"@) {
        0
    } else if text_contains(item, "br"@) {
        1
    } else if text_contains(item, "gzip"@) {
        2
    } else if text_contains(item, "deflate"@) {
        3
    } else if text_contains(item, "identity"@) {
        4
    } else {
        5
    }
}

/// Some item of the header names encoding `e`.
pub open spec fn names_encoding(accept: Seq<char>, e: int) -> bool {
    exists|i: int| 0 <= i < comma_items(accept).len() && item_encoding(#[trigger] comma_items(accept)[i]) == e
}

/// The encoding chosen for an `Accept-Encoding` value: the most preferred
/// one named (`zstd`, then `br`, `gzip`, `deflate`), else `identity`.
pub open spec fn best_encoding(accept: Seq<char>) -> Seq<char> {
    if accept.len() == 0 {
        "identity"@
    } else if names_encoding(accept, 0) {
        "zstd"@
    } else if names_encoding(accept, 1) {
        "br"@
    } else if names_encoding(accept, 2) {
        "gzip"@
    } else if names_encoding(accept, 3) {
        "deflate"@
    } else {
        "identity"@
    }
}

/// Some comma item of the header holds the text `name`.
pub open spec fn some_item_holds(accept: Seq<char>, name: Seq<char>) -> bool {
    exists|i: int| 0 <= i < comma_items(accept).len() && text_contains(#[trigger] comma_items(accept)[i], name)
}

proof fn lemma_empty_header_names_nothing(accept: Seq<char>, name: Seq<char>)
    requires
        accept.len() == 0,
        name.len() > 0,
    ensures
        !some_item_holds(accept, name),
{
    assert(comma_items(accept) == seq![Seq::<char>::empty()]);
    if some_item_holds(accept, name) {
        let i = choose|i: int| 0 <= i < comma_items(accept).len() && text_contains(#[trigger] comma_items(accept)[i], name);
        assert(comma_items(accept)[i].len() == 0);
        let k = choose|k: int| text_occurs_at(comma_items(accept)[i], name, k);
    }
}

/// The preference among content encodings: `zstd` whenever some item names
/// it; otherwise `br` whenever some item names it; then `gzip`, then
/// `deflate`; and `identity` when the header names none of these.
pub proof fn lemma_encoding_preference(accept: Seq<char>)
    ensures
        some_item_holds(accept, "zstd"@) ==> best_encoding(accept) == "zstd"@,
        !some_item_holds(accept, "zstd"@) && some_item_holds(accept, "br"@) ==> best_encoding(accept) == "br"@,
        !some_item_holds(accept, "zstd"@) && !some_item_holds(accept, "br"@) && some_item_holds(accept, "gzip"@)
            ==> best_encoding(accept) == "gzip"@,
        !some_item_holds(accept, "zstd"@) && !some_item_holds(accept, "br"@) && !some_item_holds(accept, "gzip"@)
            && some_item_holds(accept, "deflate"@) ==> best_encoding(accept) == "deflate"@,
        !some_item_holds(accept, "zstd"@) && !some_item_holds(accept, "br"@) && !some_item_holds(accept, "gzip"@)
            && !some_item_holds(accept, "deflate"@) ==> best_encoding(accept) == "identity"@,
{
    reveal_strlit("zstd");
    reveal_strlit("br");
    reveal_strlit("gzip");
    reveal_strlit("deflate");
    let items = comma_items(accept);
    if accept.len() == 0 {
        lemma_empty_header_names_nothing(accept, "zstd"@);
        lemma_empty_header_names_nothing(accept, "br"@);
        lemma_empty_header_names_nothing(accept, "gzip"@);
        lemma_empty_header_names_nothing(accept, "deflate"@);
        return;
    }
    if some_item_holds(accept, "zstd"@) {
        let i = choose|i: int| 0 <= i < items.len() && text_contains(#[trigger] items[i], "zstd"@);
        assert(item_encoding(items[i]) == 0);
        assert(names_encoding(accept, 0));
    } else {
        assert(!names_encoding(accept, 0)) by {
            if names_encoding(accept, 0) {
                let j = choose|j: int| 0 <= j < items.len() && item_encoding(#[trigger] items[j]) == 0;
                assert(text_contains(items[j], "zstd"@));
                assert(some_item_holds(accept, "zstd"@));
            }
        }
        if some_item_holds(accept, "br"@) {
            let i = choose|i: int| 0 <= i < items.len() && text_contains(#[trigger] items[i], "br"@);
            assert(!text_contains(items[i], "zstd"@));
            assert(item_encoding(items[i]) == 1);
            assert(names_encoding(accept, 1));
        } else {
            assert(!names_encoding(accept, 1)) by {
                if names_encoding(accept, 1) {
                    let j = choose|j: int| 0 <= j < items.len() && item_encoding(#[trigger] items[j]) == 1;
                    assert(text_contains(items[j], "br"@));
                    assert(some_item_holds(accept, "br"@));
                }
            }
            if some_item_holds(accept, "gzip"@) {
                let i = choose|i: int| 0 <= i < items.len() && text_contains(#[trigger] items[i], "gzip"@);
                assert(!text_contains(items[i], "zstd"@));
                assert(!text_contains(items[i], "br"@));
                assert(item_encoding(items[i]) == 2);
                assert(names_encoding(accept, 2));
            } else {
                assert(!names_encoding(accept, 2)) by {
                    if names_encoding(accept, 2) {
                        let j = choose|j: int| 0 <= j < items.len() && item_encoding(#[trigger] items[j]) == 2;
                        assert(text_contains(items[j], "gzip"@));
                        assert(some_item_holds(accept, "gzip"@));
                    }
                }
                if some_item_holds(accept, "deflate"@) {
                    let i = choose|i: int| 0 <= i < items.len() && text_contains(#[trigger] items[i], "deflate"@);
                    assert(!text_contains(items[i], "zstd"@));
                    assert(!text_contains(items[i], "br"@));
                    assert(!text_contains(items[i], "gzip"@));
                    assert(item_encoding(items[i]) == 3);
                    assert(names_encoding(accept, 3));
                } else {
                    assert(!names_encoding(accept, 3)) by {
                        if names_encoding(accept, 3) {
                            let j = choose|j: int| 0 <= j < items.len() && item_encoding(#[trigger] items[j]) == 3;
                            assert(text_contains(items[j], "deflate"@));
                            assert(some_item_holds(accept, "deflate"@));
                        }
                    }
                }
            }
        }
    }
}

/// The encoding an item names.
fn classify_item(item: &str) -> (r: u8)
    ensures
        r as int == item_encoding(item@),
{
    if str_contains(item, "zstd") {
        0
    } else if str_contains(item, "br") {
        1
    } else if str_contains(item, "gzip") {
        2
    } else if str_contains(item, "deflate") {
        3
    } else if str_contains(item, "identity") {
        4
    } else {
        5
    }
}

/// The content encoding to answer with, given the request's
/// `Accept-Encoding` value.
pub fn select_best_encoding(accept_encoding: &str) -> (r: &'static str)
    ensures
        r@ == best_encoding(accept_encoding@),
{
    let n = accept_encoding.unicode_len();
    if n == 0 {
        return "identity";
    }
    let mut found: [bool; 5] = [false, false, false, false, false];
    let mut start: usize = 0;
    let mut k: usize = 0;
    while k < n
        invariant
            start <= k <= n,
            n == accept_encoding@.len(),
            ({
                let items = comma_items(accept_encoding@.subrange(0, k as int));
                &&& items.last() == accept_encoding@.subrange(start as int, k as int)
                &&& forall|e: int|
                    0 <= e < 5 ==> (found@[e] <==> exists|i: int|
                        0 <= i < items.len() - 1 && item_encoding(#[trigger] items[i]) == e)
            }),
        decreases n - k,
    {
        proof {
            lemma_comma_items_nonempty(accept_encoding@.subrange(0, k as int));
            assert(accept_encoding@.subrange(0, k + 1).drop_last() =~= accept_encoding@.subrange(0, k as int));
        }
        let ghost before = comma_items(accept_encoding@.subrange(0, k as int));
        if accept_encoding.get_char(k) == ',' {
            let item = accept_encoding.substring_char(start, k);
            let e = classify_item(item);
            if e < 5 {
                found.set(e as usize, true);
            }
            start = k + 1;
            proof {
                let items = comma_items(accept_encoding@.subrange(0, k + 1));
                assert(items == before.push(seq![]));
                assert(accept_encoding@.subrange(start as int, k + 1) =~= Seq::<char>::empty());
                assert forall|f: int| 0 <= f < 5 implies (found@[f] <==> exists|i: int|
                    0 <= i < items.len() - 1 && item_encoding(#[trigger] items[i]) == f) by {
                    if found@[f] && !(exists|i: int| 0 <= i < before.len() - 1 && item_encoding(#[trigger] before[i]) == f) {
                        assert(item_encoding(items[before.len() - 1]) == f);
                    }
                    if exists|i: int| 0 <= i < items.len() - 1 && item_encoding(#[trigger] items[i]) == f {
                        let i = choose|i: int| 0 <= i < items.len() - 1 && item_encoding(#[trigger] items[i]) == f;
                        if i < before.len() - 1 {
                            assert(items[i] == before[i]);
                        }
                    }
                    if exists|i: int| 0 <= i < before.len() - 1 && item_encoding(#[trigger] before[i]) == f {
                        let i = choose|i: int| 0 <= i < before.len() - 1 && item_encoding(#[trigger] before[i]) == f;
                        assert(items[i] == before[i]);
                    }
                }
            }
        } else {
            proof {
                let items = comma_items(accept_encoding@.subrange(0, k + 1));
                assert(items == before.update(before.len() - 1, before.last().push(accept_encoding@[k as int])));
                assert(accept_encoding@.subrange(start as int, k + 1) =~= before.last().push(accept_encoding@[k as int]));
                assert forall|f: int| 0 <= f < 5 implies (found@[f] <==> exists|i: int|
                    0 <= i < items.len() - 1 && item_encoding(#[trigger] items[i]) == f) by {
                    if exists|i: int| 0 <= i < items.len() - 1 && item_encoding(#[trigger] items[i]) == f {
                        let i = choose|i: int| 0 <= i < items.len() - 1 && item_encoding(#[trigger] items[i]) == f;
                        assert(items[i] == before[i]);
                    }
                    if exists|i: int| 0 <= i < before.len() - 1 && item_encoding(#[trigger] before[i]) == f {
                        let i = choose|i: int| 0 <= i < before.len() - 1 && item_encoding(#[trigger] before[i]) == f;
                        assert(items[i] == before[i]);
                    }
                }
            }
        }
        k = k + 1;
    }
    let last = accept_encoding.substring_char(start, n);
    let e = classify_item(last);
    if e < 5 {
        found.set(e as usize, true);
    }
    proof {
        let items = comma_items(accept_encoding@.subrange(0, n as int));
        assert(accept_encoding@.subrange(0, n as int) =~= accept_encoding@);
        lemma_comma_items_nonempty(accept_encoding@);
        assert forall|f: int| 0 <= f < 5 implies (found@[f] <==> names_encoding(accept_encoding@, f)) by {
            if names_encoding(accept_encoding@, f) {
                let i = choose|i: int| 0 <= i < items.len() && item_encoding(#[trigger] items[i]) == f;
                if i < items.len() - 1 {
                    assert(item_encoding(items[i]) == f);
                }
            }
            if found@[f] && !(exists|i: int| 0 <= i < items.len() - 1 && item_encoding(#[trigger] items[i]) == f) {
                assert(item_encoding(items[items.len() - 1]) == f);
            }
            if exists|i: int| 0 <= i < items.len() - 1 && item_encoding(#[trigger] items[i]) == f {
                let i = choose|i: int| 0 <= i < items.len() - 1 && item_encoding(#[trigger] items[i]) == f;
                assert(names_encoding(accept_encoding@, f));
            }
        }
    }
    if found[0] {
        "zstd"
    } else if found[1] {
        "br"
    } else if found[2] {
        "gzip"
    } else if found[3] {
        "deflate"
    } else {
        "identity"
    }
}

/// A response needs no re-encoding when it already carries a
/// `Content-Encoding` (readable as text) and the client sent an
/// `Accept-Encoding`, and that encoding is the client's best one or
/// `identity`.
pub open spec fn spec_properly_compressed(existing: Option<Seq<char>>, accept: Seq<char>) -> bool {
    match existing {
        Some(enc) => accept.len() > 0 && (enc == best_encoding(accept) || enc == "identity"@),
        None => false,
    }
}

/// Whether a response with `Content-Encoding` `existing` (none when absent
/// or not readable as text) is already encoded as the client asked.
pub fn is_already_properly_compressed(existing: Option<&str>, accept_encoding: &str) -> (r: bool)
    ensures
        r == spec_properly_compressed(
            match existing {
                Some(e) => Some(e@),
                None => None,
            },
            accept_encoding@,
        ),
{
    match existing {
        Some(enc) => {
            if accept_encoding.unicode_len() > 0 {
                let best = select_best_encoding(accept_encoding);
                str_eq(enc, best) || str_eq(enc, "identity")
            } else {
                false
            }
        },
        None => false,
    }
}

/// The JSON body of an error answer: `{"error":"<message>","code":<status>}`.
pub open spec fn error_body_text(message: Seq<char>, status: u16) -> Seq<char> {
    "{\"error\":\""@ + message + "\",\"code\":"@ + decimal(status as nat) + "}"@
}

/// The JSON body of an error answer.
pub fn error_body(message: &str, status: u16) -> (r: String)
    ensures
        r@ == error_body_text(message@, status),
{
    let mut s = String::from_str("{\"error\":\"");
    push_str(&mut s, message);
    push_str(&mut s, "\",\"code\":");
    push_decimal(status as u64, &mut s);
    push_str(&mut s, "}");
    s
}

/// Whether a path is exempt from client certificates: it is whenever a
/// certificate manager is set and requires them (every path then asks for
/// one).
pub fn is_mtls_whitelisted(cert_manager: Option<&CertificateManager>, path: &str) -> (r: bool)
    ensures
        r == (cert_manager matches Some(m) && m.spec_mtls_enabled()),
{
    match cert_manager {
        Some(m) => m.is_mtls_whitelisted(path),
        None => false,
    }
}

/// Whether a request to `path` must present a client certificate: mTLS on
/// and the path not exempt. Since a path counts as exempt exactly when mTLS
/// is on, this never holds.
pub fn requires_mtls_auth(cert_manager: Option<&CertificateManager>, path: &str) -> (r: bool)
    ensures
        !r,
{
    match cert_manager {
        Some(m) => m.is_mtls_enabled() && !m.is_mtls_whitelisted(path),
        None => false,
    }
}

} // verus!

verus! {

/// What the router does with a request whose route lookup gave these
/// results.
#[derive(Debug, Clone, PartialEq, Eq)]
pub enum RouteAction {
    /// Run the streaming handler at this index (its answer is not
    /// compressed).
    Streaming(usize),
    /// Run the standard handler at this index; for a GET, the cache is
    /// consulted first and written after; the answer is compressed.
    Standard { index: usize, cached: bool },
    /// Run the `/*` handler of the method (cache and compression as for a
    /// standard route).
    Wildcard { cached: bool },
    /// Route again, once, as a request for the single-page app's fallback
    /// path.
    SpaFallback(String),
    /// Answer 404 `Not Found`.
    NotFound,
}

/// The order in which the router tries routes: a streaming route, then a
/// standard route, then the method's `/*` route, then (once, when the SPA
/// configuration applies to the path and names a fallback) the fallback path,
/// and else 404.
pub fn route_decision(
    streaming_match: Option<usize>,
    standard_match: Option<usize>,
    wildcard_registered: bool,
    is_get: bool,
    is_spa_fallback: bool,
    spa_applies: bool,
    spa_fallback_path: Option<&str>,
) -> (r: RouteAction)
    ensures
        streaming_match matches Some(i) ==> r == RouteAction::Streaming(i),
        streaming_match is None ==> (standard_match matches Some(i) ==> r == (RouteAction::Standard {
            index: i,
            cached: is_get,
        })),
        streaming_match is None && standard_match is None && wildcard_registered ==> r == (RouteAction::Wildcard {
            cached: is_get,
        }),
        streaming_match is None && standard_match is None && !wildcard_registered ==> (if !is_spa_fallback
            && spa_applies && spa_fallback_path is Some {
            r matches RouteAction::SpaFallback(p) && p@ == spa_fallback_path.unwrap()@
        } else {
            r == RouteAction::NotFound
        }),
{
    match streaming_match {
        Some(i) => return RouteAction::Streaming(i),
        None => {},
    }
    match standard_match {
        Some(i) => return RouteAction::Standard { index: i, cached: is_get },
        None => {},
    }
    if wildcard_registered {
        return RouteAction::Wildcard { cached: is_get };
    }
    if !is_spa_fallback && spa_applies {
        match spa_fallback_path {
            Some(p) => return RouteAction::SpaFallback(String::from_str(p)),
            None => {},
        }
    }
    RouteAction::NotFound
}

/// A request answered before any route is looked up: a gRPC request that
/// reached the HTTP router (400), or a client on the blacklist (403); the
/// status and the message of the error body.
pub fn early_answer(is_grpc: bool, client_blacklisted: bool) -> (r: Option<(u16, &'static str)>)
    ensures
        is_grpc ==> (r matches Some(a) && a.0 == 400 && a.1@ == "gRPC requests should be handled by HTTP/2 layer"@),
        !is_grpc && client_blacklisted ==> (r matches Some(a) && a.0 == 403 && a.1@ == "Access denied"@),
        !is_grpc && !client_blacklisted ==> r is None,
{
    if is_grpc {
        Some((400, "gRPC requests should be handled by HTTP/2 layer"))
    } else if client_blacklisted {
        Some((403, "Access denied"))
    } else {
        None
    }
}

/// Whether two addresses are the same.
fn same_ip(a: &IpAddress, b: &IpAddress) -> (r: bool)
    ensures
        r == (a.spec_model() == b.spec_model()),
{
    match (a, b) {
        (IpAddress::V4(x), IpAddress::V4(y)) => {
            let r = x[0] == y[0] && x[1] == y[1] && x[2] == y[2] && x[3] == y[3];
            proof {
                if r {
                    assert(x@ =~= y@);
                }
            }
            r
        },
        (IpAddress::V6(x), IpAddress::V6(y)) => {
            let mut i: usize = 0;
            while i < 16
                invariant
                    i <= 16,
                    a.spec_model() == IpSpec::V6(x@),
                    b.spec_model() == IpSpec::V6(y@),
                    forall|j: int| 0 <= j < i ==> x@[j] == y@[j],
                decreases 16 - i,
            {
                if x[i] != y[i] {
                    assert(x@[i as int] != y@[i as int]);
                    assert(x@ != y@);
                    return false;
                }
                i = i + 1;
            }
            assert(x@ =~= y@);
            true
        },
        _ => false,
    }
}

/// The client addresses refused by the router.
pub struct IpBlacklist {
    ips: Vec<IpAddress>,
}

impl IpBlacklist {
    /// The refused addresses.
    pub closed spec fn addresses(&self) -> Set<IpSpec> {
        self.ips@.map_values(|a: IpAddress| a.spec_model()).to_set()
    }

    /// No address twice.
    pub closed spec fn well_formed(&self) -> bool {
        self.ips@.map_values(|a: IpAddress| a.spec_model()).no_duplicates()
    }

    /// An empty blacklist.
    pub fn new() -> (r: Self)
        ensures
            r.well_formed(),
            r.addresses() == Set::<IpSpec>::empty(),
    {
        let r = IpBlacklist { ips: Vec::new() };
        assert(r.ips@.map_values(|a: IpAddress| a.spec_model()) =~= Seq::<IpSpec>::empty());
        r
    }

    fn position(&self, ip: &IpAddress) -> (r: Option<usize>)
        ensures
            match r {
                Some(i) => i < self.ips@.len() && self.ips@[i as int].spec_model() == ip.spec_model(),
                None => !self.addresses().contains(ip.spec_model()),
            },
    {
        let mut i: usize = 0;
        while i < self.ips.len()
            invariant
                i <= self.ips@.len(),
                forall|j: int| 0 <= j < i ==> (#[trigger] self.ips@[j]).spec_model() != ip.spec_model(),
            decreases self.ips.len() - i,
        {
            if same_ip(&self.ips[i], ip) {
                return Some(i);
            }
            i = i + 1;
        }
        proof {
            let v = self.ips@.map_values(|a: IpAddress| a.spec_model());
            if v.contains(ip.spec_model()) {
                let k = choose|k: int| 0 <= k < v.len() && v[k] == ip.spec_model();
                assert(self.ips@[k].spec_model() == ip.spec_model());
            }
        }
        None
    }

    /// Whether `ip` is refused.
    pub fn contains(&self, ip: &IpAddress) -> (r: bool)
        ensures
            r == self.addresses().contains(ip.spec_model()),
    {
        match self.position(ip) {
            Some(i) => {
                proof {
                    let v = self.ips@.map_values(|a: IpAddress| a.spec_model());
                    assert(v[i as int] == ip.spec_model());
                }
                true
            },
            None => false,
        }
    }

    /// Refuses `ip` from now on.
    pub fn add_to_blacklist(&mut self, ip: IpAddress)
        requires
            old(self).well_formed(),
        ensures
            final(self).well_formed(),
            final(self).addresses() == old(self).addresses().insert(ip.spec_model()),
    {
        let ghost before = self.ips@.map_values(|a: IpAddress| a.spec_model());
        match self.position(&ip) {
            Some(i) => {
                assert(before[i as int] == ip.spec_model());
                assert(self.addresses() =~= self.addresses().insert(ip.spec_model()));
            },
            None => {
                self.ips.push(ip);
                proof {
                    let after = self.ips@.map_values(|a: IpAddress| a.spec_model());
                    assert(after =~= before.push(ip.spec_model()));
                    before.lemma_push_to_set_commute(ip.spec_model());
                    assert forall|a: int, b: int| 0 <= a < b < after.len() implies after[a] != after[b] by {
                        if b == before.len() {
                            assert(before.contains(before[a]));
                        }
                    }
                }
            },
        }
    }

    /// Stops refusing `ip`.
    pub fn remove_from_blacklist(&mut self, ip: &IpAddress)
        requires
            old(self).well_formed(),
        ensures
            final(self).well_formed(),
            final(self).addresses() == old(self).addresses().remove(ip.spec_model()),
    {
        let ghost before = self.ips@.map_values(|a: IpAddress| a.spec_model());
        match self.position(ip) {
            Some(i) => {
                let ghost old_ips = self.ips@;
                self.ips.remove(i);
                proof {
                    let after = self.ips@.map_values(|a: IpAddress| a.spec_model());
                    assert(after =~= before.remove(i as int));
                    before.remove_ensures(i as int);
                    assert forall|t: IpSpec| after.contains(t) <==> (before.contains(t) && t != ip.spec_model()) by {
                        if after.contains(t) {
                            let k = choose|k: int| 0 <= k < after.len() && after[k] == t;
                            assert(before[i as int] == ip.spec_model());
                            if k < i {
                                assert(before[k] == t);
                                assert(before[k] != before[i as int]);
                            } else {
                                assert(before[k + 1] == t);
                                assert(before[k + 1] != before[i as int]);
                            }
                        }
                        if before.contains(t) && t != ip.spec_model() {
                            let k = choose|k: int| 0 <= k < before.len() && before[k] == t;
                            assert(k != i);
                            if k < i {
                                assert(after[k] == t);
                            } else {
                                assert(after[k - 1] == t);
                            }
                        }
                    }
                    assert(self.addresses() =~= old(self).addresses().remove(ip.spec_model()));
                    assert forall|a: int, b: int| 0 <= a < b < after.len() implies after[a] != after[b] by {
                        let a2 = if a < i { a } else { a + 1 };
                        let b2 = if b < i { b } else { b + 1 };
                        assert(after[a] == before[a2]);
                        assert(after[b] == before[b2]);
                    }
                }
            },
            None => {
                assert(self.addresses() =~= self.addresses().remove(ip.spec_model()));
            },
        }
    }
}

} // verus!
