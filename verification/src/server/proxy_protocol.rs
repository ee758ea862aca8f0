//! PROXY protocol v2 parser.
//!
//! Parses the binary header that HAProxy places in front of a proxied
//! connection, to recover the original client address.

use vstd::prelude::*;
use vstd::utf8::{valid_utf8, decode_utf8};
use crate::common::text::{decimal, decimal_string, hex, push_decimal, push_hex, string_push};

verus! {

/// PROXY protocol v2 command.
#[derive(Debug, Clone, Copy, PartialEq, Eq, Structural)]
pub enum ProxyCommand {
    Local,
    Proxy,
}

/// PROXY protocol v2 address family.
#[derive(Debug, Clone, Copy, PartialEq, Eq, Structural)]
pub enum ProxyAddressFamily {
    Unspec,
    Inet,
    Inet6,
    Unix,
}

/// PROXY protocol v2 transport protocol.
#[derive(Debug, Clone, Copy, PartialEq, Eq, Structural)]
pub enum ProxyProtocol {
    Unspec,
    Stream,
    Datagram,
}

/// An IP address carried in a PROXY header.
#[derive(Debug, Clone, Copy)]
pub enum IpAddress {
    V4([u8; 4]),
    V6([u8; 16]),
}

/// An IP address and port.
#[derive(Debug, Clone, Copy)]
pub struct SocketAddress {
    pub ip: IpAddress,
    pub port: u16,
}

/// Source and destination addresses of the proxied connection.
#[derive(Debug, Clone, Copy)]
pub struct ProxyAddresses {
    /// Source (client) address.
    pub src_addr: SocketAddress,
    /// Destination address.
    pub dst_addr: SocketAddress,
}

/// A PROXY v2 TLV (type-length-value) record.
#[derive(Debug, Clone)]
pub struct ProxyTLV {
    pub tpe: u8,
    pub value: Vec<u8>,
}

/// Result of parsing a PROXY v2 header.
#[derive(Debug, Clone)]
pub struct ProxyProtocolV2Info {
    pub command: ProxyCommand,
    pub address_family: ProxyAddressFamily,
    pub protocol: ProxyProtocol,
    pub addresses: Option<ProxyAddresses>,
    pub tlvs: Vec<ProxyTLV>,
    /// ALPN protocol announced by the proxy, if any.
    pub alpn: Option<String>,
}

/// Reasons why a PROXY v2 header is rejected.
#[derive(Debug, Clone, Copy, PartialEq, Eq, Structural)]
pub enum ProxyProtocolError {
    /// Fewer than 16 bytes.
    TooShort,
    /// The 12-byte signature does not match.
    InvalidSignature,
    /// The version nibble is not 2; carries the version found.
    UnsupportedVersion(u8),
    /// The command nibble is neither LOCAL nor PROXY.
    UnknownCommand,
    /// The address family nibble is not known.
    UnknownAddressFamily,
    /// The transport protocol nibble is not known.
    UnknownTransport,
    /// The declared address block is longer than the data.
    Incomplete,
    /// The IPv4 address block is shorter than 12 bytes.
    Ipv4TooShort,
    /// The IPv6 address block is shorter than 36 bytes.
    Ipv6TooShort,
}

// ---------------------------------------------------------------------------
// Mathematical model
// ---------------------------------------------------------------------------

/// Model of an IP address: the family and its bytes.
pub enum IpSpec {
    V4(Seq<u8>),
    V6(Seq<u8>),
}

/// Model of a socket address.
pub struct SocketAddrSpec {
    pub ip: IpSpec,
    pub port: u16,
}

/// Model of a parsed PROXY v2 header.
pub struct ProxyInfoSpec {
    pub command: ProxyCommand,
    pub address_family: ProxyAddressFamily,
    pub protocol: ProxyProtocol,
    pub addresses: Option<(SocketAddrSpec, SocketAddrSpec)>,
    pub tlvs: Seq<(u8, Seq<u8>)>,
    pub alpn: Option<Seq<char>>,
}

impl IpAddress {
    pub open spec fn spec_model(self) -> IpSpec {
        match self {
            IpAddress::V4(b) => IpSpec::V4(b@),
            IpAddress::V6(b) => IpSpec::V6(b@),
        }
    }
}

impl SocketAddress {
    pub open spec fn spec_model(self) -> SocketAddrSpec {
        SocketAddrSpec { ip: self.ip.spec_model(), port: self.port }
    }
}

impl ProxyAddresses {
    pub open spec fn spec_model(self) -> (SocketAddrSpec, SocketAddrSpec) {
        (self.src_addr.spec_model(), self.dst_addr.spec_model())
    }
}

impl ProxyTLV {
    pub open spec fn spec_model(self) -> (u8, Seq<u8>) {
        (self.tpe, self.value@)
    }
}

pub open spec fn tlvs_model(tlvs: Seq<ProxyTLV>) -> Seq<(u8, Seq<u8>)> {
    tlvs.map_values(|t: ProxyTLV| t.spec_model())
}

pub open spec fn opt_addresses_model(a: Option<ProxyAddresses>) -> Option<(SocketAddrSpec, SocketAddrSpec)> {
    match a {
        Some(x) => Some(x.spec_model()),
        None => None,
    }
}

pub open spec fn opt_string_model(s: Option<String>) -> Option<Seq<char>> {
    match s {
        Some(x) => Some(x@),
        None => None,
    }
}

impl View for ProxyProtocolV2Info {
    type V = ProxyInfoSpec;

    open spec fn view(&self) -> ProxyInfoSpec {
        ProxyInfoSpec {
            command: self.command,
            address_family: self.address_family,
            protocol: self.protocol,
            addresses: opt_addresses_model(self.addresses),
            tlvs: tlvs_model(self.tlvs@),
            alpn: opt_string_model(self.alpn),
        }
    }
}

/// The 12-byte PROXY v2 signature: `\r\n\r\n\0\r\nQUIT\n`.
pub open spec fn has_v2_signature(d: Seq<u8>) -> bool {
    &&& d.len() >= 12
    &&& d[0] == 0x0D && d[1] == 0x0A && d[2] == 0x0D && d[3] == 0x0A
    &&& d[4] == 0x00 && d[5] == 0x0D && d[6] == 0x0A && d[7] == 0x51
    &&& d[8] == 0x55 && d[9] == 0x49 && d[10] == 0x54 && d[11] == 0x0A
}

/// Big-endian value of two bytes.
pub open spec fn be16(hi: u8, lo: u8) -> int {
    hi as int * 256 + lo as int
}

/// `data` starts a PROXY v2 header: at least 16 bytes, the signature, and
/// version nibble 2.
pub open spec fn spec_is_proxy_v2(d: Seq<u8>) -> bool {
    &&& d.len() >= 16
    &&& has_v2_signature(d)
    &&& d[12] / 16 == 2
}

pub open spec fn command_of(n: u8) -> Option<ProxyCommand> {
    if n == 0 {
        Some(ProxyCommand::Local)
    } else if n == 1 {
        Some(ProxyCommand::Proxy)
    } else {
        None
    }
}

pub open spec fn family_of(n: u8) -> Option<ProxyAddressFamily> {
    if n == 0 {
        Some(ProxyAddressFamily::Unspec)
    } else if n == 1 {
        Some(ProxyAddressFamily::Inet)
    } else if n == 2 {
        Some(ProxyAddressFamily::Inet6)
    } else if n == 3 {
        Some(ProxyAddressFamily::Unix)
    } else {
        None
    }
}

pub open spec fn protocol_of(n: u8) -> Option<ProxyProtocol> {
    if n == 0 {
        Some(ProxyProtocol::Unspec)
    } else if n == 1 {
        Some(ProxyProtocol::Stream)
    } else if n == 2 {
        Some(ProxyProtocol::Datagram)
    } else {
        None
    }
}

/// Addresses carried in the address block `b`.
pub open spec fn spec_addresses(
    family: ProxyAddressFamily,
    protocol: ProxyProtocol,
    b: Seq<u8>,
) -> Result<Option<(SocketAddrSpec, SocketAddrSpec)>, ProxyProtocolError> {
    if family == ProxyAddressFamily::Inet && protocol == ProxyProtocol::Stream {
        if b.len() < 12 {
            Err(ProxyProtocolError::Ipv4TooShort)
        } else {
            Ok(Some((
                SocketAddrSpec { ip: IpSpec::V4(b.subrange(0, 4)), port: be16(b[8], b[9]) as u16 },
                SocketAddrSpec { ip: IpSpec::V4(b.subrange(4, 8)), port: be16(b[10], b[11]) as u16 },
            )))
        }
    } else if family == ProxyAddressFamily::Inet6 && protocol == ProxyProtocol::Stream {
        if b.len() < 36 {
            Err(ProxyProtocolError::Ipv6TooShort)
        } else {
            Ok(Some((
                SocketAddrSpec { ip: IpSpec::V6(b.subrange(0, 16)), port: be16(b[32], b[33]) as u16 },
                SocketAddrSpec { ip: IpSpec::V6(b.subrange(16, 32)), port: be16(b[34], b[35]) as u16 },
            )))
        }
    } else {
        Ok(None)
    }
}

/// TLV records of `t` from offset `pos` on; a record whose value runs past
/// the end of `t` ends the list.
pub open spec fn spec_tlvs_from(t: Seq<u8>, pos: nat) -> Seq<(u8, Seq<u8>)>
    decreases t.len() - pos,
{
    if pos + 3 <= t.len() {
        let p = pos as int;
        let len = be16(t[p + 1], t[p + 2]);
        if p + 3 + len > t.len() {
            Seq::empty()
        } else {
            seq![(t[p], t.subrange(p + 3, p + 3 + len))]
                + spec_tlvs_from(t, (p + 3 + len) as nat)
        }
    } else {
        Seq::empty()
    }
}

/// The ALPN TLV type.
pub open spec fn is_alpn_record(r: (u8, Seq<u8>)) -> bool {
    r.0 == 1 && valid_utf8(r.1)
}

/// The ALPN protocol given by the last ALPN record whose value is valid
/// UTF-8.
pub open spec fn spec_alpn(tlvs: Seq<(u8, Seq<u8>)>) -> Option<Seq<char>>
    decreases tlvs.len(),
{
    if tlvs.len() == 0 {
        None
    } else if is_alpn_record(tlvs.last()) {
        Some(decode_utf8(tlvs.last().1))
    } else {
        spec_alpn(tlvs.drop_last())
    }
}

/// Full meaning of `ProxyProtocolV2Parser::parse` on `d`.
pub open spec fn spec_parse(d: Seq<u8>) -> Result<ProxyInfoSpec, ProxyProtocolError> {
    if d.len() < 16 {
        Err(ProxyProtocolError::TooShort)
    } else if !has_v2_signature(d) {
        Err(ProxyProtocolError::InvalidSignature)
    } else if d[12] / 16 != 2 {
        Err(ProxyProtocolError::UnsupportedVersion(d[12] / 16))
    } else if command_of(d[12] % 16) is None {
        Err(ProxyProtocolError::UnknownCommand)
    } else if family_of(d[13] / 16) is None {
        Err(ProxyProtocolError::UnknownAddressFamily)
    } else if protocol_of(d[13] % 16) is None {
        Err(ProxyProtocolError::UnknownTransport)
    } else {
        let len = be16(d[14], d[15]);
        let command = command_of(d[12] % 16).unwrap();
        let family = family_of(d[13] / 16).unwrap();
        let protocol = protocol_of(d[13] % 16).unwrap();
        if d.len() < 16 + len {
            Err(ProxyProtocolError::Incomplete)
        } else if len == 0 {
            Ok(ProxyInfoSpec {
                command,
                address_family: family,
                protocol,
                addresses: None,
                tlvs: Seq::empty(),
                alpn: None,
            })
        } else {
            match spec_addresses(family, protocol, d.subrange(16, 16 + len)) {
                Err(e) => Err(e),
                Ok(addresses) => {
                    let tlvs = spec_tlvs_from(d.subrange(16 + len, d.len() as int), 0);
                    Ok(ProxyInfoSpec {
                        command,
                        address_family: family,
                        protocol,
                        addresses,
                        tlvs,
                        alpn: spec_alpn(tlvs),
                    })
                },
            }
        }
    }
}

/// Dotted-decimal text of four IPv4 bytes.
pub open spec fn ipv4_text(b: Seq<u8>) -> Seq<char> {
    decimal(b[0] as nat) + seq!['.'] + decimal(b[1] as nat) + seq!['.'] + decimal(b[2] as nat)
        + seq!['.'] + decimal(b[3] as nat)
}

/// The eight 16-bit groups of an IPv6 address, from its 16 bytes.
pub open spec fn ipv6_groups(b: Seq<u8>) -> Seq<nat> {
    Seq::new(8, |i: int| be16(b[2 * i], b[2 * i + 1]) as nat)
}

/// State of the scan for the longest run of zero groups after the first `k`
/// groups: (start of longest, length of longest, start of current, length of
/// current). Ties keep the earlier run.
pub open spec fn zero_scan(g: Seq<nat>, k: nat) -> (nat, nat, nat, nat)
    decreases k,
{
    if k == 0 {
        (0, 0, 0, 0)
    } else {
        let prev = zero_scan(g, (k - 1) as nat);
        let i = (k - 1) as nat;
        if g[i as int] == 0 {
            let cs = if prev.3 == 0 { i } else { prev.2 };
            let cl = prev.3 + 1;
            if cl > prev.1 {
                (cs, cl, cs, cl)
            } else {
                (prev.0, prev.1, cs, cl)
            }
        } else {
            (prev.0, prev.1, 0, 0)
        }
    }
}

/// Groups written in hexadecimal and separated by `:`.
pub open spec fn join_hex(g: Seq<nat>) -> Seq<char>
    decreases g.len(),
{
    if g.len() == 0 {
        Seq::empty()
    } else if g.len() == 1 {
        hex(g[0])
    } else {
        join_hex(g.drop_last()) + seq![':'] + hex(g.last())
    }
}

/// IPv4-mapped IPv6 address (`::ffff:a.b.c.d`).
pub open spec fn is_ipv4_mapped(g: Seq<nat>) -> bool {
    g[0] == 0 && g[1] == 0 && g[2] == 0 && g[3] == 0 && g[4] == 0 && g[5] == 0xffff
}

/// Text form of an IPv6 address (RFC 5952, as `std` writes it): IPv4-mapped
/// addresses as `::ffff:` and dotted decimal; otherwise lowercase hex groups
/// with the first longest run of two or more zero groups written as `::`.
pub open spec fn ipv6_text(b: Seq<u8>) -> Seq<char> {
    let g = ipv6_groups(b);
    if is_ipv4_mapped(g) {
        seq![':', ':', 'f', 'f', 'f', 'f', ':'] + ipv4_text(b.subrange(12, 16))
    } else {
        let z = zero_scan(g, 8);
        if z.1 > 1 {
            join_hex(g.subrange(0, z.0 as int)) + seq![':', ':'] + join_hex(
                g.subrange((z.0 + z.1) as int, 8),
            )
        } else {
            join_hex(g)
        }
    }
}

/// Text of an IP address.
pub open spec fn ip_text(ip: IpSpec) -> Seq<char> {
    match ip {
        IpSpec::V4(b) => ipv4_text(b),
        IpSpec::V6(b) => ipv6_text(b),
    }
}

// ---------------------------------------------------------------------------
// Trusted calls into std
// ---------------------------------------------------------------------------

/// `std::string::String::from_utf8`: succeeds exactly on valid UTF-8 and then
/// holds the decoded characters.
#[verifier::external_body]
fn string_from_utf8(bytes: Vec<u8>) -> (r: Option<String>)
    ensures
        r is Some <==> valid_utf8(bytes@),
        r matches Some(s) ==> s@ == decode_utf8(bytes@),
{
    String::from_utf8(bytes).ok()
}

// ---------------------------------------------------------------------------
// Implementation
// ---------------------------------------------------------------------------

impl ProxyProtocolV2Info {
    /// A header with the given command, family and protocol, no addresses,
    /// no TLVs and no ALPN.
    pub fn new(
        command: ProxyCommand,
        address_family: ProxyAddressFamily,
        protocol: ProxyProtocol,
    ) -> (r: Self)
        ensures
            r@ == (ProxyInfoSpec {
                command,
                address_family,
                protocol,
                addresses: None,
                tlvs: Seq::empty(),
                alpn: None,
            }),
    {
        let r = Self { command, address_family, protocol, addresses: None, tlvs: Vec::new(), alpn: None };
        assert(tlvs_model(r.tlvs@) =~= Seq::empty());
        r
    }

    /// Text of the client (source) IP address, if the header carried
    /// addresses.
    pub fn client_ip(&self) -> (r: Option<String>)
        ensures
            match self@.addresses {
                Some(a) => r matches Some(s) && s@ == ip_text(a.0.ip),
                None => r is None,
            },
    {
        match &self.addresses {
            Some(addrs) => Some(ip_to_string(&addrs.src_addr.ip)),
            None => None,
        }
    }

    /// The client (source) port, if the header carried addresses.
    pub fn client_port(&self) -> (r: Option<u16>)
        ensures
            match self@.addresses {
                Some(a) => r == Some(a.0.port),
                None => r is None,
            },
    {
        match &self.addresses {
            Some(addrs) => Some(addrs.src_addr.port),
            None => None,
        }
    }
}

/// Text of an IP address: dotted decimal for IPv4, `std`'s text for IPv6.
pub fn ip_to_string(ip: &IpAddress) -> (r: String)
    ensures
        r@ == ip_text(ip.spec_model()),
{
    match ip {
        IpAddress::V4(b) => {
            let mut s = decimal_string(b[0] as u64);
            string_push(&mut s, '.');
            push_decimal(b[1] as u64, &mut s);
            string_push(&mut s, '.');
            push_decimal(b[2] as u64, &mut s);
            string_push(&mut s, '.');
            push_decimal(b[3] as u64, &mut s);
            assert(s@ =~= ipv4_text(b@));
            s
        },
        IpAddress::V6(b) => ipv6_to_string(b),
    }
}

/// Appends `join_hex(g[lo..hi])` to `out`.
fn push_join_hex(g: &[u16; 8], lo: usize, hi: usize, out: &mut String)
    requires
        lo <= hi <= 8,
    ensures
        final(out)@ == old(out)@ + join_hex(g@.map_values(|x: u16| x as nat).subrange(lo as int, hi as int)),
{
    let ghost gs = g@.map_values(|x: u16| x as nat);
    let mut k = lo;
    assert(gs.subrange(lo as int, lo as int) =~= Seq::<nat>::empty());
    while k < hi
        invariant
            lo <= k <= hi <= 8,
            gs == g@.map_values(|x: u16| x as nat),
            out@ == old(out)@ + join_hex(gs.subrange(lo as int, k as int)),
        decreases hi - k,
    {
        let ghost before = out@;
        if k > lo {
            string_push(out, ':');
        }
        push_hex(g[k] as u64, out);
        proof {
            let sub = gs.subrange(lo as int, k + 1);
            assert(sub.drop_last() =~= gs.subrange(lo as int, k as int));
            assert(sub.last() == g@[k as int] as nat);
            if k > lo {
                assert(join_hex(sub) == join_hex(sub.drop_last()) + seq![':'] + hex(sub.last()));
                assert(out@ =~= old(out)@ + join_hex(sub));
            } else {
                assert(sub.len() == 1);
                assert(join_hex(sub) == hex(sub[0]));
                assert(out@ =~= old(out)@ + join_hex(sub));
            }
        }
        k = k + 1;
    }
}

/// Text of an IPv6 address, as `ipv6_text` describes it.
fn ipv6_to_string(b: &[u8; 16]) -> (r: String)
    ensures
        r@ == ipv6_text(b@),
{
    let g: [u16; 8] = [
        (b[0] as u16) * 256 + b[1] as u16,
        (b[2] as u16) * 256 + b[3] as u16,
        (b[4] as u16) * 256 + b[5] as u16,
        (b[6] as u16) * 256 + b[7] as u16,
        (b[8] as u16) * 256 + b[9] as u16,
        (b[10] as u16) * 256 + b[11] as u16,
        (b[12] as u16) * 256 + b[13] as u16,
        (b[14] as u16) * 256 + b[15] as u16,
    ];
    let ghost gs = g@.map_values(|x: u16| x as nat);
    assert(gs =~= ipv6_groups(b@));
    let mut s = String::new();
    if g[0] == 0 && g[1] == 0 && g[2] == 0 && g[3] == 0 && g[4] == 0 && g[5] == 0xffff {
        string_push(&mut s, ':');
        string_push(&mut s, ':');
        string_push(&mut s, 'f');
        string_push(&mut s, 'f');
        string_push(&mut s, 'f');
        string_push(&mut s, 'f');
        string_push(&mut s, ':');
        push_decimal(b[12] as u64, &mut s);
        string_push(&mut s, '.');
        push_decimal(b[13] as u64, &mut s);
        string_push(&mut s, '.');
        push_decimal(b[14] as u64, &mut s);
        string_push(&mut s, '.');
        push_decimal(b[15] as u64, &mut s);
        assert(s@ =~= ipv6_text(b@));
        return s;
    }
    let mut bs: usize = 0;
    let mut bl: usize = 0;
    let mut cs: usize = 0;
    let mut cl: usize = 0;
    let mut i: usize = 0;
    while i < 8
        invariant
            i <= 8,
            gs == g@.map_values(|x: u16| x as nat),
            (bs as nat, bl as nat, cs as nat, cl as nat) == zero_scan(gs, i as nat),
            bs + bl <= i,
            cs + cl <= i,
        decreases 8 - i,
    {
        if g[i] == 0 {
            if cl == 0 {
                cs = i;
            }
            cl = cl + 1;
            if cl > bl {
                bs = cs;
                bl = cl;
            }
        } else {
            cs = 0;
            cl = 0;
        }
        i = i + 1;
    }
    if bl > 1 {
        push_join_hex(&g, 0, bs, &mut s);
        string_push(&mut s, ':');
        string_push(&mut s, ':');
        push_join_hex(&g, bs + bl, 8, &mut s);
        assert(s@ =~= ipv6_text(b@));
    } else {
        push_join_hex(&g, 0, 8, &mut s);
        assert(gs.subrange(0, 8) =~= gs);
        assert(s@ =~= ipv6_text(b@));
    }
    s
}

/// Stateless PROXY protocol v2 parser.
pub struct ProxyProtocolV2Parser;

fn be16_at(data: &[u8], i: usize) -> (r: usize)
    requires
        i + 1 < data.len(),
    ensures
        r == be16(data[i as int], data[i + 1]),
        r <= 65535,
{
    (data[i] as usize) * 256 + (data[i + 1] as usize)
}

fn has_signature_exec(data: &[u8]) -> (r: bool)
    requires
        data.len() >= 12,
    ensures
        r == has_v2_signature(data@),
{
    data[0] == 0x0D && data[1] == 0x0A && data[2] == 0x0D && data[3] == 0x0A && data[4] == 0x00
        && data[5] == 0x0D && data[6] == 0x0A && data[7] == 0x51 && data[8] == 0x55 && data[9]
        == 0x49 && data[10] == 0x54 && data[11] == 0x0A
}

impl ProxyProtocolV2Parser {
    /// Whether `data` starts a PROXY v2 header: at least 16 bytes, the
    /// signature, and version 2 in the high nibble of byte 12.
    pub fn is_proxy_v2(data: &[u8]) -> (r: bool)
        ensures
            r == spec_is_proxy_v2(data@),
    {
        if data.len() < 16 {
            return false;
        }
        has_signature_exec(data) && data[12] / 16 == 2
    }

    /// Parses a PROXY v2 header at the start of `data`.
    pub fn parse(data: &[u8]) -> (r: Result<ProxyProtocolV2Info, ProxyProtocolError>)
        ensures
            match spec_parse(data@) {
                Ok(info) => r matches Ok(v) && v@ == info,
                Err(e) => r == Err::<ProxyProtocolV2Info, ProxyProtocolError>(e),
            },
    {
        if data.len() < 16 {
            return Err(ProxyProtocolError::TooShort);
        }
        if !has_signature_exec(data) {
            return Err(ProxyProtocolError::InvalidSignature);
        }
        let version_cmd = data[12];
        let version = version_cmd / 16;
        if version != 2 {
            return Err(ProxyProtocolError::UnsupportedVersion(version));
        }
        let command = match version_cmd % 16 {
            0 => ProxyCommand::Local,
            1 => ProxyCommand::Proxy,
            _ => return Err(ProxyProtocolError::UnknownCommand),
        };
        let fam_protocol = data[13];
        let address_family = match fam_protocol / 16 {
            0 => ProxyAddressFamily::Unspec,
            1 => ProxyAddressFamily::Inet,
            2 => ProxyAddressFamily::Inet6,
            3 => ProxyAddressFamily::Unix,
            _ => return Err(ProxyProtocolError::UnknownAddressFamily),
        };
        let protocol = match fam_protocol % 16 {
            0 => ProxyProtocol::Unspec,
            1 => ProxyProtocol::Stream,
            2 => ProxyProtocol::Datagram,
            _ => return Err(ProxyProtocolError::UnknownTransport),
        };
        let len = be16_at(data, 14);
        if data.len() < 16 + len {
            return Err(ProxyProtocolError::Incomplete);
        }
        let mut info = ProxyProtocolV2Info::new(command, address_family, protocol);
        if len > 0 {
            let addresses = Self::parse_addresses(data, 16, len, address_family, protocol)?;
            info.addresses = addresses;
            let (tlvs, alpn) = Self::parse_tlvs(data, 16 + len);
            info.tlvs = tlvs;
            info.alpn = alpn;
        }
        Ok(info)
    }

    /// Parses the address block `data[start..start + len]`.
    fn parse_addresses(
        data: &[u8],
        start: usize,
        len: usize,
        family: ProxyAddressFamily,
        protocol: ProxyProtocol,
    ) -> (r: Result<Option<ProxyAddresses>, ProxyProtocolError>)
        requires
            start + len <= data.len(),
        ensures
            match spec_addresses(family, protocol, data@.subrange(start as int, start + len)) {
                Ok(a) => r matches Ok(v) && opt_addresses_model(v) == a,
                Err(e) => r == Err::<Option<ProxyAddresses>, ProxyProtocolError>(e),
            },
    {
        let ghost b = data@.subrange(start as int, start + len);
        if family == ProxyAddressFamily::Inet && protocol == ProxyProtocol::Stream {
            if len < 12 {
                return Err(ProxyProtocolError::Ipv4TooShort);
            }
            let s = start;
            let src_ip = [data[s], data[s + 1], data[s + 2], data[s + 3]];
            let dst_ip = [data[s + 4], data[s + 5], data[s + 6], data[s + 7]];
            let src_port = be16_at(data, s + 8) as u16;
            let dst_port = be16_at(data, s + 10) as u16;
            assert(src_ip@ =~= b.subrange(0, 4));
            assert(dst_ip@ =~= b.subrange(4, 8));
            Ok(Some(ProxyAddresses {
                src_addr: SocketAddress { ip: IpAddress::V4(src_ip), port: src_port },
                dst_addr: SocketAddress { ip: IpAddress::V4(dst_ip), port: dst_port },
            }))
        } else if family == ProxyAddressFamily::Inet6 && protocol == ProxyProtocol::Stream {
            if len < 36 {
                return Err(ProxyProtocolError::Ipv6TooShort);
            }
            let s = start;
            let src_ip = [
                data[s], data[s + 1], data[s + 2], data[s + 3], data[s + 4], data[s + 5],
                data[s + 6], data[s + 7], data[s + 8], data[s + 9], data[s + 10], data[s + 11],
                data[s + 12], data[s + 13], data[s + 14], data[s + 15],
            ];
            let dst_ip = [
                data[s + 16], data[s + 17], data[s + 18], data[s + 19], data[s + 20],
                data[s + 21], data[s + 22], data[s + 23], data[s + 24], data[s + 25],
                data[s + 26], data[s + 27], data[s + 28], data[s + 29], data[s + 30],
                data[s + 31],
            ];
            let src_port = be16_at(data, s + 32) as u16;
            let dst_port = be16_at(data, s + 34) as u16;
            assert(src_ip@ =~= b.subrange(0, 16));
            assert(dst_ip@ =~= b.subrange(16, 32));
            Ok(Some(ProxyAddresses {
                src_addr: SocketAddress { ip: IpAddress::V6(src_ip), port: src_port },
                dst_addr: SocketAddress { ip: IpAddress::V6(dst_ip), port: dst_port },
            }))
        } else {
            Ok(None)
        }
    }

    /// Parses TLV records from `data[start..]` and the ALPN they announce.
    fn parse_tlvs(data: &[u8], start: usize) -> (r: (Vec<ProxyTLV>, Option<String>))
        requires
            start <= data.len(),
        ensures
            tlvs_model(r.0@) == spec_tlvs_from(data@.subrange(start as int, data.len() as int), 0),
            opt_string_model(r.1) == spec_alpn(tlvs_model(r.0@)),
    {
        let ghost t = data@.subrange(start as int, data.len() as int);
        let mut tlvs: Vec<ProxyTLV> = Vec::new();
        let mut alpn: Option<String> = None;
        let mut pos: usize = 0;
        let mut done = false;
        let n = data.len() - start;
        assert(tlvs_model(tlvs@) =~= Seq::empty());
        while !done && n - pos >= 3
            invariant
                n == data.len() - start,
                t == data@.subrange(start as int, data.len() as int),
                pos <= n,
                tlvs_model(tlvs@) + (if done { Seq::empty() } else { spec_tlvs_from(t, pos as nat) })
                    == spec_tlvs_from(t, 0),
                opt_string_model(alpn) == spec_alpn(tlvs_model(tlvs@)),
            decreases n - pos, (if done { 0int } else { 1int }),
        {
            let tpe = data[start + pos];
            let len = be16_at(data, start + pos + 1);
            if len > n - pos - 3 {
                assert(spec_tlvs_from(t, pos as nat) =~= Seq::empty());
                done = true;
                assert(tlvs_model(tlvs@) + Seq::<(u8, Seq<u8>)>::empty() =~= tlvs_model(tlvs@));
            } else {
                let mut value: Vec<u8> = Vec::new();
                let mut k: usize = 0;
                while k < len
                    invariant
                        k <= len,
                        start + pos + 3 + len <= data.len(),
                        value@ =~= data@.subrange((start + pos + 3) as int, (start + pos + 3 + k) as int),
                    decreases len - k,
                {
                    value.push(data[start + pos + 3 + k]);
                    k = k + 1;
                }
                let ghost rec = (tpe, value@);
                assert(value@ =~= t.subrange(pos + 3, pos + 3 + len));
                if tpe == 1 {
                    let copy = value.clone();
                    assert(copy@ == value@);
                    match string_from_utf8(copy) {
                        Some(s) => {
                            alpn = Some(s);
                        },
                        None => {},
                    }
                }
                let ghost old_tlvs = tlvs_model(tlvs@);
                tlvs.push(ProxyTLV { tpe, value });
                proof {
                    assert(tlvs_model(tlvs@) =~= old_tlvs.push(rec));
                    assert(tlvs_model(tlvs@).drop_last() =~= old_tlvs);
                    assert(old_tlvs + spec_tlvs_from(t, pos as nat) =~= tlvs_model(tlvs@)
                        + spec_tlvs_from(t, (pos + 3 + len) as nat));
                }
                pos = pos + 3 + len;
            }
        }
        if !done {
            assert(spec_tlvs_from(t, pos as nat) =~= Seq::empty());
            assert(tlvs_model(tlvs@) + Seq::<(u8, Seq<u8>)>::empty() =~= tlvs_model(tlvs@));
        }
        (tlvs, alpn)
    }
}

} // verus!

verus! {

// ---------------------------------------------------------------------------
// Laws
// ---------------------------------------------------------------------------

/// Every header that `parse` accepts is one that `is_proxy_v2` recognises.
pub proof fn lemma_parse_ok_implies_is_proxy_v2(d: Seq<u8>)
    requires
        spec_parse(d) is Ok,
    ensures
        spec_is_proxy_v2(d),
{
}

/// The PROXY v2 header HAProxy sends for a TCP-over-IPv4 connection:
/// signature, `PROXY` command, `AF_INET`/`STREAM`, a 12-byte address block.
pub open spec fn tcp4_header(src: Seq<u8>, dst: Seq<u8>, src_port: u16, dst_port: u16) -> Seq<u8> {
    seq![0x0Du8, 0x0A, 0x0D, 0x0A, 0x00, 0x0D, 0x0A, 0x51, 0x55, 0x49, 0x54, 0x0A, 0x21, 0x11, 0x00, 12]
        + src + dst + seq![(src_port / 256) as u8, (src_port % 256) as u8, (dst_port / 256) as u8, (dst_port % 256) as u8]
}

/// Parsing a TCP-over-IPv4 PROXY v2 header gives back the command, family,
/// protocol, addresses and ports it was built from, with no TLVs.
pub proof fn lemma_parse_tcp4_header(src: Seq<u8>, dst: Seq<u8>, src_port: u16, dst_port: u16)
    requires
        src.len() == 4,
        dst.len() == 4,
    ensures
        spec_parse(tcp4_header(src, dst, src_port, dst_port)) == Ok::<ProxyInfoSpec, ProxyProtocolError>(ProxyInfoSpec {
            command: ProxyCommand::Proxy,
            address_family: ProxyAddressFamily::Inet,
            protocol: ProxyProtocol::Stream,
            addresses: Some((
                SocketAddrSpec { ip: IpSpec::V4(src), port: src_port },
                SocketAddrSpec { ip: IpSpec::V4(dst), port: dst_port },
            )),
            tlvs: Seq::empty(),
            alpn: None,
        }),
{
    let d = tcp4_header(src, dst, src_port, dst_port);
    assert(d.len() == 28);
    let b = d.subrange(16, 28);
    assert(b.subrange(0, 4) =~= src);
    assert(b.subrange(4, 8) =~= dst);
    assert(be16(b[8], b[9]) == src_port as int);
    assert(be16(b[10], b[11]) == dst_port as int);
    assert(spec_tlvs_from(d.subrange(28, 28), 0) =~= Seq::empty());
    assert(spec_alpn(Seq::<(u8, Seq<u8>)>::empty()) == None::<Seq<char>>);
}


/// The PROXY v2 header HAProxy sends for a TCP-over-IPv6 connection:
/// signature, `PROXY` command, `AF_INET6`/`STREAM`, a 36-byte address block
/// (source address, destination address, source port, destination port).
pub open spec fn tcp6_header(src: Seq<u8>, dst: Seq<u8>, src_port: u16, dst_port: u16) -> Seq<u8> {
    seq![0x0Du8, 0x0A, 0x0D, 0x0A, 0x00, 0x0D, 0x0A, 0x51, 0x55, 0x49, 0x54, 0x0A, 0x21, 0x21, 0x00, 36]
        + src + dst + seq![(src_port / 256) as u8, (src_port % 256) as u8, (dst_port / 256) as u8, (dst_port % 256) as u8]
}

/// Parsing a TCP-over-IPv6 PROXY v2 header gives back the command, family,
/// protocol, addresses and ports it was built from, with no TLVs: the client
/// (source) port is the one that follows the two addresses.
pub proof fn lemma_parse_tcp6_header(src: Seq<u8>, dst: Seq<u8>, src_port: u16, dst_port: u16)
    requires
        src.len() == 16,
        dst.len() == 16,
    ensures
        spec_parse(tcp6_header(src, dst, src_port, dst_port)) == Ok::<ProxyInfoSpec, ProxyProtocolError>(ProxyInfoSpec {
            command: ProxyCommand::Proxy,
            address_family: ProxyAddressFamily::Inet6,
            protocol: ProxyProtocol::Stream,
            addresses: Some((
                SocketAddrSpec { ip: IpSpec::V6(src), port: src_port },
                SocketAddrSpec { ip: IpSpec::V6(dst), port: dst_port },
            )),
            tlvs: Seq::empty(),
            alpn: None,
        }),
{
    let d = tcp6_header(src, dst, src_port, dst_port);
    assert(d.len() == 52);
    let b = d.subrange(16, 52);
    assert(b.subrange(0, 16) =~= src);
    assert(b.subrange(16, 32) =~= dst);
    assert(b[32] == (src_port / 256) as u8 && b[33] == (src_port % 256) as u8);
    assert(b[34] == (dst_port / 256) as u8 && b[35] == (dst_port % 256) as u8);
    assert(be16(b[32], b[33]) == src_port as int);
    assert(be16(b[34], b[35]) == dst_port as int);
    assert(spec_tlvs_from(d.subrange(52, 52), 0) =~= Seq::empty());
    assert(spec_alpn(Seq::<(u8, Seq<u8>)>::empty()) == None::<Seq<char>>);
}

} // verus!
