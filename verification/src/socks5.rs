//! SOCKS5 (RFC 1928) handshake for the local proxy: the greeting and method
//! choice, the CONNECT request and its address, the reply, and the text form
//! of the requested target.
use vstd::prelude::*;
use crate::config::ProxyConfig;
use crate::error::ProxyError;
use crate::text::{
    decimal, hex_lower, labeled_number, push_decimal, push_hex, push_str, string_of,
    utf8_to_string,
};
use vstd::utf8::{decode_utf8, valid_utf8};

verus! {

pub const SOCKS5_VERSION: u8 = 0x05;

pub const SOCKS5_AUTH_NONE: u8 = 0x00;

pub const SOCKS5_AUTH_UNACCEPTABLE: u8 = 0xFF;

pub const SOCKS5_CMD_CONNECT: u8 = 0x01;

pub const SOCKS5_ATYP_IPV4: u8 = 0x01;

pub const SOCKS5_ATYP_DOMAIN: u8 = 0x03;

pub const SOCKS5_ATYP_IPV6: u8 = 0x04;

pub const SOCKS5_REP_SUCCESS: u8 = 0x00;

pub const SOCKS5_REP_GENERAL_FAILURE: u8 = 0x01;

pub const SOCKS5_REP_COMMAND_NOT_SUPPORTED: u8 = 0x07;

pub const SOCKS5_REP_ADDRESS_TYPE_NOT_SUPPORTED: u8 = 0x08;

/// An IP address, as its bytes in network order.
#[derive(Debug, Clone, Copy, PartialEq, Eq)]
pub enum IpAddress {
    V4([u8; 4]),
    V6([u8; 16]),
}

/// Where a client asked to be connected.
#[derive(Debug, Clone)]
pub enum TargetAddr {
    Ip(IpAddress, u16),
    Domain(String, u16),
}

// ---------------------------------------------------------------------------
// Text form of addresses
// ---------------------------------------------------------------------------

/// Dotted-decimal form of an IPv4 address.
pub open spec fn ipv4_text(a: u8, b: u8, c: u8, d: u8) -> Seq<char> {
    decimal(a as nat) + seq!['.'] + decimal(b as nat) + seq!['.'] + decimal(c as nat) + seq!['.']
        + decimal(d as nat)
}

/// The `i`-th 16-bit group of an IPv6 address.
pub open spec fn segment(b: Seq<u8>, i: int) -> u16 {
    (b[2 * i] as int * 256 + b[2 * i + 1] as int) as u16
}

/// The eight 16-bit groups of an IPv6 address.
pub open spec fn segments(b: Seq<u8>) -> Seq<u16> {
    Seq::new(8, |i: int| segment(b, i))
}

/// An IPv4 address embedded as `::ffff:a.b.c.d`.
pub open spec fn is_ipv4_mapped(b: Seq<u8>) -> bool {
    &&& forall|i: int| 0 <= i < 10 ==> b[i] == 0
    &&& b[10] == 0xff
    &&& b[11] == 0xff
}

/// Number of consecutive zero groups starting at `i`.
pub open spec fn zero_run_at(segs: Seq<u16>, i: int) -> nat
    decreases segs.len() - i,
{
    if 0 <= i < segs.len() && segs[i] == 0 {
        1 + zero_run_at(segs, i + 1)
    } else {
        0
    }
}

/// Start and length of the longest run of zero groups at or after `i`; of
/// equally long runs, the first.
pub open spec fn longest_zero_run(segs: Seq<u16>, i: int) -> (int, nat)
    decreases segs.len() - i,
{
    if i < 0 || i >= segs.len() {
        (segs.len() as int, 0)
    } else {
        let later = longest_zero_run(segs, i + 1);
        if zero_run_at(segs, i) >= later.1 {
            (i, zero_run_at(segs, i))
        } else {
            later
        }
    }
}

/// Groups in lower-case hexadecimal, separated by `:`.
pub open spec fn join_hex(segs: Seq<u16>) -> Seq<char>
    decreases segs.len(),
{
    if segs.len() == 0 {
        seq![]
    } else if segs.len() == 1 {
        hex_lower(segs[0] as nat)
    } else {
        join_hex(segs.drop_last()) + seq![':'] + hex_lower(segs.last() as nat)
    }
}

/// The text form of an IPv6 address that `Ipv6Addr`'s `Display` writes:
/// IPv4-mapped addresses as `::ffff:a.b.c.d`, otherwise groups in hex with the
/// first longest run of two or more zero groups written as `::`.
pub open spec fn ipv6_text(b: Seq<u8>) -> Seq<char> {
    if is_ipv4_mapped(b) {
        "::ffff:"@ + ipv4_text(b[12], b[13], b[14], b[15])
    } else {
        let segs = segments(b);
        let run = longest_zero_run(segs, 0);
        if run.1 > 1 {
            join_hex(segs.subrange(0, run.0)) + "::"@ + join_hex(segs.subrange(run.0 + run.1, 8))
        } else {
            join_hex(segs)
        }
    }
}

/// No two neighbouring groups are both zero.
pub open spec fn no_double_zero(segs: Seq<u16>) -> bool {
    forall|j: int| 0 <= j < segs.len() - 1 ==> !(#[trigger] segs[j] == 0 && segs[j + 1] == 0)
}

/// Without two neighbouring zero groups, no run of zero groups is longer
/// than one.
proof fn lemma_short_zero_runs(segs: Seq<u16>, i: int)
    requires
        no_double_zero(segs),
    ensures
        longest_zero_run(segs, i).1 <= 1,
    decreases segs.len() - i,
{
    if 0 <= i < segs.len() {
        lemma_short_zero_runs(segs, i + 1);
        if segs[i] == 0 && i + 1 < segs.len() {
            assert(segs[i + 1] != 0);
            assert(zero_run_at(segs, i + 1) == 0);
        }
        assert(zero_run_at(segs, i) <= 1);
    }
}

/// The text of an IPv6 address uses `::` only for a run of two or more zero
/// groups: when no two neighbouring groups are zero (in particular when no
/// group is zero) it is the eight groups in lower-case hexadecimal joined by
/// `:`.
pub proof fn law_ipv6_text_without_zero_run(b: Seq<u8>)
    requires
        b.len() == 16,
        no_double_zero(segments(b)),
    ensures
        ipv6_text(b) == join_hex(segments(b)),
{
    let segs = segments(b);
    if is_ipv4_mapped(b) {
        assert(b[0] == 0 && b[1] == 0 && b[2] == 0 && b[3] == 0);
        assert(segs[0] == segment(b, 0));
        assert(segs[1] == segment(b, 1));
        assert(segs[0] == 0 && segs[1] == 0);
        assert(false);
    }
    lemma_short_zero_runs(segs, 0);
}

/// The text form of an IP address.
pub open spec fn ip_text(ip: IpAddress) -> Seq<char> {
    match ip {
        IpAddress::V4(a) => ipv4_text(a[0], a[1], a[2], a[3]),
        IpAddress::V6(a) => ipv6_text(a@),
    }
}

/// The host part of a target: the domain itself, or the address in text.
pub open spec fn target_host(t: TargetAddr) -> Seq<char> {
    match t {
        TargetAddr::Ip(ip, _) => ip_text(ip),
        TargetAddr::Domain(d, _) => d@,
    }
}

pub open spec fn target_port(t: TargetAddr) -> u16 {
    match t {
        TargetAddr::Ip(_, p) => p,
        TargetAddr::Domain(_, p) => p,
    }
}

fn push_ipv4(out: &mut Vec<char>, a: u8, b: u8, c: u8, d: u8)
    ensures
        final(out)@ == old(out)@ + ipv4_text(a, b, c, d),
{
    push_decimal(out, a as u64);
    out.push('.');
    push_decimal(out, b as u64);
    out.push('.');
    push_decimal(out, c as u64);
    out.push('.');
    push_decimal(out, d as u64);
    assert(final(out)@ =~= old(out)@ + ipv4_text(a, b, c, d));
}

/// Appends the groups `segs[lo..hi]` joined by `:`.
fn push_joined(out: &mut Vec<char>, segs: &Vec<u16>, lo: usize, hi: usize)
    requires
        lo <= hi <= segs@.len(),
    ensures
        final(out)@ == old(out)@ + join_hex(segs@.subrange(lo as int, hi as int)),
{
    if lo == hi {
        assert(segs@.subrange(lo as int, hi as int) =~= Seq::<u16>::empty());
        assert(final(out)@ =~= old(out)@ + join_hex(segs@.subrange(lo as int, hi as int)));
        return;
    }
    push_hex(out, segs[lo] as u64);
    assert(segs@.subrange(lo as int, lo + 1) =~= seq![segs@[lo as int]]);
    let mut i = lo + 1;
    while i < hi
        invariant
            lo < i <= hi <= segs@.len(),
            out@ == old(out)@ + join_hex(segs@.subrange(lo as int, i as int)),
        decreases hi - i,
    {
        let ghost before = out@;
        out.push(':');
        push_hex(out, segs[i] as u64);
        assert(segs@.subrange(lo as int, i + 1).drop_last() =~= segs@.subrange(lo as int, i as int));
        assert(segs@.subrange(lo as int, i + 1).last() == segs@[i as int]);
        i = i + 1;
        assert(out@ =~= old(out)@ + join_hex(segs@.subrange(lo as int, i as int)));
    }
}

fn push_ipv6(out: &mut Vec<char>, b: &[u8; 16])
    ensures
        final(out)@ == old(out)@ + ipv6_text(b@),
{
    let mut mapped = b[10] == 0xff && b[11] == 0xff;
    let mut k: usize = 0;
    while k < 10
        invariant
            k <= 10,
            b@.len() == 16,
            mapped == (b@[10] == 0xff && b@[11] == 0xff && forall|i: int| 0 <= i < k ==> b@[i] == 0),
        decreases 10 - k,
    {
        if b[k] != 0 {
            mapped = false;
        }
        k = k + 1;
    }
    if mapped {
        push_str(out, "::ffff:");
        push_ipv4(out, b[12], b[13], b[14], b[15]);
        assert(final(out)@ =~= old(out)@ + ipv6_text(b@));
        return;
    }
    let mut segs: Vec<u16> = Vec::new();
    let mut j: usize = 0;
    while j < 8
        invariant
            j <= 8,
            b@.len() == 16,
            segs@.len() == j,
            forall|i: int| 0 <= i < j ==> segs@[i] == segment(b@, i),
        decreases 8 - j,
    {
        let s = (b[2 * j] as u16) * 256 + (b[2 * j + 1] as u16);
        segs.push(s);
        j = j + 1;
    }
    let ghost sg = segments(b@);
    assert(segs@ =~= sg);
    // Scan from the back, as `longest_zero_run` does.
    let mut i: usize = 8;
    let mut cur: usize = 0;
    let mut best_start: usize = 8;
    let mut best_len: usize = 0;
    while i > 0
        invariant
            i <= 8,
            segs@ == sg,
            sg.len() == 8,
            cur <= 8 - i,
            cur as nat == zero_run_at(sg, i as int),
            (best_start as int, best_len as nat) == longest_zero_run(sg, i as int),
            best_start as int + best_len as int <= 8,
        decreases i,
    {
        i = i - 1;
        if segs[i] == 0 {
            cur = cur + 1;
        } else {
            cur = 0;
        }
        if cur >= best_len {
            best_start = i;
            best_len = cur;
        }
    }
    if best_len > 1 {
        push_joined(out, &segs, 0, best_start);
        push_str(out, "::");
        push_joined(out, &segs, best_start + best_len, 8);
    } else {
        push_joined(out, &segs, 0, 8);
        assert(sg.subrange(0, 8) =~= sg);
    }
    assert(final(out)@ =~= old(out)@ + ipv6_text(b@));
}

impl TargetAddr {
    /// The host to connect to, in text.
    pub fn host(&self) -> (s: String)
        ensures
            s@ == target_host(*self),
    {
        match self {
            TargetAddr::Ip(IpAddress::V4(a), _) => {
                let mut v: Vec<char> = Vec::new();
                push_ipv4(&mut v, a[0], a[1], a[2], a[3]);
                string_of(&v)
            },
            TargetAddr::Ip(IpAddress::V6(a), _) => {
                let mut v: Vec<char> = Vec::new();
                push_ipv6(&mut v, a);
                string_of(&v)
            },
            TargetAddr::Domain(domain, _) => domain.clone(),
        }
    }

    /// The port to connect to.
    pub fn port(&self) -> (p: u16)
        ensures
            p == target_port(*self),
    {
        match self {
            TargetAddr::Ip(_, port) => *port,
            TargetAddr::Domain(_, port) => *port,
        }
    }
}


/// Where the method negotiation stands after the bytes received so far.
#[derive(Debug)]
pub enum AuthStep {
    /// The step needs this many bytes in all.
    NeedMore(usize),
    /// No authentication is offered: send the reply and go on.
    Accept(Vec<u8>),
    /// No acceptable method: send the reply, then fail with the error.
    Reject(Vec<u8>, ProxyError),
    /// A protocol error; nothing is sent.
    Failed(ProxyError),
}

/// Where the CONNECT request stands after the bytes received so far.
#[derive(Debug)]
pub enum RequestStep {
    /// The step needs this many bytes in all.
    NeedMore(usize),
    /// The request is complete and names this target.
    Complete(TargetAddr),
    /// A request the server does not support: send the reply, then fail
    /// with the error.
    Reject(Vec<u8>, ProxyError),
    /// A protocol error; nothing is sent.
    Failed(ProxyError),
}

/// The reply to a request with reply code `rep`: version, code, reserved
/// byte, and the bound address 0.0.0.0:0.
pub open spec fn reply_bytes(rep: u8) -> Seq<u8> {
    seq![SOCKS5_VERSION, rep, 0u8, SOCKS5_ATYP_IPV4, 0u8, 0u8, 0u8, 0u8, 0u8, 0u8]
}

/// A SOCKS5 protocol error whose message is `m`.
pub open spec fn socks_error(e: ProxyError, m: Seq<char>) -> bool {
    e matches ProxyError::Socks5ProtocolError(s) && s@ == m
}

/// A big-endian 16-bit number.
pub open spec fn be16(hi: u8, lo: u8) -> u16 {
    (hi as int * 256 + lo as int) as u16
}

/// Whether the method list offers "no authentication".
pub open spec fn offers_no_auth(methods: Seq<u8>) -> bool {
    exists|i: int| 0 <= i < methods.len() && methods[i] == SOCKS5_AUTH_NONE
}

/// SOCKS5 server accepting CONNECT requests.
pub struct Socks5Server {
    pub config: ProxyConfig,
}

impl Socks5Server {
    pub fn new(config: ProxyConfig) -> (s: Self)
        ensures
            s.config == config,
    {
        Socks5Server { config }
    }

    /// The method negotiation, on the bytes received so far from the client:
    /// version and method count, then the methods; only "no authentication"
    /// is accepted.
    pub fn handle_auth(buf: &[u8]) -> (r: AuthStep)
        ensures
            buf@.len() < 2 ==> r == AuthStep::NeedMore(2),
            buf@.len() >= 2 && buf@[0] != SOCKS5_VERSION ==> (r matches AuthStep::Failed(e)
                && socks_error(e, "Unsupported SOCKS version: "@ + decimal(buf@[0] as nat))),
            buf@.len() >= 2 && buf@[0] == SOCKS5_VERSION && buf@.len() < 2 + buf@[1] ==> r
                == AuthStep::NeedMore((2 + buf@[1]) as usize),
            buf@.len() >= 2 && buf@[0] == SOCKS5_VERSION && buf@.len() >= 2 + buf@[1] ==> {
                let methods = buf@.subrange(2, 2 + buf@[1] as int);
                &&& offers_no_auth(methods) ==> (r matches AuthStep::Accept(reply) && reply@
                    == seq![SOCKS5_VERSION, SOCKS5_AUTH_NONE])
                &&& !offers_no_auth(methods) ==> (r matches AuthStep::Reject(reply, e) && reply@
                    == seq![SOCKS5_VERSION, SOCKS5_AUTH_UNACCEPTABLE] && socks_error(
                    e,
                    "No acceptable authentication method"@,
                ))
            },
    {
        if buf.len() < 2 {
            return AuthStep::NeedMore(2);
        }
        let version = buf[0];
        let nmethods = buf[1] as usize;
        if version != SOCKS5_VERSION {
            return AuthStep::Failed(
                ProxyError::Socks5ProtocolError(
                    labeled_number("Unsupported SOCKS version: ", version as u64),
                ),
            );
        }
        if buf.len() < 2 + nmethods {
            return AuthStep::NeedMore(2 + nmethods);
        }
        let ghost methods = buf@.subrange(2, 2 + nmethods as int);
        let mut i: usize = 0;
        while i < nmethods
            invariant
                i <= nmethods,
                2 + nmethods <= buf@.len(),
                buf@[0] == SOCKS5_VERSION,
                nmethods == buf@[1],
                methods == buf@.subrange(2, 2 + nmethods as int),
                forall|j: int| 0 <= j < i ==> methods[j] != SOCKS5_AUTH_NONE,
            decreases nmethods - i,
        {
            if buf[2 + i] == SOCKS5_AUTH_NONE {
                assert(methods[i as int] == SOCKS5_AUTH_NONE);
                let reply = vec![SOCKS5_VERSION, SOCKS5_AUTH_NONE];
                return AuthStep::Accept(reply);
            }
            i = i + 1;
        }
        let reply = vec![SOCKS5_VERSION, SOCKS5_AUTH_UNACCEPTABLE];
        AuthStep::Reject(
            reply,
            ProxyError::Socks5ProtocolError("No acceptable authentication method".to_owned()),
        )
    }

    /// The CONNECT request, on the bytes received so far from the client:
    /// version, command, reserved byte and address type, then the address
    /// (four bytes, sixteen bytes, or a length and that many bytes of domain
    /// name) and the port in network order.
    pub fn handle_request(buf: &[u8]) -> (r: RequestStep)
        ensures
            buf@.len() < 4 ==> r == RequestStep::NeedMore(4),
            buf@.len() >= 4 && buf@[0] != SOCKS5_VERSION ==> (r matches RequestStep::Failed(e)
                && socks_error(e, "Invalid SOCKS version in request: "@ + decimal(buf@[0] as nat))),
            buf@.len() >= 4 && buf@[0] == SOCKS5_VERSION && buf@[1] != SOCKS5_CMD_CONNECT ==> (r
                matches RequestStep::Reject(reply, e) && reply@ == reply_bytes(
                SOCKS5_REP_COMMAND_NOT_SUPPORTED,
            ) && socks_error(e, "Unsupported SOCKS command: "@ + decimal(buf@[1] as nat))),
            buf@.len() >= 4 && buf@[0] == SOCKS5_VERSION && buf@[1] == SOCKS5_CMD_CONNECT ==> {
                let atyp = buf@[3];
                &&& atyp == SOCKS5_ATYP_IPV4 ==> if buf@.len() < 10 {
                    r == RequestStep::NeedMore(10)
                } else {
                    r matches RequestStep::Complete(TargetAddr::Ip(IpAddress::V4(a), port)) && a@
                        == buf@.subrange(4, 8) && port == be16(buf@[8], buf@[9])
                }
                &&& atyp == SOCKS5_ATYP_IPV6 ==> if buf@.len() < 22 {
                    r == RequestStep::NeedMore(22)
                } else {
                    r matches RequestStep::Complete(TargetAddr::Ip(IpAddress::V6(a), port)) && a@
                        == buf@.subrange(4, 20) && port == be16(buf@[20], buf@[21])
                }
                &&& atyp == SOCKS5_ATYP_DOMAIN ==> if buf@.len() < 5 {
                    r == RequestStep::NeedMore(5)
                } else if buf@.len() < 7 + buf@[4] {
                    r == RequestStep::NeedMore((7 + buf@[4]) as usize)
                } else {
                    let len = buf@[4] as int;
                    let name = buf@.subrange(5, 5 + len);
                    &&& valid_utf8(name) ==> (r matches RequestStep::Complete(
                        TargetAddr::Domain(d, port),
                    ) && d@ == decode_utf8(name) && port == be16(buf@[5 + len], buf@[6 + len]))
                    &&& !valid_utf8(name) ==> (r matches RequestStep::Failed(e) && socks_error(
                        e,
                        "Invalid domain name"@,
                    ))
                }
                &&& atyp != SOCKS5_ATYP_IPV4 && atyp != SOCKS5_ATYP_IPV6 && atyp
                    != SOCKS5_ATYP_DOMAIN ==> (r matches RequestStep::Reject(reply, e) && reply@
                    == reply_bytes(SOCKS5_REP_ADDRESS_TYPE_NOT_SUPPORTED) && socks_error(
                    e,
                    "Unsupported address type: "@ + decimal(atyp as nat),
                ))
            },
    {
        if buf.len() < 4 {
            return RequestStep::NeedMore(4);
        }
        let version = buf[0];
        let cmd = buf[1];
        let atyp = buf[3];
        if version != SOCKS5_VERSION {
            return RequestStep::Failed(
                ProxyError::Socks5ProtocolError(
                    labeled_number("Invalid SOCKS version in request: ", version as u64),
                ),
            );
        }
        if cmd != SOCKS5_CMD_CONNECT {
            return RequestStep::Reject(
                Self::send_response(SOCKS5_REP_COMMAND_NOT_SUPPORTED),
                ProxyError::Socks5ProtocolError(
                    labeled_number("Unsupported SOCKS command: ", cmd as u64),
                ),
            );
        }
        if atyp == SOCKS5_ATYP_IPV4 {
            if buf.len() < 10 {
                return RequestStep::NeedMore(10);
            }
            let a = [buf[4], buf[5], buf[6], buf[7]];
            assert(a@ =~= buf@.subrange(4, 8));
            let port = (buf[8] as u16) * 256 + (buf[9] as u16);
            RequestStep::Complete(TargetAddr::Ip(IpAddress::V4(a), port))
        } else if atyp == SOCKS5_ATYP_IPV6 {
            if buf.len() < 22 {
                return RequestStep::NeedMore(22);
            }
            let mut a = [0u8; 16];
            let mut k: usize = 0;
            while k < 16
                invariant
                    k <= 16,
                    buf@.len() >= 22,
                    forall|j: int| 0 <= j < k ==> a@[j] == buf@[4 + j],
                decreases 16 - k,
            {
                a[k] = buf[4 + k];
                k = k + 1;
            }
            assert(a@ =~= buf@.subrange(4, 20));
            let port = (buf[20] as u16) * 256 + (buf[21] as u16);
            RequestStep::Complete(TargetAddr::Ip(IpAddress::V6(a), port))
        } else if atyp == SOCKS5_ATYP_DOMAIN {
            if buf.len() < 5 {
                return RequestStep::NeedMore(5);
            }
            let len = buf[4] as usize;
            if buf.len() < 7 + len {
                return RequestStep::NeedMore(7 + len);
            }
            let mut name: Vec<u8> = Vec::new();
            let mut k: usize = 0;
            while k < len
                invariant
                    k <= len,
                    len == buf@[4],
                    buf@.len() >= 7 + len,
                    name@ == buf@.subrange(5, 5 + k as int),
                decreases len - k,
            {
                name.push(buf[5 + k]);
                k = k + 1;
                assert(name@ =~= buf@.subrange(5, 5 + k as int));
            }
            let port = (buf[5 + len] as u16) * 256 + (buf[6 + len] as u16);
            match utf8_to_string(name.as_slice()) {
                Some(domain) => RequestStep::Complete(TargetAddr::Domain(domain, port)),
                None => RequestStep::Failed(
                    ProxyError::Socks5ProtocolError("Invalid domain name".to_owned()),
                ),
            }
        } else {
            RequestStep::Reject(
                Self::send_response(SOCKS5_REP_ADDRESS_TYPE_NOT_SUPPORTED),
                ProxyError::Socks5ProtocolError(
                    labeled_number("Unsupported address type: ", atyp as u64),
                ),
            )
        }
    }

    /// The reply to a request: version, reply code, reserved byte, and the
    /// bound address 0.0.0.0:0.
    pub fn send_response(rep: u8) -> (r: Vec<u8>)
        ensures
            r@ == reply_bytes(rep),
    {
        vec![SOCKS5_VERSION, rep, 0x00, SOCKS5_ATYP_IPV4, 0, 0, 0, 0, 0, 0]
    }
}

} // verus!
