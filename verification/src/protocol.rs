//! The tunnel's own handshake: the CONNECT message that opens a stream to a
//! target, and the CONNECTED answer that the server sends back.
use vstd::prelude::*;
use vstd::utf8::{decode_utf8, valid_utf8};
use crate::error::ProxyError;
use crate::text::{chars_of, decimal, push_decimal, push_str, str_eq, string_of};

verus! {

/// A WebSocket message, by kind and payload.
#[derive(Debug, Clone)]
pub enum WsMessage {
    Text(String),
    Binary(Vec<u8>),
    Ping(Vec<u8>),
    Pong(Vec<u8>),
    Close,
    Frame,
}

/// What `String::from_utf8_lossy` returns for `bytes`: valid sequences
/// decoded, each invalid one replaced by U+FFFD.
pub uninterp spec fn utf8_lossy(bytes: Seq<u8>) -> Seq<char>;

/// `String::from_utf8_lossy`.
#[verifier::external_body]
pub(crate) fn lossy_text(bytes: &[u8]) -> (s: String)
    ensures
        s@ == utf8_lossy(bytes@),
        valid_utf8(bytes@) ==> s@ == decode_utf8(bytes@),
{
    String::from_utf8_lossy(bytes).into_owned()
}

/// A tunnel error whose message is `m`.
pub open spec fn tunnel_error(e: ProxyError, m: Seq<char>) -> bool {
    e matches ProxyError::TunnelError(s) && s@ == m
}

/// The CONNECT message: `CONNECT:host:port|` followed by the initial data
/// as text, if any.
pub open spec fn spec_connect_message(host: Seq<char>, port: u16, data: Option<Seq<u8>>) -> Seq<
    char,
> {
    "CONNECT:"@ + host + seq![':'] + decimal(port as nat) + seq!['|'] + match data {
        Some(d) => utf8_lossy(d),
        None => Seq::<char>::empty(),
    }
}

/// The message that asks the server to open a stream to `host:port`,
/// carrying the first bytes of the client's data when there are any.
pub fn connect_message(host: &str, port: u16, initial_data: Option<&[u8]>) -> (s: String)
    ensures
        s@ == spec_connect_message(
            host@,
            port,
            match initial_data {
                Some(d) => Some(d@),
                None => None,
            },
        ),
{
    let mut v = chars_of("CONNECT:");
    push_str(&mut v, host);
    v.push(':');
    push_decimal(&mut v, port as u64);
    v.push('|');
    match initial_data {
        Some(d) => {
            let t = lossy_text(d);
            push_str(&mut v, t.as_str());
        },
        None => {},
    }
    let ghost data = match initial_data {
        Some(d) => Some(d@),
        None => None::<Seq<u8>>,
    };
    assert(v@ =~= spec_connect_message(host@, port, data));
    string_of(&v)
}

/// The server's answer to a CONNECT message: `Ok` for the text message
/// `CONNECTED`, otherwise the error that ends the attempt.
pub fn check_connect_reply(reply: Option<WsMessage>) -> (r: Result<(), ProxyError>)
    ensures
        reply matches Some(WsMessage::Text(t)) && t@ == "CONNECTED"@ ==> r is Ok,
        reply is None ==> (r matches Err(e) && tunnel_error(
            e,
            "Connection closed before tunnel established"@,
        )),
        reply matches Some(m) && !(m matches WsMessage::Text(t) && t@ == "CONNECTED"@) ==> (r matches Err(e)
            && tunnel_error(e, "Failed to establish tunnel: unexpected response"@)),
{
    match reply {
        Some(WsMessage::Text(text)) => {
            if str_eq(text.as_str(), "CONNECTED") {
                Ok(())
            } else {
                Err(
                    ProxyError::TunnelError(
                        "Failed to establish tunnel: unexpected response".to_owned(),
                    ),
                )
            }
        },
        Some(_) => Err(
            ProxyError::TunnelError("Failed to establish tunnel: unexpected response".to_owned()),
        ),
        None => Err(
            ProxyError::TunnelError("Connection closed before tunnel established".to_owned()),
        ),
    }
}

/// Whether the raw answer read from a stream is the nine bytes `CONNECTED`.
pub fn is_connected_ack(response: &[u8]) -> (b: bool)
    ensures
        b == (response@ == seq![
            0x43u8,
            0x4Fu8,
            0x4Eu8,
            0x4Eu8,
            0x45u8,
            0x43u8,
            0x54u8,
            0x45u8,
            0x44u8,
        ]),
{
    let expected: [u8; 9] = [0x43, 0x4F, 0x4E, 0x4E, 0x45, 0x43, 0x54, 0x45, 0x44];
    if response.len() != 9 {
        return false;
    }
    let mut i: usize = 0;
    while i < 9
        invariant
            i <= 9,
            response@.len() == 9,
            expected@ == seq![
                0x43u8,
                0x4Fu8,
                0x4Eu8,
                0x4Eu8,
                0x45u8,
                0x43u8,
                0x54u8,
                0x45u8,
                0x44u8,
            ],
            forall|j: int| 0 <= j < i ==> response@[j] == expected@[j],
        decreases 9 - i,
    {
        if response[i] != expected[i] {
            return false;
        }
        i = i + 1;
    }
    assert(response@ =~= expected@);
    true
}

/// Whether the CONNECT message `msg` already carries the initial data `d`:
/// it ends with `|` followed by the data as text.
pub open spec fn carries_data(msg: Seq<char>, d: Seq<u8>) -> bool {
    (seq!['|'] + utf8_lossy(d)).is_suffix_of(msg)
}

/// Whether `p` is a suffix of `v`.
fn has_suffix(v: &Vec<char>, p: &Vec<char>) -> (b: bool)
    ensures
        b == p@.is_suffix_of(v@),
{
    if p.len() > v.len() {
        return false;
    }
    let off = v.len() - p.len();
    let mut i: usize = 0;
    while i < p.len()
        invariant
            i <= p@.len() <= v@.len(),
            off + p@.len() == v@.len(),
            v@.len() <= usize::MAX,
            forall|j: int| 0 <= j < i ==> p@[j] == v@[off + j],
        decreases p@.len() - i,
    {
        if p[i] != v[off + i] {
            assert(v@.subrange(off as int, v@.len() as int)[i as int] != p@[i as int]);
            return false;
        }
        i = i + 1;
    }
    assert(v@.subrange(off as int, v@.len() as int) =~= p@);
    true
}

/// The initial data still to be written after the tunnel is open: none when
/// the CONNECT message already carried it, else the data itself.
pub fn initial_data_after_ack(connect_msg: &str, initial_data: Option<Vec<u8>>) -> (r: Option<
    Vec<u8>,
>)
    ensures
        r == (match initial_data {
            Some(d) => if carries_data(connect_msg@, d@) {
                None
            } else {
                Some(d)
            },
            None => None,
        }),
{
    match initial_data {
        Some(data) => {
            let text = lossy_text(data.as_slice());
            let mut pat: Vec<char> = Vec::new();
            pat.push('|');
            push_str(&mut pat, text.as_str());
            assert(pat@ =~= seq!['|'] + utf8_lossy(data@));
            let v = chars_of(connect_msg);
            if has_suffix(&v, &pat) {
                None
            } else {
                Some(data)
            }
        },
        None => None,
    }
}

/// Initial data sent inside a CONNECT message is not sent again: the
/// message that `connect_message` writes for it carries it.
pub proof fn law_connect_data_sent_once(host: Seq<char>, port: u16, d: Seq<u8>)
    ensures
        carries_data(spec_connect_message(host, port, Some(d)), d),
{
    let msg = spec_connect_message(host, port, Some(d));
    let tail = seq!['|'] + utf8_lossy(d);
    let head = "CONNECT:"@ + host + seq![':'] + decimal(port as nat);
    assert(msg =~= head + tail);
    assert(msg.subrange(msg.len() - tail.len(), msg.len() as int) =~= tail);
}

} // verus!
