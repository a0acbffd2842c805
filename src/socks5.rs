use vstd::prelude::*;
use vstd::utf8::{decode_utf8, valid_utf8};
use crate::text::{decimal, hex_byte, push_char, push_decimal, push_hex_byte};

verus! {

pub const SOCKS5_VERSION: u8 = 0x05;
pub const SOCKS5_NO_AUTH: u8 = 0x00;
pub const SOCKS5_CMD_CONNECT: u8 = 0x01;
pub const SOCKS5_ATYP_IPV4: u8 = 0x01;
pub const SOCKS5_ATYP_DOMAIN: u8 = 0x03;
pub const SOCKS5_ATYP_IPV6: u8 = 0x04;
pub const SOCKS5_SUCCESS: u8 = 0x00;
pub const SOCKS5_GENERAL_FAILURE: u8 = 0x01;

/// The endpoint a client asked to reach.
#[derive(Debug, Clone)]
pub struct Socks5Request {
    pub target_addr: String,
    pub target_port: u16,
}

/// Why a negotiation failed.
#[derive(Debug, Clone, Copy, PartialEq, Eq, Structural)]
pub enum Socks5Error {
    /// The greeting held fewer than two bytes.
    GreetingTooShort,
    /// The greeting named another protocol version.
    UnsupportedVersion(u8),
    /// The greeting announced more methods than it held.
    MethodsIncomplete,
    /// The request held fewer than four bytes.
    RequestTooShort,
    /// The request named another protocol version.
    RequestVersion(u8),
    /// The request asked for something other than CONNECT.
    UnsupportedCommand(u8),
    /// The request ended inside its address or port.
    AddressIncomplete,
    /// The domain name was not UTF-8.
    InvalidDomain,
    /// The request used an unknown address type.
    UnsupportedAddressType(u8),
}

/// The failures after which the client is sent a general-failure reply.
pub open spec fn replies_failure(e: Socks5Error) -> bool {
    e is UnsupportedCommand || e is UnsupportedAddressType
}

impl Socks5Error {
    /// Whether the client is sent a general-failure reply before the connection is dropped.
    pub fn sends_failure_reply(&self) -> (r: bool)
        ensures
            r == replies_failure(*self),
    {
        match self {
            Socks5Error::UnsupportedCommand(_) | Socks5Error::UnsupportedAddressType(_) => true,
            _ => false,
        }
    }
}

/// What a greeting leads to: accepted, or the failure it shows.
pub open spec fn greeting_result(b: Seq<u8>) -> Result<(), Socks5Error> {
    if b.len() < 2 {
        Err(Socks5Error::GreetingTooShort)
    } else if b[0] != SOCKS5_VERSION {
        Err(Socks5Error::UnsupportedVersion(b[0]))
    } else if b.len() < 2 + b[1] {
        Err(Socks5Error::MethodsIncomplete)
    } else {
        Ok(())
    }
}

/// The big-endian port at offset `i`.
pub open spec fn port_at(b: Seq<u8>, i: int) -> u16 {
    (b[i] as int * 256 + b[i + 1] as int) as u16
}

/// `a.b.c.d` for the four bytes at offset 4.
pub open spec fn ipv4_text(b: Seq<u8>) -> Seq<char> {
    decimal(b[4] as nat) + "."@ + decimal(b[5] as nat) + "."@ + decimal(b[6] as nat) + "."@
        + decimal(b[7] as nat)
}

/// The first `k` colon-separated groups of four hex digits of the address at offset 4.
pub open spec fn hex_groups(b: Seq<u8>, k: nat) -> Seq<char>
    decreases k,
{
    if k == 0 {
        seq![]
    } else if k == 1 {
        hex_byte(b[4]) + hex_byte(b[5])
    } else {
        hex_groups(b, (k - 1) as nat) + seq![':'] + hex_byte(b[4 + 2 * (k - 1)]) + hex_byte(
            b[5 + 2 * (k - 1)],
        )
    }
}

/// What a request leads to: the target's host text and port, or the failure it shows.
pub open spec fn request_result(b: Seq<u8>) -> Result<(Seq<char>, u16), Socks5Error> {
    if b.len() < 4 {
        Err(Socks5Error::RequestTooShort)
    } else if b[0] != SOCKS5_VERSION {
        Err(Socks5Error::RequestVersion(b[0]))
    } else if b[1] != SOCKS5_CMD_CONNECT {
        Err(Socks5Error::UnsupportedCommand(b[1]))
    } else if b[3] == SOCKS5_ATYP_IPV4 {
        if b.len() < 10 {
            Err(Socks5Error::AddressIncomplete)
        } else {
            Ok((ipv4_text(b), port_at(b, 8)))
        }
    } else if b[3] == SOCKS5_ATYP_DOMAIN {
        if b.len() < 5 || b.len() < 7 + b[4] {
            Err(Socks5Error::AddressIncomplete)
        } else if !valid_utf8(b.subrange(5, 5 + b[4])) {
            Err(Socks5Error::InvalidDomain)
        } else {
            Ok((decode_utf8(b.subrange(5, 5 + b[4])), port_at(b, 5 + b[4])))
        }
    } else if b[3] == SOCKS5_ATYP_IPV6 {
        if b.len() < 22 {
            Err(Socks5Error::AddressIncomplete)
        } else {
            Ok((hex_groups(b, 8), port_at(b, 20)))
        }
    } else {
        Err(Socks5Error::UnsupportedAddressType(b[3]))
    }
}

/// Relies on `String::from_utf8`: it succeeds exactly on valid UTF-8, and the string holds
/// the characters those bytes encode.
#[verifier::external_body]
pub(crate) fn utf8_text(b: &[u8]) -> (r: Option<String>)
    ensures
        r is Some <==> valid_utf8(b@),
        r is Some ==> r->Some_0@ == decode_utf8(b@),
{
    String::from_utf8(b.to_vec()).ok()
}

/// Checks a client greeting; the methods it offers are not looked at.
pub fn parse_greeting(buf: &[u8]) -> (r: Result<(), Socks5Error>)
    ensures
        r == greeting_result(buf@),
{
    if buf.len() < 2 {
        return Err(Socks5Error::GreetingTooShort);
    }
    if buf[0] != SOCKS5_VERSION {
        return Err(Socks5Error::UnsupportedVersion(buf[0]));
    }
    if buf.len() < 2 + buf[1] as usize {
        return Err(Socks5Error::MethodsIncomplete);
    }
    Ok(())
}

fn port(buf: &[u8], i: usize) -> (r: u16)
    requires
        i + 1 < buf@.len(),
    ensures
        r == port_at(buf@, i as int),
{
    (buf[i] as u16) * 256 + buf[i + 1] as u16
}

/// Parses a CONNECT request into the target's host text and port.
pub fn parse_request(buf: &[u8]) -> (r: Result<Socks5Request, Socks5Error>)
    ensures
        match r {
            Ok(q) => request_result(buf@) == Ok::<(Seq<char>, u16), Socks5Error>((q.target_addr@, q.target_port)),
            Err(e) => request_result(buf@) == Err::<(Seq<char>, u16), Socks5Error>(e),
        },
{
    if buf.len() < 4 {
        return Err(Socks5Error::RequestTooShort);
    }
    if buf[0] != SOCKS5_VERSION {
        return Err(Socks5Error::RequestVersion(buf[0]));
    }
    if buf[1] != SOCKS5_CMD_CONNECT {
        return Err(Socks5Error::UnsupportedCommand(buf[1]));
    }
    let atyp = buf[3];
    if atyp == SOCKS5_ATYP_IPV4 {
        if buf.len() < 10 {
            return Err(Socks5Error::AddressIncomplete);
        }
        let mut s = String::new();
        push_decimal(&mut s, buf[4] as u64);
        s.append(".");
        push_decimal(&mut s, buf[5] as u64);
        s.append(".");
        push_decimal(&mut s, buf[6] as u64);
        s.append(".");
        push_decimal(&mut s, buf[7] as u64);
        assert(s@ =~= ipv4_text(buf@));
        Ok(Socks5Request { target_addr: s, target_port: port(buf, 8) })
    } else if atyp == SOCKS5_ATYP_DOMAIN {
        if buf.len() < 5 || buf.len() < 7 + buf[4] as usize {
            return Err(Socks5Error::AddressIncomplete);
        }
        let len = buf[4] as usize;
        match utf8_text(&buf[5..5 + len]) {
            Some(domain) => Ok(Socks5Request { target_addr: domain, target_port: port(buf, 5 + len) }),
            None => Err(Socks5Error::InvalidDomain),
        }
    } else if atyp == SOCKS5_ATYP_IPV6 {
        if buf.len() < 22 {
            return Err(Socks5Error::AddressIncomplete);
        }
        let mut s = String::new();
        let mut k: usize = 0;
        while k < 8
            invariant
                k <= 8,
                buf@.len() >= 22,
                s@ == hex_groups(buf@, k as nat),
            decreases 8 - k,
        {
            if k > 0 {
                push_char(&mut s, ':');
            }
            push_hex_byte(&mut s, buf[4 + 2 * k]);
            push_hex_byte(&mut s, buf[5 + 2 * k]);
            k = k + 1;
            assert(s@ =~= hex_groups(buf@, k as nat));
        }
        Ok(Socks5Request { target_addr: s, target_port: port(buf, 20) })
    } else {
        Err(Socks5Error::UnsupportedAddressType(atyp))
    }
}

/// A reply to a request: version, status `code`, and the bind address 0.0.0.0:0.
pub open spec fn reply_bytes(code: u8) -> Seq<u8> {
    seq![SOCKS5_VERSION, code, 0u8, SOCKS5_ATYP_IPV4, 0u8, 0u8, 0u8, 0u8, 0u8, 0u8]
}

fn reply(code: u8) -> (r: Vec<u8>)
    ensures
        r@ == reply_bytes(code),
{
    let r = vec![SOCKS5_VERSION, code, 0u8, SOCKS5_ATYP_IPV4, 0u8, 0u8, 0u8, 0u8, 0u8, 0u8];
    assert(r@ =~= reply_bytes(code));
    r
}

/// The reply that selects "no authentication".
pub fn method_selection_reply() -> (r: Vec<u8>)
    ensures
        r@ == seq![SOCKS5_VERSION, SOCKS5_NO_AUTH],
{
    let r = vec![SOCKS5_VERSION, SOCKS5_NO_AUTH];
    assert(r@ =~= seq![SOCKS5_VERSION, SOCKS5_NO_AUTH]);
    r
}

/// The reply that grants a CONNECT request.
pub fn success_reply() -> (r: Vec<u8>)
    ensures
        r@ == reply_bytes(SOCKS5_SUCCESS),
{
    reply(SOCKS5_SUCCESS)
}

/// The general-failure reply.
pub fn failure_reply() -> (r: Vec<u8>)
    ensures
        r@ == reply_bytes(SOCKS5_GENERAL_FAILURE),
{
    reply(SOCKS5_GENERAL_FAILURE)
}

impl Socks5Request {
    /// `host:port`, the address that is dialed and recorded.
    pub fn to_text(&self) -> (r: String)
        ensures
            r@ == self.target_addr@ + ":"@ + decimal(self.target_port as nat),
    {
        let mut s = self.target_addr.clone();
        s.append(":");
        push_decimal(&mut s, self.target_port as u64);
        s
    }
}

/// Where a negotiation stands.
#[derive(Debug, Clone, Copy, PartialEq, Eq, Structural)]
pub enum Socks5Phase {
    /// Waiting for the client's greeting.
    AwaitGreeting,
    /// Method selected; waiting for the request.
    AwaitRequest,
    /// The request was granted.
    Done,
    /// The connection is to be dropped.
    Failed,
}

/// What the caller does after a read.
#[derive(Debug, Clone)]
pub enum Socks5Action {
    /// Write these bytes, then read the next message.
    Reply(Vec<u8>),
    /// Write these bytes; the negotiation is over and the request is to be dialed.
    Connect(Socks5Request, Vec<u8>),
    /// Write these bytes (possibly none), then drop the connection.
    Fail(Socks5Error, Vec<u8>),
}

/// The action `a` writes `bytes` and fails with `e`.
pub open spec fn fails_with(a: Socks5Action, e: Socks5Error, bytes: Seq<u8>) -> bool {
    match a {
        Socks5Action::Fail(e2, v) => e2 == e && v@ == bytes,
        _ => false,
    }
}

/// Moves a negotiation on by one message read from the client.
pub fn handshake_step(phase: Socks5Phase, buf: &[u8]) -> (r: (Socks5Phase, Socks5Action))
    requires
        phase == Socks5Phase::AwaitGreeting || phase == Socks5Phase::AwaitRequest,
    ensures
        phase == Socks5Phase::AwaitGreeting ==> match greeting_result(buf@) {
            Ok(_) => r.0 == Socks5Phase::AwaitRequest && (match r.1 {
                Socks5Action::Reply(v) => v@ == seq![SOCKS5_VERSION, SOCKS5_NO_AUTH],
                _ => false,
            }),
            Err(e) => r.0 == Socks5Phase::Failed && fails_with(r.1, e, Seq::<u8>::empty()),
        },
        phase == Socks5Phase::AwaitRequest ==> match request_result(buf@) {
            Ok((host, p)) => r.0 == Socks5Phase::Done && (match r.1 {
                Socks5Action::Connect(q, v) => q.target_addr@ == host && q.target_port == p
                    && v@ == reply_bytes(SOCKS5_SUCCESS),
                _ => false,
            }),
            Err(e) => r.0 == Socks5Phase::Failed && fails_with(
                r.1,
                e,
                if replies_failure(e) {
                    reply_bytes(SOCKS5_GENERAL_FAILURE)
                } else {
                    Seq::<u8>::empty()
                },
            ),
        },
{
    if phase == Socks5Phase::AwaitGreeting {
        match parse_greeting(buf) {
            Ok(()) => (Socks5Phase::AwaitRequest, Socks5Action::Reply(method_selection_reply())),
            Err(e) => (Socks5Phase::Failed, Socks5Action::Fail(e, Vec::new())),
        }
    } else {
        match parse_request(buf) {
            Ok(q) => (Socks5Phase::Done, Socks5Action::Connect(q, success_reply())),
            Err(e) => {
                let bytes = if e.sends_failure_reply() {
                    failure_reply()
                } else {
                    Vec::new()
                };
                (Socks5Phase::Failed, Socks5Action::Fail(e, bytes))
            },
        }
    }
}

} // verus!
