use vstd::prelude::*;
use crate::message_type::{MessageType, kind_name};
use crate::text::{decimal, push_decimal};

verus! {

/// The fields of a payload that a description shows.
#[derive(Debug, Clone)]
pub enum PayloadDetail {
    /// A `version` message: protocol version, service flags and user agent.
    Version { version: u32, services: u64, user_agent: String },
    /// A number of items, addresses or headers; for an unrecognised command, its payload size.
    Count(u64),
    /// A transaction id or block hash, as text.
    Hash(String),
    /// The nonce of a `ping` or `pong`.
    Nonce(u64),
    /// Nothing that a description shows.
    Other,
}

/// The value of a `PayloadDetail`.
pub enum Detail {
    Version { version: nat, services: nat, user_agent: Seq<char> },
    Count(nat),
    Hash(Seq<char>),
    Nonce(nat),
    Other,
}

impl View for PayloadDetail {
    type V = Detail;

    open spec fn view(&self) -> Detail {
        match self {
            PayloadDetail::Version { version, services, user_agent } => Detail::Version {
                version: *version as nat,
                services: *services as nat,
                user_agent: user_agent@,
            },
            PayloadDetail::Count(n) => Detail::Count(*n as nat),
            PayloadDetail::Hash(h) => Detail::Hash(h@),
            PayloadDetail::Nonce(n) => Detail::Nonce(*n as nat),
            PayloadDetail::Other => Detail::Other,
        }
    }
}

/// The description of a message whose payload does not carry the fields its kind shows.
pub open spec fn other_text(kind: MessageType) -> Seq<char> {
    kind_name(kind) + ": (other)"@
}

/// The fixed description of a message kind that shows no payload field; `None` for the others.
pub open spec fn fixed_phrase(kind: MessageType) -> Option<Seq<char>> {
    match kind {
        MessageType::Verack => Some("verack: handshake complete"@),
        MessageType::GetBlocks => Some("getblocks: block locator request"@),
        MessageType::GetHeaders => Some("getheaders: header request"@),
        MessageType::SendHeaders => Some("sendheaders: request header announcements"@),
        MessageType::GetAddr => Some("getaddr: request peer addresses"@),
        MessageType::MemPool => Some("mempool: request mempool transactions"@),
        MessageType::GetCFilters => Some("getcfilters: compact filter request"@),
        MessageType::CFilter => Some("cfilter: compact filter"@),
        MessageType::GetCFHeaders => Some("getcfheaders: compact filter headers request"@),
        MessageType::CFHeaders => Some("cfheaders: compact filter headers"@),
        MessageType::GetCFCheckpt => Some("getcfcheckpt: compact filter checkpoint request"@),
        MessageType::CFCheckpt => Some("cfcheckpt: compact filter checkpoint"@),
        MessageType::SendCmpct => Some("sendcmpct: compact block relay"@),
        MessageType::CmpctBlock => Some("cmpctblock: compact block"@),
        MessageType::GetBlockTxn => Some("getblocktxn: request block transactions"@),
        MessageType::BlockTxn => Some("blocktxn: block transactions"@),
        MessageType::Alert => Some("alert: network alert (deprecated)"@),
        MessageType::Reject => Some("reject: rejection message"@),
        MessageType::FeeFilter => Some("feefilter: minimum fee filter"@),
        MessageType::WtxidRelay => Some("wtxidrelay: witness transaction relay"@),
        MessageType::SendAddrV2 => Some("sendaddrv2: request addrv2 messages"@),
        MessageType::FilterLoad => Some("filterload: bloom filter load"@),
        MessageType::FilterAdd => Some("filteradd: bloom filter element"@),
        MessageType::FilterClear => Some("filterclear: bloom filter cleared"@),
        MessageType::MerkleBlock => Some("merkleblock: filtered block"@),
        _ => None,
    }
}

/// Text before and after the item count of a counting message kind.
pub open spec fn count_words(kind: MessageType) -> Option<(Seq<char>, Seq<char>)> {
    match kind {
        MessageType::Addr => Some(("addr: "@, " addresses"@)),
        MessageType::Inv => Some(("inv: "@, " inventory items"@)),
        MessageType::GetData => Some(("getdata: "@, " requests"@)),
        MessageType::NotFound => Some(("notfound: "@, " items"@)),
        MessageType::Headers => Some(("headers: "@, " headers"@)),
        MessageType::AddrV2 => Some(("addrv2: "@, " addresses"@)),
        _ => None,
    }
}

/// Text before the hash or nonce of a message kind that shows one.
pub open spec fn value_prefix(kind: MessageType) -> Option<Seq<char>> {
    match kind {
        MessageType::Tx => Some("tx: txid="@),
        MessageType::Block => Some("block: hash="@),
        MessageType::Ping => Some("ping: nonce="@),
        MessageType::Pong => Some("pong: nonce="@),
        _ => None,
    }
}

/// The one-line summary of a message of kind `kind`, with command text `command`, whose
/// payload shows `d`. It starts with the kind's name and a colon.
pub open spec fn description_text(kind: MessageType, command: Seq<char>, d: Detail) -> Seq<char> {
    if let Some(p) = fixed_phrase(kind) {
        p
    } else if let Some((pre, post)) = count_words(kind) {
        match d {
            Detail::Count(n) => pre + decimal(n) + post,
            _ => other_text(kind),
        }
    } else if kind == MessageType::Tx || kind == MessageType::Block {
        match d {
            Detail::Hash(h) => value_prefix(kind)->Some_0 + h,
            _ => other_text(kind),
        }
    } else if kind == MessageType::Ping || kind == MessageType::Pong {
        match d {
            Detail::Nonce(n) => value_prefix(kind)->Some_0 + decimal(n),
            _ => other_text(kind),
        }
    } else if kind == MessageType::Version {
        match d {
            Detail::Version { version, services, user_agent } => "version: protocol_version="@
                + decimal(version) + ", services="@ + decimal(services) + ", user_agent="@
                + user_agent,
            _ => other_text(kind),
        }
    } else {
        match d {
            Detail::Count(n) => "unknown: command="@ + command + ", "@ + decimal(n)
                + " bytes"@,
            _ => other_text(kind),
        }
    }
}

fn fixed(kind: MessageType) -> (r: Option<&'static str>)
    ensures
        r is Some <==> fixed_phrase(kind) is Some,
        r is Some ==> r->Some_0@ == fixed_phrase(kind)->Some_0,
{
    match kind {
        MessageType::Verack => Some("verack: handshake complete"),
        MessageType::GetBlocks => Some("getblocks: block locator request"),
        MessageType::GetHeaders => Some("getheaders: header request"),
        MessageType::SendHeaders => Some("sendheaders: request header announcements"),
        MessageType::GetAddr => Some("getaddr: request peer addresses"),
        MessageType::MemPool => Some("mempool: request mempool transactions"),
        MessageType::GetCFilters => Some("getcfilters: compact filter request"),
        MessageType::CFilter => Some("cfilter: compact filter"),
        MessageType::GetCFHeaders => Some("getcfheaders: compact filter headers request"),
        MessageType::CFHeaders => Some("cfheaders: compact filter headers"),
        MessageType::GetCFCheckpt => Some("getcfcheckpt: compact filter checkpoint request"),
        MessageType::CFCheckpt => Some("cfcheckpt: compact filter checkpoint"),
        MessageType::SendCmpct => Some("sendcmpct: compact block relay"),
        MessageType::CmpctBlock => Some("cmpctblock: compact block"),
        MessageType::GetBlockTxn => Some("getblocktxn: request block transactions"),
        MessageType::BlockTxn => Some("blocktxn: block transactions"),
        MessageType::Alert => Some("alert: network alert (deprecated)"),
        MessageType::Reject => Some("reject: rejection message"),
        MessageType::FeeFilter => Some("feefilter: minimum fee filter"),
        MessageType::WtxidRelay => Some("wtxidrelay: witness transaction relay"),
        MessageType::SendAddrV2 => Some("sendaddrv2: request addrv2 messages"),
        MessageType::FilterLoad => Some("filterload: bloom filter load"),
        MessageType::FilterAdd => Some("filteradd: bloom filter element"),
        MessageType::FilterClear => Some("filterclear: bloom filter cleared"),
        MessageType::MerkleBlock => Some("merkleblock: filtered block"),
        _ => None,
    }
}

fn words(kind: MessageType) -> (r: Option<(&'static str, &'static str)>)
    ensures
        r is Some <==> count_words(kind) is Some,
        r is Some ==> r->Some_0.0@ == count_words(kind)->Some_0.0 && r->Some_0.1@
            == count_words(kind)->Some_0.1,
{
    match kind {
        MessageType::Addr => Some(("addr: ", " addresses")),
        MessageType::Inv => Some(("inv: ", " inventory items")),
        MessageType::GetData => Some(("getdata: ", " requests")),
        MessageType::NotFound => Some(("notfound: ", " items")),
        MessageType::Headers => Some(("headers: ", " headers")),
        MessageType::AddrV2 => Some(("addrv2: ", " addresses")),
        _ => None,
    }
}

fn prefix(kind: MessageType) -> (r: Option<&'static str>)
    ensures
        r is Some <==> value_prefix(kind) is Some,
        r is Some ==> r->Some_0@ == value_prefix(kind)->Some_0,
{
    match kind {
        MessageType::Tx => Some("tx: txid="),
        MessageType::Block => Some("block: hash="),
        MessageType::Ping => Some("ping: nonce="),
        MessageType::Pong => Some("pong: nonce="),
        _ => None,
    }
}

fn other(kind: MessageType) -> (r: String)
    ensures
        r@ == other_text(kind),
{
    let mut s = String::from_str(kind.as_str());
    s.append(": (other)");
    s
}

/// Builds the one-line summary of a message from its kind, command text and payload fields.
pub fn describe(kind: MessageType, command: &str, d: &PayloadDetail) -> (r: String)
    ensures
        r@ == description_text(kind, command@, d@),
{
    if let Some(p) = fixed(kind) {
        return String::from_str(p);
    }
    if let Some((pre, post)) = words(kind) {
        return match d {
            PayloadDetail::Count(n) => {
                let mut s = String::from_str(pre);
                push_decimal(&mut s, *n);
                s.append(post);
                s
            },
            _ => other(kind),
        };
    }
    if let Some(pre) = prefix(kind) {
        let mut s = String::from_str(pre);
        if kind == MessageType::Tx || kind == MessageType::Block {
            return match d {
                PayloadDetail::Hash(h) => {
                    s.append(h.as_str());
                    s
                },
                _ => other(kind),
            };
        } else {
            return match d {
                PayloadDetail::Nonce(n) => {
                    push_decimal(&mut s, *n);
                    s
                },
                _ => other(kind),
            };
        }
    }
    if kind == MessageType::Version {
        match d {
            PayloadDetail::Version { version, services, user_agent } => {
                let mut s = String::from_str("version: protocol_version=");
                push_decimal(&mut s, *version as u64);
                s.append(", services=");
                push_decimal(&mut s, *services);
                s.append(", user_agent=");
                s.append(user_agent.as_str());
                s
            },
            _ => other(kind),
        }
    } else {
        match d {
            PayloadDetail::Count(n) => {
                let mut s = String::from_str("unknown: command=");
                s.append(command);
                s.append(", ");
                push_decimal(&mut s, *n);
                s.append(" bytes");
                s
            },
            _ => other(kind),
        }
    }
}

/// Every description starts with the name of its message kind followed by a colon.
pub proof fn lemma_description_names_kind(kind: MessageType, command: Seq<char>, d: Detail)
    ensures
        ({
            let n = kind_name(kind).len();
            let t = description_text(kind, command, d);
            t.len() > n && t.take(n as int) == kind_name(kind) && t[n as int] == ':'
        }),
{
    reveal_strlit(": (other)");
    match kind {
        MessageType::Version => {
            reveal_strlit("version");
            reveal_strlit("version: protocol_version=");
        },
        MessageType::Verack => {
            reveal_strlit("verack");
            reveal_strlit("verack: handshake complete");
        },
        MessageType::Addr => {
            reveal_strlit("addr");
            reveal_strlit("addr: ");
        },
        MessageType::Inv => {
            reveal_strlit("inv");
            reveal_strlit("inv: ");
        },
        MessageType::GetData => {
            reveal_strlit("getdata");
            reveal_strlit("getdata: ");
        },
        MessageType::NotFound => {
            reveal_strlit("notfound");
            reveal_strlit("notfound: ");
        },
        MessageType::GetBlocks => {
            reveal_strlit("getblocks");
            reveal_strlit("getblocks: block locator request");
        },
        MessageType::GetHeaders => {
            reveal_strlit("getheaders");
            reveal_strlit("getheaders: header request");
        },
        MessageType::Tx => {
            reveal_strlit("tx");
            reveal_strlit("tx: txid=");
        },
        MessageType::Block => {
            reveal_strlit("block");
            reveal_strlit("block: hash=");
        },
        MessageType::Headers => {
            reveal_strlit("headers");
            reveal_strlit("headers: ");
        },
        MessageType::GetAddr => {
            reveal_strlit("getaddr");
            reveal_strlit("getaddr: request peer addresses");
        },
        MessageType::MemPool => {
            reveal_strlit("mempool");
            reveal_strlit("mempool: request mempool transactions");
        },
        MessageType::Ping => {
            reveal_strlit("ping");
            reveal_strlit("ping: nonce=");
        },
        MessageType::Pong => {
            reveal_strlit("pong");
            reveal_strlit("pong: nonce=");
        },
        MessageType::SendHeaders => {
            reveal_strlit("sendheaders");
            reveal_strlit("sendheaders: request header announcements");
        },
        MessageType::FeeFilter => {
            reveal_strlit("feefilter");
            reveal_strlit("feefilter: minimum fee filter");
        },
        MessageType::SendCmpct => {
            reveal_strlit("sendcmpct");
            reveal_strlit("sendcmpct: compact block relay");
        },
        MessageType::CmpctBlock => {
            reveal_strlit("cmpctblock");
            reveal_strlit("cmpctblock: compact block");
        },
        MessageType::GetBlockTxn => {
            reveal_strlit("getblocktxn");
            reveal_strlit("getblocktxn: request block transactions");
        },
        MessageType::BlockTxn => {
            reveal_strlit("blocktxn");
            reveal_strlit("blocktxn: block transactions");
        },
        MessageType::GetCFilters => {
            reveal_strlit("getcfilters");
            reveal_strlit("getcfilters: compact filter request");
        },
        MessageType::CFilter => {
            reveal_strlit("cfilter");
            reveal_strlit("cfilter: compact filter");
        },
        MessageType::GetCFHeaders => {
            reveal_strlit("getcfheaders");
            reveal_strlit("getcfheaders: compact filter headers request");
        },
        MessageType::CFHeaders => {
            reveal_strlit("cfheaders");
            reveal_strlit("cfheaders: compact filter headers");
        },
        MessageType::GetCFCheckpt => {
            reveal_strlit("getcfcheckpt");
            reveal_strlit("getcfcheckpt: compact filter checkpoint request");
        },
        MessageType::CFCheckpt => {
            reveal_strlit("cfcheckpt");
            reveal_strlit("cfcheckpt: compact filter checkpoint");
        },
        MessageType::AddrV2 => {
            reveal_strlit("addrv2");
            reveal_strlit("addrv2: ");
        },
        MessageType::SendAddrV2 => {
            reveal_strlit("sendaddrv2");
            reveal_strlit("sendaddrv2: request addrv2 messages");
        },
        MessageType::WtxidRelay => {
            reveal_strlit("wtxidrelay");
            reveal_strlit("wtxidrelay: witness transaction relay");
        },
        MessageType::FilterLoad => {
            reveal_strlit("filterload");
            reveal_strlit("filterload: bloom filter load");
        },
        MessageType::FilterAdd => {
            reveal_strlit("filteradd");
            reveal_strlit("filteradd: bloom filter element");
        },
        MessageType::FilterClear => {
            reveal_strlit("filterclear");
            reveal_strlit("filterclear: bloom filter cleared");
        },
        MessageType::MerkleBlock => {
            reveal_strlit("merkleblock");
            reveal_strlit("merkleblock: filtered block");
        },
        MessageType::Reject => {
            reveal_strlit("reject");
            reveal_strlit("reject: rejection message");
        },
        MessageType::Alert => {
            reveal_strlit("alert");
            reveal_strlit("alert: network alert (deprecated)");
        },
        MessageType::Unknown => {
            reveal_strlit("unknown");
            reveal_strlit("unknown: command=");
        },
    }
    let n = kind_name(kind).len();
    let t = description_text(kind, command, d);
    assert(t.take(n as int) =~= kind_name(kind));
}

} // verus!
