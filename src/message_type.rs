use vstd::prelude::*;
use vstd::utf8::encode_utf8_decode_utf8;
use vstd::string::StringSliceAdditionalSpecFns;

verus! {

/// Bitcoin P2P message kinds, as stored with each message record.
#[derive(Debug, Clone, Copy, PartialEq, Eq, Structural)]
pub enum MessageType {
    Version,
    Verack,
    Addr,
    Inv,
    GetData,
    NotFound,
    GetBlocks,
    GetHeaders,
    Tx,
    Block,
    Headers,
    GetAddr,
    MemPool,
    Ping,
    Pong,
    SendHeaders,
    FeeFilter,
    SendCmpct,
    CmpctBlock,
    GetBlockTxn,
    BlockTxn,
    GetCFilters,
    CFilter,
    GetCFHeaders,
    CFHeaders,
    GetCFCheckpt,
    CFCheckpt,
    AddrV2,
    SendAddrV2,
    WtxidRelay,
    FilterLoad,
    FilterAdd,
    FilterClear,
    MerkleBlock,
    Reject,
    Alert,
    Unknown,
}

/// The lowercase command name of a message type; `"unknown"` for `Unknown`.
pub open spec fn kind_name(t: MessageType) -> Seq<char> {
    match t {
        MessageType::Version => "version"@,
        MessageType::Verack => "verack"@,
        MessageType::Addr => "addr"@,
        MessageType::Inv => "inv"@,
        MessageType::GetData => "getdata"@,
        MessageType::NotFound => "notfound"@,
        MessageType::GetBlocks => "getblocks"@,
        MessageType::GetHeaders => "getheaders"@,
        MessageType::Tx => "tx"@,
        MessageType::Block => "block"@,
        MessageType::Headers => "headers"@,
        MessageType::GetAddr => "getaddr"@,
        MessageType::MemPool => "mempool"@,
        MessageType::Ping => "ping"@,
        MessageType::Pong => "pong"@,
        MessageType::SendHeaders => "sendheaders"@,
        MessageType::FeeFilter => "feefilter"@,
        MessageType::SendCmpct => "sendcmpct"@,
        MessageType::CmpctBlock => "cmpctblock"@,
        MessageType::GetBlockTxn => "getblocktxn"@,
        MessageType::BlockTxn => "blocktxn"@,
        MessageType::GetCFilters => "getcfilters"@,
        MessageType::CFilter => "cfilter"@,
        MessageType::GetCFHeaders => "getcfheaders"@,
        MessageType::CFHeaders => "cfheaders"@,
        MessageType::GetCFCheckpt => "getcfcheckpt"@,
        MessageType::CFCheckpt => "cfcheckpt"@,
        MessageType::AddrV2 => "addrv2"@,
        MessageType::SendAddrV2 => "sendaddrv2"@,
        MessageType::WtxidRelay => "wtxidrelay"@,
        MessageType::FilterLoad => "filterload"@,
        MessageType::FilterAdd => "filteradd"@,
        MessageType::FilterClear => "filterclear"@,
        MessageType::MerkleBlock => "merkleblock"@,
        MessageType::Reject => "reject"@,
        MessageType::Alert => "alert"@,
        MessageType::Unknown => "unknown"@,
    }
}

/// The message type whose name is exactly `s`; `Unknown` when no known name matches.
pub open spec fn command_type(s: Seq<char>) -> MessageType {
    if s == kind_name(MessageType::Version) {
        MessageType::Version
    } else if s == kind_name(MessageType::Verack) {
        MessageType::Verack
    } else if s == kind_name(MessageType::Addr) {
        MessageType::Addr
    } else if s == kind_name(MessageType::Inv) {
        MessageType::Inv
    } else if s == kind_name(MessageType::GetData) {
        MessageType::GetData
    } else if s == kind_name(MessageType::NotFound) {
        MessageType::NotFound
    } else if s == kind_name(MessageType::GetBlocks) {
        MessageType::GetBlocks
    } else if s == kind_name(MessageType::GetHeaders) {
        MessageType::GetHeaders
    } else if s == kind_name(MessageType::Tx) {
        MessageType::Tx
    } else if s == kind_name(MessageType::Block) {
        MessageType::Block
    } else if s == kind_name(MessageType::Headers) {
        MessageType::Headers
    } else if s == kind_name(MessageType::GetAddr) {
        MessageType::GetAddr
    } else if s == kind_name(MessageType::MemPool) {
        MessageType::MemPool
    } else if s == kind_name(MessageType::Ping) {
        MessageType::Ping
    } else if s == kind_name(MessageType::Pong) {
        MessageType::Pong
    } else if s == kind_name(MessageType::SendHeaders) {
        MessageType::SendHeaders
    } else if s == kind_name(MessageType::FeeFilter) {
        MessageType::FeeFilter
    } else if s == kind_name(MessageType::SendCmpct) {
        MessageType::SendCmpct
    } else if s == kind_name(MessageType::CmpctBlock) {
        MessageType::CmpctBlock
    } else if s == kind_name(MessageType::GetBlockTxn) {
        MessageType::GetBlockTxn
    } else if s == kind_name(MessageType::BlockTxn) {
        MessageType::BlockTxn
    } else if s == kind_name(MessageType::GetCFilters) {
        MessageType::GetCFilters
    } else if s == kind_name(MessageType::CFilter) {
        MessageType::CFilter
    } else if s == kind_name(MessageType::GetCFHeaders) {
        MessageType::GetCFHeaders
    } else if s == kind_name(MessageType::CFHeaders) {
        MessageType::CFHeaders
    } else if s == kind_name(MessageType::GetCFCheckpt) {
        MessageType::GetCFCheckpt
    } else if s == kind_name(MessageType::CFCheckpt) {
        MessageType::CFCheckpt
    } else if s == kind_name(MessageType::AddrV2) {
        MessageType::AddrV2
    } else if s == kind_name(MessageType::SendAddrV2) {
        MessageType::SendAddrV2
    } else if s == kind_name(MessageType::WtxidRelay) {
        MessageType::WtxidRelay
    } else if s == kind_name(MessageType::FilterLoad) {
        MessageType::FilterLoad
    } else if s == kind_name(MessageType::FilterAdd) {
        MessageType::FilterAdd
    } else if s == kind_name(MessageType::FilterClear) {
        MessageType::FilterClear
    } else if s == kind_name(MessageType::MerkleBlock) {
        MessageType::MerkleBlock
    } else if s == kind_name(MessageType::Reject) {
        MessageType::Reject
    } else if s == kind_name(MessageType::Alert) {
        MessageType::Alert
    } else {
        MessageType::Unknown
    }
}

/// Whether two strings hold the same characters, compared through their UTF-8 bytes.
pub fn str_eq(a: &str, b: &str) -> (r: bool)
    ensures
        r == (a@ == b@),
{
    let x = a.as_bytes();
    let y = b.as_bytes();
    proof {
        encode_utf8_decode_utf8(a@);
        encode_utf8_decode_utf8(b@);
    }
    if x.len() != y.len() {
        assert(a@ != b@) by {
            if a@ == b@ {
                assert(a.spec_bytes() == b.spec_bytes());
            }
        }
        return false;
    }
    let mut i: usize = 0;
    while i < x.len()
        invariant
            x@ == a.spec_bytes(),
            y@ == b.spec_bytes(),
            x@.len() == y@.len(),
            i <= x@.len(),
            forall|j: int| 0 <= j < i ==> x@[j] == y@[j],
        decreases x@.len() - i,
    {
        if x[i] != y[i] {
            assert(x@ != y@);
            assert(a@ != b@) by {
                if a@ == b@ {
                    assert(a.spec_bytes() == b.spec_bytes());
                }
            }
            return false;
        }
        i = i + 1;
    }
    assert(x@ =~= y@);
    true
}

impl MessageType {
    /// Parses a command name. Only the exact lowercase names are known; any other string,
    /// in another case too, is `Unknown`.
    pub fn from_command(command: &str) -> (r: MessageType)
        ensures
            r == command_type(command@),
    {
        if str_eq(command, MessageType::Version.as_str()) {
            MessageType::Version
        } else if str_eq(command, MessageType::Verack.as_str()) {
            MessageType::Verack
        } else if str_eq(command, MessageType::Addr.as_str()) {
            MessageType::Addr
        } else if str_eq(command, MessageType::Inv.as_str()) {
            MessageType::Inv
        } else if str_eq(command, MessageType::GetData.as_str()) {
            MessageType::GetData
        } else if str_eq(command, MessageType::NotFound.as_str()) {
            MessageType::NotFound
        } else if str_eq(command, MessageType::GetBlocks.as_str()) {
            MessageType::GetBlocks
        } else if str_eq(command, MessageType::GetHeaders.as_str()) {
            MessageType::GetHeaders
        } else if str_eq(command, MessageType::Tx.as_str()) {
            MessageType::Tx
        } else if str_eq(command, MessageType::Block.as_str()) {
            MessageType::Block
        } else if str_eq(command, MessageType::Headers.as_str()) {
            MessageType::Headers
        } else if str_eq(command, MessageType::GetAddr.as_str()) {
            MessageType::GetAddr
        } else if str_eq(command, MessageType::MemPool.as_str()) {
            MessageType::MemPool
        } else if str_eq(command, MessageType::Ping.as_str()) {
            MessageType::Ping
        } else if str_eq(command, MessageType::Pong.as_str()) {
            MessageType::Pong
        } else if str_eq(command, MessageType::SendHeaders.as_str()) {
            MessageType::SendHeaders
        } else if str_eq(command, MessageType::FeeFilter.as_str()) {
            MessageType::FeeFilter
        } else if str_eq(command, MessageType::SendCmpct.as_str()) {
            MessageType::SendCmpct
        } else if str_eq(command, MessageType::CmpctBlock.as_str()) {
            MessageType::CmpctBlock
        } else if str_eq(command, MessageType::GetBlockTxn.as_str()) {
            MessageType::GetBlockTxn
        } else if str_eq(command, MessageType::BlockTxn.as_str()) {
            MessageType::BlockTxn
        } else if str_eq(command, MessageType::GetCFilters.as_str()) {
            MessageType::GetCFilters
        } else if str_eq(command, MessageType::CFilter.as_str()) {
            MessageType::CFilter
        } else if str_eq(command, MessageType::GetCFHeaders.as_str()) {
            MessageType::GetCFHeaders
        } else if str_eq(command, MessageType::CFHeaders.as_str()) {
            MessageType::CFHeaders
        } else if str_eq(command, MessageType::GetCFCheckpt.as_str()) {
            MessageType::GetCFCheckpt
        } else if str_eq(command, MessageType::CFCheckpt.as_str()) {
            MessageType::CFCheckpt
        } else if str_eq(command, MessageType::AddrV2.as_str()) {
            MessageType::AddrV2
        } else if str_eq(command, MessageType::SendAddrV2.as_str()) {
            MessageType::SendAddrV2
        } else if str_eq(command, MessageType::WtxidRelay.as_str()) {
            MessageType::WtxidRelay
        } else if str_eq(command, MessageType::FilterLoad.as_str()) {
            MessageType::FilterLoad
        } else if str_eq(command, MessageType::FilterAdd.as_str()) {
            MessageType::FilterAdd
        } else if str_eq(command, MessageType::FilterClear.as_str()) {
            MessageType::FilterClear
        } else if str_eq(command, MessageType::MerkleBlock.as_str()) {
            MessageType::MerkleBlock
        } else if str_eq(command, MessageType::Reject.as_str()) {
            MessageType::Reject
        } else if str_eq(command, MessageType::Alert.as_str()) {
            MessageType::Alert
        } else {
            MessageType::Unknown
        }
    }

    /// The name under which the type is stored.
    pub fn as_str(&self) -> (r: &'static str)
        ensures
            r@ == kind_name(*self),
    {
        match self {
            MessageType::Version => "version",
            MessageType::Verack => "verack",
            MessageType::Addr => "addr",
            MessageType::Inv => "inv",
            MessageType::GetData => "getdata",
            MessageType::NotFound => "notfound",
            MessageType::GetBlocks => "getblocks",
            MessageType::GetHeaders => "getheaders",
            MessageType::Tx => "tx",
            MessageType::Block => "block",
            MessageType::Headers => "headers",
            MessageType::GetAddr => "getaddr",
            MessageType::MemPool => "mempool",
            MessageType::Ping => "ping",
            MessageType::Pong => "pong",
            MessageType::SendHeaders => "sendheaders",
            MessageType::FeeFilter => "feefilter",
            MessageType::SendCmpct => "sendcmpct",
            MessageType::CmpctBlock => "cmpctblock",
            MessageType::GetBlockTxn => "getblocktxn",
            MessageType::BlockTxn => "blocktxn",
            MessageType::GetCFilters => "getcfilters",
            MessageType::CFilter => "cfilter",
            MessageType::GetCFHeaders => "getcfheaders",
            MessageType::CFHeaders => "cfheaders",
            MessageType::GetCFCheckpt => "getcfcheckpt",
            MessageType::CFCheckpt => "cfcheckpt",
            MessageType::AddrV2 => "addrv2",
            MessageType::SendAddrV2 => "sendaddrv2",
            MessageType::WtxidRelay => "wtxidrelay",
            MessageType::FilterLoad => "filterload",
            MessageType::FilterAdd => "filteradd",
            MessageType::FilterClear => "filterclear",
            MessageType::MerkleBlock => "merkleblock",
            MessageType::Reject => "reject",
            MessageType::Alert => "alert",
            MessageType::Unknown => "unknown",
        }
    }
}

} // verus!
