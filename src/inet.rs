//! Per-family interface attributes nested in a link's address-family
//! specific attribute: the IPv4 and the IPv6 catalogs.
use vstd::prelude::*;

use crate::error::{with_context, DecodeError, ErrorKind};
use crate::nla::{slice_to_vec, DefaultNla, Nla, NlaBuffer, NlaParse};
use crate::parsers::{parse_u32, parse_u8};
use crate::wire::{
    get_i32, i32_at, i32_bytes, lemma_int_at_zero, lemma_int_bytes, push_bytes, push_i32, push_u32,
    set_bytes, splice, u32_at, u32_bytes,
};

verus! {

pub const IFLA_INET_UNSPEC: u16 = 0;
pub const IFLA_INET_CONF: u16 = 1;

/// The size of the IPv4 device configuration block: 31 settings of 32 bits
/// (`IPV4_DEVCONF_*`, kernel `include/uapi/linux/ip.h`).
pub const LINK_INET_DEV_CONF_LEN: usize = 124;

/// IPv4 interface attributes. The device configuration is carried as its
/// raw block of per-device settings, which must be at least
/// `LINK_INET_DEV_CONF_LEN` bytes long.
#[derive(Debug, Clone, PartialEq, Eq)]
pub enum Inet {
    DevConf(Vec<u8>),
    Unspec(Vec<u8>),
    Other(DefaultNla),
}

pub open spec fn inet_known_kind(kind: u16) -> bool {
    kind == IFLA_INET_UNSPEC || kind == IFLA_INET_CONF
}

impl Nla for Inet {
    open spec fn spec_kind(&self) -> u16 {
        match self {
            Inet::DevConf(_) => IFLA_INET_CONF,
            Inet::Unspec(_) => IFLA_INET_UNSPEC,
            Inet::Other(d) => d.kind,
        }
    }

    open spec fn spec_value(&self) -> Seq<u8> {
        match self {
            Inet::DevConf(b) => b@,
            Inet::Unspec(b) => b@,
            Inet::Other(d) => d.value@,
        }
    }

    open spec fn spec_fits(&self) -> bool {
        true
    }

    fn kind(&self) -> (r: u16) {
        match self {
            Inet::DevConf(_) => IFLA_INET_CONF,
            Inet::Unspec(_) => IFLA_INET_UNSPEC,
            Inet::Other(d) => d.kind,
        }
    }

    fn value_len(&self) -> (r: usize) {
        match self {
            Inet::DevConf(b) => b.len(),
            Inet::Unspec(b) => b.len(),
            Inet::Other(d) => d.value.len(),
        }
    }

    fn emit_value(&self, out: &mut Vec<u8>) {
        match self {
            Inet::DevConf(b) => push_bytes(out, b.as_slice()),
            Inet::Unspec(b) => push_bytes(out, b.as_slice()),
            Inet::Other(d) => push_bytes(out, d.value.as_slice()),
        }
    }
}

impl NlaParse for Inet {
    open spec fn spec_parses(kind: u16, value: Seq<u8>) -> bool {
        kind == IFLA_INET_CONF ==> value.len() >= LINK_INET_DEV_CONF_LEN
    }

    open spec fn spec_decodes(&self, kind: u16, value: Seq<u8>) -> bool {
        match self {
            Inet::DevConf(b) => kind == IFLA_INET_CONF && value.len() >= LINK_INET_DEV_CONF_LEN
                && b@ == value,
            Inet::Unspec(b) => kind == IFLA_INET_UNSPEC && b@ == value,
            Inet::Other(d) => !inet_known_kind(kind) && d.kind == kind && d.value@ == value,
        }
    }

    open spec fn spec_wf(&self) -> bool {
        match self {
            Inet::DevConf(b) => b@.len() >= LINK_INET_DEV_CONF_LEN,
            Inet::Other(d) => !inet_known_kind(d.kind),
            _ => true,
        }
    }

    open spec fn spec_context(kind: u16) -> &'static str {
        "invalid IFLA_INET_CONF value"
    }

    fn parse(buf: &NlaBuffer) -> (r: Result<Self, DecodeError>) {
        let payload = buf.value();
        let kind = buf.kind();
        if kind == IFLA_INET_UNSPEC {
            Ok(Inet::Unspec(slice_to_vec(payload)))
        } else if kind == IFLA_INET_CONF {
            if payload.len() < LINK_INET_DEV_CONF_LEN {
                return Err(
                    DecodeError::new(ErrorKind::Truncated).context("invalid IFLA_INET_CONF value"),
                );
            }
            Ok(Inet::DevConf(slice_to_vec(payload)))
        } else {
            Ok(Inet::Other(DefaultNla::new(kind, slice_to_vec(payload))))
        }
    }

    proof fn lemma_round_trip(&self) {
    }

    proof fn lemma_decodes_unique(&self, other: &Self, kind: u16, value: Seq<u8>) {
    }
}

pub const IFLA_INET6_UNSPEC: u16 = 0;
pub const IFLA_INET6_FLAGS: u16 = 1;
pub const IFLA_INET6_CONF: u16 = 2;
pub const IFLA_INET6_STATS: u16 = 3;
pub const IFLA_INET6_MCAST: u16 = 4;
pub const IFLA_INET6_CACHEINFO: u16 = 5;
pub const IFLA_INET6_ICMP6STATS: u16 = 6;
pub const IFLA_INET6_TOKEN: u16 = 7;
pub const IFLA_INET6_ADDR_GEN_MODE: u16 = 8;

/// The size of the IPv6 device configuration block: 51 settings of 32 bits
/// (`DEVCONF_*`, kernel `include/uapi/linux/ipv6.h`).
pub const LINK_INET6_DEV_CONF_LEN: usize = 204;

/// The size of the IPv6 statistics block: 36 counters of 64 bits
/// (`IPSTATS_MIB_*`, kernel `include/uapi/linux/snmp.h`).
pub const INET6_STATS_LEN: usize = 288;

/// The size of the ICMPv6 statistics block: 6 counters of 64 bits
/// (`ICMP6_MIB_*`, kernel `include/uapi/linux/snmp.h`).
pub const ICMP6_STATS_LEN: usize = 48;

pub const LINK_INET6_CACHE_INFO_LEN: usize = 16;

/// IPv6 interface cache information (`struct ifla_cacheinfo`).
#[derive(Debug, Clone, Copy, PartialEq, Eq, Structural)]
pub struct Inet6CacheInfo {
    pub max_reasm_len: i32,
    pub tstamp: i32,
    pub reachable_time: i32,
    pub retrans_time: i32,
}

/// The Inet6CacheInfo that the first 16 bytes of `s` hold.
pub open spec fn inet6_cache_info_of(s: Seq<u8>) -> Inet6CacheInfo {
    Inet6CacheInfo {
        max_reasm_len: i32_at(s, 0),
        tstamp: i32_at(s, 4),
        reachable_time: i32_at(s, 8),
        retrans_time: i32_at(s, 12),
    }
}

impl Inet6CacheInfo {
    /// Reading the bytes of the structure gives it back, whatever follows
    /// them.
    #[verifier::spinoff_prover]
    #[verifier::rlimit(50)]
    pub proof fn lemma_round_trip(&self, rest: Seq<u8>)
        ensures
            self.spec_bytes().len() == LINK_INET6_CACHE_INFO_LEN,
            inet6_cache_info_of(self.spec_bytes() + rest) == *self,
    {
        lemma_int_bytes();
        let s = self.spec_bytes() + rest;
        assert(s.subrange(0, 4) =~= i32_bytes(self.max_reasm_len));
        assert(s.subrange(4, 8) =~= i32_bytes(self.tstamp));
        assert(s.subrange(8, 12) =~= i32_bytes(self.reachable_time));
        assert(s.subrange(12, 16) =~= i32_bytes(self.retrans_time));
    }

    /// The 16 bytes of the structure, fields in order at their offsets.
    pub open spec fn spec_bytes(&self) -> Seq<u8> {
        (i32_bytes(self.max_reasm_len) + i32_bytes(self.tstamp) + i32_bytes(self.reachable_time)
            + i32_bytes(self.retrans_time))
    }

    pub fn buffer_len(&self) -> (r: usize)
        ensures
            r == LINK_INET6_CACHE_INFO_LEN,
    {
        LINK_INET6_CACHE_INFO_LEN
    }

    /// Reads the structure from the front of `payload`, which must hold at
    /// least 16 bytes; bytes after them are not read.
    pub fn parse(payload: &[u8]) -> (r: Result<Inet6CacheInfo, DecodeError>)
        ensures
            r is Ok <==> payload@.len() >= LINK_INET6_CACHE_INFO_LEN,
            r is Ok ==> r->Ok_0 == inet6_cache_info_of(payload@),
            r is Err ==> r->Err_0.kind == ErrorKind::Truncated,
    {
        if payload.len() < LINK_INET6_CACHE_INFO_LEN {
            return Err(DecodeError::new(ErrorKind::Truncated)
                .context("buffer too short for Inet6CacheInfo"));
        }
        Ok(
            Inet6CacheInfo {
                max_reasm_len: get_i32(payload, 0),
                tstamp: get_i32(payload, 4),
                reachable_time: get_i32(payload, 8),
                retrans_time: get_i32(payload, 12),
            },
        )
    }

    /// Appends the 16 bytes of the structure.
    #[verifier::spinoff_prover]
    #[verifier::rlimit(50)]
    pub fn emit_into(&self, out: &mut Vec<u8>)
        ensures
            final(out)@ == old(out)@ + self.spec_bytes(),
    {
        let ghost start = out@;
        let ghost g0 = out@;
        push_i32(out, self.max_reasm_len);
        push_i32(out, self.tstamp);
        push_i32(out, self.reachable_time);
        push_i32(out, self.retrans_time);
        assert(out@ =~= g0 + (i32_bytes(self.max_reasm_len) + i32_bytes(self.tstamp)
            + i32_bytes(self.reachable_time) + i32_bytes(self.retrans_time)));
        assert(out@ =~= start + self.spec_bytes());
    }

    /// Writes the structure at the front of `buffer`.
    pub fn emit(&self, buffer: &mut [u8])
        requires
            old(buffer)@.len() >= LINK_INET6_CACHE_INFO_LEN,
        ensures
            final(buffer)@ == splice(old(buffer)@, 0, self.spec_bytes()),
    {
        let mut bytes: Vec<u8> = Vec::new();
        self.emit_into(&mut bytes);
        proof {
            lemma_int_bytes();
        }
        set_bytes(buffer, 0, bytes.as_slice());
    }
}

/// IPv6 interface attributes. The configuration and the two statistics
/// blocks are carried as their raw bytes, which must be at least as long as
/// the block; the token is an IPv6 address.
#[derive(Debug, Clone, PartialEq, Eq)]
pub enum Inet6 {
    Flags(u32),
    CacheInfo(Inet6CacheInfo),
    DevConf(Vec<u8>),
    Unspec(Vec<u8>),
    Stats(Vec<u8>),
    IcmpStats(Vec<u8>),
    Token([u8; 16]),
    AddrGenMode(u8),
    Other(DefaultNla),
}

pub open spec fn inet6_known_kind(kind: u16) -> bool {
    kind <= IFLA_INET6_ADDR_GEN_MODE && kind != IFLA_INET6_MCAST
}

/// The context message of a failure to decode an IPv6 attribute.
pub open spec fn inet6_context(kind: u16) -> &'static str {
    if kind == IFLA_INET6_FLAGS {
        "invalid IFLA_INET6_FLAGS value"
    } else if kind == IFLA_INET6_CACHEINFO {
        "invalid IFLA_INET6_CACHEINFO value"
    } else if kind == IFLA_INET6_CONF {
        "invalid IFLA_INET6_CONF value"
    } else if kind == IFLA_INET6_STATS {
        "invalid IFLA_INET6_STATS value"
    } else if kind == IFLA_INET6_ICMP6STATS {
        "invalid IFLA_INET6_ICMP6STATS value"
    } else if kind == IFLA_INET6_TOKEN {
        "invalid IFLA_INET6_TOKEN value"
    } else {
        "invalid IFLA_INET6_ADDR_GEN_MODE value"
    }
}

impl Nla for Inet6 {
    open spec fn spec_kind(&self) -> u16 {
        match self {
            Inet6::Flags(_) => IFLA_INET6_FLAGS,
            Inet6::CacheInfo(_) => IFLA_INET6_CACHEINFO,
            Inet6::DevConf(_) => IFLA_INET6_CONF,
            Inet6::Unspec(_) => IFLA_INET6_UNSPEC,
            Inet6::Stats(_) => IFLA_INET6_STATS,
            Inet6::IcmpStats(_) => IFLA_INET6_ICMP6STATS,
            Inet6::Token(_) => IFLA_INET6_TOKEN,
            Inet6::AddrGenMode(_) => IFLA_INET6_ADDR_GEN_MODE,
            Inet6::Other(d) => d.kind,
        }
    }

    open spec fn spec_value(&self) -> Seq<u8> {
        match self {
            Inet6::Flags(v) => u32_bytes(*v),
            Inet6::CacheInfo(c) => c.spec_bytes(),
            Inet6::DevConf(b) => b@,
            Inet6::Unspec(b) => b@,
            Inet6::Stats(b) => b@,
            Inet6::IcmpStats(b) => b@,
            Inet6::Token(t) => t@,
            Inet6::AddrGenMode(v) => seq![*v],
            Inet6::Other(d) => d.value@,
        }
    }

    open spec fn spec_fits(&self) -> bool {
        true
    }

    fn kind(&self) -> (r: u16) {
        match self {
            Inet6::Flags(_) => IFLA_INET6_FLAGS,
            Inet6::CacheInfo(_) => IFLA_INET6_CACHEINFO,
            Inet6::DevConf(_) => IFLA_INET6_CONF,
            Inet6::Unspec(_) => IFLA_INET6_UNSPEC,
            Inet6::Stats(_) => IFLA_INET6_STATS,
            Inet6::IcmpStats(_) => IFLA_INET6_ICMP6STATS,
            Inet6::Token(_) => IFLA_INET6_TOKEN,
            Inet6::AddrGenMode(_) => IFLA_INET6_ADDR_GEN_MODE,
            Inet6::Other(d) => d.kind,
        }
    }

    fn value_len(&self) -> (r: usize) {
        proof {
            lemma_int_bytes();
            match self {
                Inet6::CacheInfo(c) => c.lemma_round_trip(seq![]),
                _ => {},
            }
        }
        match self {
            Inet6::Flags(_) => 4,
            Inet6::CacheInfo(_) => LINK_INET6_CACHE_INFO_LEN,
            Inet6::DevConf(b) => b.len(),
            Inet6::Unspec(b) => b.len(),
            Inet6::Stats(b) => b.len(),
            Inet6::IcmpStats(b) => b.len(),
            Inet6::Token(_) => 16,
            Inet6::AddrGenMode(_) => 1,
            Inet6::Other(d) => d.value.len(),
        }
    }

    fn emit_value(&self, out: &mut Vec<u8>) {
        match self {
            Inet6::Flags(v) => push_u32(out, *v),
            Inet6::CacheInfo(c) => c.emit_into(out),
            Inet6::DevConf(b) => push_bytes(out, b.as_slice()),
            Inet6::Unspec(b) => push_bytes(out, b.as_slice()),
            Inet6::Stats(b) => push_bytes(out, b.as_slice()),
            Inet6::IcmpStats(b) => push_bytes(out, b.as_slice()),
            Inet6::Token(t) => push_bytes(out, t.as_slice()),
            Inet6::AddrGenMode(v) => out.push(*v),
            Inet6::Other(d) => push_bytes(out, d.value.as_slice()),
        }
    }
}

/// Reads a 16-byte IPv6 address.
fn parse_ipv6(payload: &[u8]) -> (r: Result<[u8; 16], DecodeError>)
    ensures
        r is Ok <==> payload@.len() == 16,
        r is Ok ==> r->Ok_0@ == payload@,
        r is Err ==> r->Err_0.kind == ErrorKind::InvalidValue,
{
    if payload.len() != 16 {
        return Err(DecodeError::new(ErrorKind::InvalidValue).context("invalid IPv6 address"));
    }
    let a: [u8; 16] = [
        payload[0],
        payload[1],
        payload[2],
        payload[3],
        payload[4],
        payload[5],
        payload[6],
        payload[7],
        payload[8],
        payload[9],
        payload[10],
        payload[11],
        payload[12],
        payload[13],
        payload[14],
        payload[15],
    ];
    assert(a@ =~= payload@);
    Ok(a)
}

/// Checks that `payload` holds at least `len` bytes.
fn check_len(payload: &[u8], len: usize) -> (r: Result<(), DecodeError>)
    ensures
        r is Ok <==> payload@.len() >= len,
        r is Err ==> r->Err_0.kind == ErrorKind::Truncated,
{
    if payload.len() < len {
        Err(DecodeError::new(ErrorKind::Truncated).context("value too short"))
    } else {
        Ok(())
    }
}

impl NlaParse for Inet6 {
    open spec fn spec_parses(kind: u16, value: Seq<u8>) -> bool {
        if kind == IFLA_INET6_FLAGS {
            value.len() == 4
        } else if kind == IFLA_INET6_CACHEINFO {
            value.len() >= LINK_INET6_CACHE_INFO_LEN
        } else if kind == IFLA_INET6_CONF {
            value.len() >= LINK_INET6_DEV_CONF_LEN
        } else if kind == IFLA_INET6_STATS {
            value.len() >= INET6_STATS_LEN
        } else if kind == IFLA_INET6_ICMP6STATS {
            value.len() >= ICMP6_STATS_LEN
        } else if kind == IFLA_INET6_TOKEN {
            value.len() == 16
        } else if kind == IFLA_INET6_ADDR_GEN_MODE {
            value.len() == 1
        } else {
            true
        }
    }

    open spec fn spec_decodes(&self, kind: u16, value: Seq<u8>) -> bool {
        match self {
            Inet6::Flags(v) => kind == IFLA_INET6_FLAGS && value.len() == 4 && *v == u32_at(
                value,
                0,
            ),
            Inet6::CacheInfo(c) => kind == IFLA_INET6_CACHEINFO && value.len()
                >= LINK_INET6_CACHE_INFO_LEN && *c == inet6_cache_info_of(value),
            Inet6::DevConf(b) => kind == IFLA_INET6_CONF && value.len() >= LINK_INET6_DEV_CONF_LEN
                && b@ == value,
            Inet6::Unspec(b) => kind == IFLA_INET6_UNSPEC && b@ == value,
            Inet6::Stats(b) => kind == IFLA_INET6_STATS && value.len() >= INET6_STATS_LEN && b@
                == value,
            Inet6::IcmpStats(b) => kind == IFLA_INET6_ICMP6STATS && value.len() >= ICMP6_STATS_LEN
                && b@ == value,
            Inet6::Token(t) => kind == IFLA_INET6_TOKEN && value.len() == 16 && t@ == value,
            Inet6::AddrGenMode(v) => kind == IFLA_INET6_ADDR_GEN_MODE && value.len() == 1 && *v
                == value[0],
            Inet6::Other(d) => !inet6_known_kind(kind) && d.kind == kind && d.value@ == value,
        }
    }

    open spec fn spec_wf(&self) -> bool {
        match self {
            Inet6::DevConf(b) => b@.len() >= LINK_INET6_DEV_CONF_LEN,
            Inet6::Stats(b) => b@.len() >= INET6_STATS_LEN,
            Inet6::IcmpStats(b) => b@.len() >= ICMP6_STATS_LEN,
            Inet6::Other(d) => !inet6_known_kind(d.kind),
            _ => true,
        }
    }

    open spec fn spec_context(kind: u16) -> &'static str {
        inet6_context(kind)
    }

    fn parse(buf: &NlaBuffer) -> (r: Result<Self, DecodeError>) {
        let payload = buf.value();
        let kind = buf.kind();
        if kind == IFLA_INET6_UNSPEC {
            Ok(Inet6::Unspec(slice_to_vec(payload)))
        } else if kind == IFLA_INET6_FLAGS {
            match with_context(parse_u32(payload), "invalid IFLA_INET6_FLAGS value") {
                Ok(v) => Ok(Inet6::Flags(v)),
                Err(e) => Err(e),
            }
        } else if kind == IFLA_INET6_CACHEINFO {
            match with_context(Inet6CacheInfo::parse(payload),
                "invalid IFLA_INET6_CACHEINFO value") {
                Ok(c) => Ok(Inet6::CacheInfo(c)),
                Err(e) => Err(e),
            }
        } else if kind == IFLA_INET6_CONF {
            match with_context(check_len(payload, LINK_INET6_DEV_CONF_LEN),
                "invalid IFLA_INET6_CONF value") {
                Ok(()) => Ok(Inet6::DevConf(slice_to_vec(payload))),
                Err(e) => Err(e),
            }
        } else if kind == IFLA_INET6_STATS {
            match with_context(check_len(payload, INET6_STATS_LEN),
                "invalid IFLA_INET6_STATS value") {
                Ok(()) => Ok(Inet6::Stats(slice_to_vec(payload))),
                Err(e) => Err(e),
            }
        } else if kind == IFLA_INET6_ICMP6STATS {
            match with_context(check_len(payload, ICMP6_STATS_LEN),
                "invalid IFLA_INET6_ICMP6STATS value") {
                Ok(()) => Ok(Inet6::IcmpStats(slice_to_vec(payload))),
                Err(e) => Err(e),
            }
        } else if kind == IFLA_INET6_TOKEN {
            match with_context(parse_ipv6(payload), "invalid IFLA_INET6_TOKEN value") {
                Ok(t) => Ok(Inet6::Token(t)),
                Err(e) => Err(e),
            }
        } else if kind == IFLA_INET6_ADDR_GEN_MODE {
            match with_context(parse_u8(payload), "invalid IFLA_INET6_ADDR_GEN_MODE value") {
                Ok(v) => Ok(Inet6::AddrGenMode(v)),
                Err(e) => Err(e),
            }
        } else {
            Ok(Inet6::Other(DefaultNla::new(kind, slice_to_vec(payload))))
        }
    }

    proof fn lemma_round_trip(&self) {
        lemma_int_at_zero();
        lemma_int_bytes();
        match self {
            Inet6::CacheInfo(c) => {
                c.lemma_round_trip(seq![]);
                assert(c.spec_bytes() + seq![] =~= c.spec_bytes());
            },
            _ => {},
        }
    }

    proof fn lemma_decodes_unique(&self, other: &Self, kind: u16, value: Seq<u8>) {
    }
}

} // verus!
