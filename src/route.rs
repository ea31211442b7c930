//! Route messages.
use vstd::prelude::*;
use vstd::slice::slice_subrange;

use crate::collections::{route_nla_items, NlaVec};
use crate::error::{with_context, DecodeError, ErrorKind};
use crate::nla::{
    all_some, nlas_formed_parse,
    decode_records, emit_nlas, lemma_nlas_decode_unique, lemma_nlas_round_trip, nla_records, nlas,
    nlas_buffer_len, nlas_bytes, nlas_decode, nlas_fit, nlas_parse_bytes, nlas_wf, parse_nlas,
    scan, slice_to_vec, header_valid, DefaultNla, Nla as NlaTrait, NlaBuffer, NlaParse,
};
use crate::parsers::{parse_u16, parse_u32};
use crate::wire::{
    get_u32, get_u64, lemma_int_at_zero, lemma_int_bytes, push_bytes, push_u16, push_u32, push_u64,
    set_bytes, splice, u16_at, u16_bytes, u32_at, u32_bytes, u64_at, u64_bytes,
};

verus! {

broadcast use vstd::slice::group_slice_axioms;

pub const CACHE_INFO_LEN: usize = 32;

/// Route cache information (`struct rta_cacheinfo`).
#[derive(Debug, Clone, Copy, PartialEq, Eq, Structural)]
pub struct CacheInfo {
    pub clntref: u32,
    pub last_use: u32,
    pub expires: u32,
    pub error: u32,
    pub used: u32,
    pub id: u32,
    pub ts: u32,
    pub ts_age: u32,
}

/// The CacheInfo that the first 32 bytes of `s` hold.
pub open spec fn cache_info_of(s: Seq<u8>) -> CacheInfo {
    CacheInfo {
        clntref: u32_at(s, 0),
        last_use: u32_at(s, 4),
        expires: u32_at(s, 8),
        error: u32_at(s, 12),
        used: u32_at(s, 16),
        id: u32_at(s, 20),
        ts: u32_at(s, 24),
        ts_age: u32_at(s, 28),
    }
}

impl CacheInfo {
    /// Reading the bytes of the structure gives it back, whatever follows
    /// them.
    #[verifier::spinoff_prover]
    #[verifier::rlimit(50)]
    pub proof fn lemma_round_trip(&self, rest: Seq<u8>)
        ensures
            self.spec_bytes().len() == CACHE_INFO_LEN,
            cache_info_of(self.spec_bytes() + rest) == *self,
    {
        lemma_int_bytes();
        let s = self.spec_bytes() + rest;
        assert(s.subrange(0, 4) =~= u32_bytes(self.clntref));
        assert(s.subrange(4, 8) =~= u32_bytes(self.last_use));
        assert(s.subrange(8, 12) =~= u32_bytes(self.expires));
        assert(s.subrange(12, 16) =~= u32_bytes(self.error));
        assert(s.subrange(16, 20) =~= u32_bytes(self.used));
        assert(s.subrange(20, 24) =~= u32_bytes(self.id));
        assert(s.subrange(24, 28) =~= u32_bytes(self.ts));
        assert(s.subrange(28, 32) =~= u32_bytes(self.ts_age));
    }

    /// The 32 bytes of the structure, fields in order at their offsets.
    pub open spec fn spec_bytes(&self) -> Seq<u8> {
        (u32_bytes(self.clntref) + u32_bytes(self.last_use) + u32_bytes(self.expires)
            + u32_bytes(self.error) + u32_bytes(self.used) + u32_bytes(self.id)
                + u32_bytes(self.ts) + u32_bytes(self.ts_age))
    }

    pub fn buffer_len(&self) -> (r: usize)
        ensures
            r == CACHE_INFO_LEN,
    {
        CACHE_INFO_LEN
    }

    /// Reads the structure from the front of `payload`, which must hold at
    /// least 32 bytes; bytes after them are not read.
    pub fn parse(payload: &[u8]) -> (r: Result<CacheInfo, DecodeError>)
        ensures
            r is Ok <==> payload@.len() >= CACHE_INFO_LEN,
            r is Ok ==> r->Ok_0 == cache_info_of(payload@),
            r is Err ==> r->Err_0.kind == ErrorKind::Truncated,
    {
        if payload.len() < CACHE_INFO_LEN {
            return Err(DecodeError::new(ErrorKind::Truncated)
                .context("buffer too short for CacheInfo"));
        }
        Ok(
            CacheInfo {
                clntref: get_u32(payload, 0),
                last_use: get_u32(payload, 4),
                expires: get_u32(payload, 8),
                error: get_u32(payload, 12),
                used: get_u32(payload, 16),
                id: get_u32(payload, 20),
                ts: get_u32(payload, 24),
                ts_age: get_u32(payload, 28),
            },
        )
    }

    /// Appends the 32 bytes of the structure.
    #[verifier::spinoff_prover]
    #[verifier::rlimit(50)]
    pub fn emit_into(&self, out: &mut Vec<u8>)
        ensures
            final(out)@ == old(out)@ + self.spec_bytes(),
    {
        let ghost start = out@;
        let ghost g0 = out@;
        push_u32(out, self.clntref);
        push_u32(out, self.last_use);
        push_u32(out, self.expires);
        push_u32(out, self.error);
        push_u32(out, self.used);
        push_u32(out, self.id);
        push_u32(out, self.ts);
        push_u32(out, self.ts_age);
        assert(out@ =~= g0 + (u32_bytes(self.clntref) + u32_bytes(self.last_use)
            + u32_bytes(self.expires) + u32_bytes(self.error) + u32_bytes(self.used)
                + u32_bytes(self.id) + u32_bytes(self.ts) + u32_bytes(self.ts_age)));
        assert(out@ =~= start + self.spec_bytes());
    }

    /// Writes the structure at the front of `buffer`.
    pub fn emit(&self, buffer: &mut [u8])
        requires
            old(buffer)@.len() >= CACHE_INFO_LEN,
        ensures
            final(buffer)@ == splice(old(buffer)@, 0, self.spec_bytes()),
    {
        let mut bytes: Vec<u8> = Vec::new();
        self.emit_into(&mut bytes);
        proof {
            lemma_int_bytes();
        }
        set_bytes(buffer, 0, bytes.as_slice());
    }
}

pub const MFC_STATS_LEN: usize = 24;

/// Multicast forwarding statistics (`struct rta_mfc_stats`).
#[derive(Debug, Clone, Copy, PartialEq, Eq, Structural)]
pub struct MfcStats {
    pub packets: u64,
    pub bytes: u64,
    pub wrong_if: u64,
}

/// The MfcStats that the first 24 bytes of `s` hold.
pub open spec fn mfc_stats_of(s: Seq<u8>) -> MfcStats {
    MfcStats {
        packets: u64_at(s, 0),
        bytes: u64_at(s, 8),
        wrong_if: u64_at(s, 16),
    }
}

impl MfcStats {
    /// Reading the bytes of the structure gives it back, whatever follows
    /// them.
    #[verifier::spinoff_prover]
    #[verifier::rlimit(50)]
    pub proof fn lemma_round_trip(&self, rest: Seq<u8>)
        ensures
            self.spec_bytes().len() == MFC_STATS_LEN,
            mfc_stats_of(self.spec_bytes() + rest) == *self,
    {
        lemma_int_bytes();
        let s = self.spec_bytes() + rest;
        assert(s.subrange(0, 8) =~= u64_bytes(self.packets));
        assert(s.subrange(8, 16) =~= u64_bytes(self.bytes));
        assert(s.subrange(16, 24) =~= u64_bytes(self.wrong_if));
    }

    /// The 24 bytes of the structure, fields in order at their offsets.
    pub open spec fn spec_bytes(&self) -> Seq<u8> {
        (u64_bytes(self.packets) + u64_bytes(self.bytes) + u64_bytes(self.wrong_if))
    }

    pub fn buffer_len(&self) -> (r: usize)
        ensures
            r == MFC_STATS_LEN,
    {
        MFC_STATS_LEN
    }

    /// Reads the structure from the front of `payload`, which must hold at
    /// least 24 bytes; bytes after them are not read.
    pub fn parse(payload: &[u8]) -> (r: Result<MfcStats, DecodeError>)
        ensures
            r is Ok <==> payload@.len() >= MFC_STATS_LEN,
            r is Ok ==> r->Ok_0 == mfc_stats_of(payload@),
            r is Err ==> r->Err_0.kind == ErrorKind::Truncated,
    {
        if payload.len() < MFC_STATS_LEN {
            return Err(DecodeError::new(ErrorKind::Truncated)
                .context("buffer too short for MfcStats"));
        }
        Ok(
            MfcStats {
                packets: get_u64(payload, 0),
                bytes: get_u64(payload, 8),
                wrong_if: get_u64(payload, 16),
            },
        )
    }

    /// Appends the 24 bytes of the structure.
    #[verifier::spinoff_prover]
    #[verifier::rlimit(50)]
    pub fn emit_into(&self, out: &mut Vec<u8>)
        ensures
            final(out)@ == old(out)@ + self.spec_bytes(),
    {
        let ghost start = out@;
        let ghost g0 = out@;
        push_u64(out, self.packets);
        push_u64(out, self.bytes);
        push_u64(out, self.wrong_if);
        assert(out@ =~= g0 + (u64_bytes(self.packets) + u64_bytes(self.bytes)
            + u64_bytes(self.wrong_if)));
        assert(out@ =~= start + self.spec_bytes());
    }

    /// Writes the structure at the front of `buffer`.
    pub fn emit(&self, buffer: &mut [u8])
        requires
            old(buffer)@.len() >= MFC_STATS_LEN,
        ensures
            final(buffer)@ == splice(old(buffer)@, 0, self.spec_bytes()),
    {
        let mut bytes: Vec<u8> = Vec::new();
        self.emit_into(&mut bytes);
        proof {
            lemma_int_bytes();
        }
        set_bytes(buffer, 0, bytes.as_slice());
    }
}

pub const RTA_UNSPEC: u16 = 0;
pub const RTA_DST: u16 = 1;
pub const RTA_SRC: u16 = 2;
pub const RTA_IIF: u16 = 3;
pub const RTA_OIF: u16 = 4;
pub const RTA_GATEWAY: u16 = 5;
pub const RTA_PRIORITY: u16 = 6;
pub const RTA_PREFSRC: u16 = 7;
pub const RTA_METRICS: u16 = 8;
pub const RTA_MULTIPATH: u16 = 9;
pub const RTA_PROTOINFO: u16 = 10;
pub const RTA_FLOW: u16 = 11;
pub const RTA_CACHEINFO: u16 = 12;
pub const RTA_SESSION: u16 = 13;
pub const RTA_MP_ALGO: u16 = 14;
pub const RTA_TABLE: u16 = 15;
pub const RTA_MARK: u16 = 16;
pub const RTA_MFC_STATS: u16 = 17;
pub const RTA_VIA: u16 = 18;
pub const RTA_NEWDST: u16 = 19;
pub const RTA_PREF: u16 = 20;
pub const RTA_ENCAP_TYPE: u16 = 21;
pub const RTA_ENCAP: u16 = 22;
pub const RTA_EXPIRES: u16 = 23;
pub const RTA_PAD: u16 = 24;
pub const RTA_UID: u16 = 25;
pub const RTA_TTL_PROPAGATE: u16 = 26;

/// Route attributes.
#[derive(Debug, Clone, PartialEq, Eq)]
pub enum Nla {
    Unspec(Vec<u8>),
    Destination(Vec<u8>),
    Source(Vec<u8>),
    Iif(u32),
    Oif(u32),
    Gateway(Vec<u8>),
    Priority(u32),
    PrefSource(Vec<u8>),
    /// Route metrics, carried as their raw nested attributes; the value must
    /// start with a well-formed attribute header.
    Metrics(Vec<u8>),
    MultiPath(Vec<u8>),
    ProtocolInfo(u32),
    Flow(u32),
    CacheInfo(CacheInfo),
    Session(Vec<u8>),
    MpAlgo(Vec<u8>),
    Table(u32),
    Mark(u32),
    MfcStats(MfcStats),
    Via(Vec<u8>),
    NewDestination(Vec<u8>),
    Pref(Vec<u8>),
    EncapType(u16),
    Encap(Vec<u8>),
    Expires(Vec<u8>),
    Pad(Vec<u8>),
    Uid(Vec<u8>),
    TtlPropagate(Vec<u8>),
    Other(DefaultNla),
}

pub open spec fn nla_known_kind(kind: u16) -> bool {
    kind == RTA_UNSPEC
    || kind == RTA_DST
    || kind == RTA_SRC
    || kind == RTA_IIF
    || kind == RTA_OIF
    || kind == RTA_GATEWAY
    || kind == RTA_PRIORITY
    || kind == RTA_PREFSRC
    || kind == RTA_METRICS
    || kind == RTA_MULTIPATH
    || kind == RTA_PROTOINFO
    || kind == RTA_FLOW
    || kind == RTA_CACHEINFO
    || kind == RTA_SESSION
    || kind == RTA_MP_ALGO
    || kind == RTA_TABLE
    || kind == RTA_MARK
    || kind == RTA_MFC_STATS
    || kind == RTA_VIA
    || kind == RTA_NEWDST
    || kind == RTA_PREF
    || kind == RTA_ENCAP_TYPE
    || kind == RTA_ENCAP
    || kind == RTA_EXPIRES
    || kind == RTA_PAD
    || kind == RTA_UID
    || kind == RTA_TTL_PROPAGATE
}

impl NlaTrait for Nla {
    open spec fn spec_kind(&self) -> u16 {
        match self {
            Nla::Unspec(_) => RTA_UNSPEC,
            Nla::Destination(_) => RTA_DST,
            Nla::Source(_) => RTA_SRC,
            Nla::Iif(_) => RTA_IIF,
            Nla::Oif(_) => RTA_OIF,
            Nla::Gateway(_) => RTA_GATEWAY,
            Nla::Priority(_) => RTA_PRIORITY,
            Nla::PrefSource(_) => RTA_PREFSRC,
            Nla::Metrics(_) => RTA_METRICS,
            Nla::MultiPath(_) => RTA_MULTIPATH,
            Nla::ProtocolInfo(_) => RTA_PROTOINFO,
            Nla::Flow(_) => RTA_FLOW,
            Nla::CacheInfo(_) => RTA_CACHEINFO,
            Nla::Session(_) => RTA_SESSION,
            Nla::MpAlgo(_) => RTA_MP_ALGO,
            Nla::Table(_) => RTA_TABLE,
            Nla::Mark(_) => RTA_MARK,
            Nla::MfcStats(_) => RTA_MFC_STATS,
            Nla::Via(_) => RTA_VIA,
            Nla::NewDestination(_) => RTA_NEWDST,
            Nla::Pref(_) => RTA_PREF,
            Nla::EncapType(_) => RTA_ENCAP_TYPE,
            Nla::Encap(_) => RTA_ENCAP,
            Nla::Expires(_) => RTA_EXPIRES,
            Nla::Pad(_) => RTA_PAD,
            Nla::Uid(_) => RTA_UID,
            Nla::TtlPropagate(_) => RTA_TTL_PROPAGATE,
            Nla::Other(d) => d.kind,
        }
    }

    open spec fn spec_value(&self) -> Seq<u8> {
        match self {
            Nla::Unspec(x) => x@,
            Nla::Destination(x) => x@,
            Nla::Source(x) => x@,
            Nla::Iif(x) => u32_bytes(*x),
            Nla::Oif(x) => u32_bytes(*x),
            Nla::Gateway(x) => x@,
            Nla::Priority(x) => u32_bytes(*x),
            Nla::PrefSource(x) => x@,
            Nla::Metrics(x) => x@,
            Nla::MultiPath(x) => x@,
            Nla::ProtocolInfo(x) => u32_bytes(*x),
            Nla::Flow(x) => u32_bytes(*x),
            Nla::CacheInfo(x) => x.spec_bytes(),
            Nla::Session(x) => x@,
            Nla::MpAlgo(x) => x@,
            Nla::Table(x) => u32_bytes(*x),
            Nla::Mark(x) => u32_bytes(*x),
            Nla::MfcStats(x) => x.spec_bytes(),
            Nla::Via(x) => x@,
            Nla::NewDestination(x) => x@,
            Nla::Pref(x) => x@,
            Nla::EncapType(x) => u16_bytes(*x),
            Nla::Encap(x) => x@,
            Nla::Expires(x) => x@,
            Nla::Pad(x) => x@,
            Nla::Uid(x) => x@,
            Nla::TtlPropagate(x) => x@,
            Nla::Other(d) => d.value@,
        }
    }

    open spec fn spec_fits(&self) -> bool {
        true
    }

    fn kind(&self) -> (r: u16) {
        match self {
            Nla::Unspec(_) => RTA_UNSPEC,
            Nla::Destination(_) => RTA_DST,
            Nla::Source(_) => RTA_SRC,
            Nla::Iif(_) => RTA_IIF,
            Nla::Oif(_) => RTA_OIF,
            Nla::Gateway(_) => RTA_GATEWAY,
            Nla::Priority(_) => RTA_PRIORITY,
            Nla::PrefSource(_) => RTA_PREFSRC,
            Nla::Metrics(_) => RTA_METRICS,
            Nla::MultiPath(_) => RTA_MULTIPATH,
            Nla::ProtocolInfo(_) => RTA_PROTOINFO,
            Nla::Flow(_) => RTA_FLOW,
            Nla::CacheInfo(_) => RTA_CACHEINFO,
            Nla::Session(_) => RTA_SESSION,
            Nla::MpAlgo(_) => RTA_MP_ALGO,
            Nla::Table(_) => RTA_TABLE,
            Nla::Mark(_) => RTA_MARK,
            Nla::MfcStats(_) => RTA_MFC_STATS,
            Nla::Via(_) => RTA_VIA,
            Nla::NewDestination(_) => RTA_NEWDST,
            Nla::Pref(_) => RTA_PREF,
            Nla::EncapType(_) => RTA_ENCAP_TYPE,
            Nla::Encap(_) => RTA_ENCAP,
            Nla::Expires(_) => RTA_EXPIRES,
            Nla::Pad(_) => RTA_PAD,
            Nla::Uid(_) => RTA_UID,
            Nla::TtlPropagate(_) => RTA_TTL_PROPAGATE,
            Nla::Other(d) => d.kind,
        }
    }

    fn value_len(&self) -> (r: usize) {
        proof {
            lemma_int_bytes();
            match self {
                Nla::CacheInfo(x) => x.lemma_round_trip(seq![]),
                Nla::MfcStats(x) => x.lemma_round_trip(seq![]),
                _ => {},
            }
        }
        match self {
            Nla::Unspec(x) => x.len(),
            Nla::Destination(x) => x.len(),
            Nla::Source(x) => x.len(),
            Nla::Iif(x) => 4,
            Nla::Oif(x) => 4,
            Nla::Gateway(x) => x.len(),
            Nla::Priority(x) => 4,
            Nla::PrefSource(x) => x.len(),
            Nla::Metrics(x) => x.len(),
            Nla::MultiPath(x) => x.len(),
            Nla::ProtocolInfo(x) => 4,
            Nla::Flow(x) => 4,
            Nla::CacheInfo(x) => CACHE_INFO_LEN,
            Nla::Session(x) => x.len(),
            Nla::MpAlgo(x) => x.len(),
            Nla::Table(x) => 4,
            Nla::Mark(x) => 4,
            Nla::MfcStats(x) => MFC_STATS_LEN,
            Nla::Via(x) => x.len(),
            Nla::NewDestination(x) => x.len(),
            Nla::Pref(x) => x.len(),
            Nla::EncapType(x) => 2,
            Nla::Encap(x) => x.len(),
            Nla::Expires(x) => x.len(),
            Nla::Pad(x) => x.len(),
            Nla::Uid(x) => x.len(),
            Nla::TtlPropagate(x) => x.len(),
            Nla::Other(d) => d.value.len(),
        }
    }

    fn emit_value(&self, out: &mut Vec<u8>) {
        match self {
            Nla::Unspec(x) => push_bytes(out, x.as_slice()),
            Nla::Destination(x) => push_bytes(out, x.as_slice()),
            Nla::Source(x) => push_bytes(out, x.as_slice()),
            Nla::Iif(x) => push_u32(out, *x),
            Nla::Oif(x) => push_u32(out, *x),
            Nla::Gateway(x) => push_bytes(out, x.as_slice()),
            Nla::Priority(x) => push_u32(out, *x),
            Nla::PrefSource(x) => push_bytes(out, x.as_slice()),
            Nla::Metrics(x) => push_bytes(out, x.as_slice()),
            Nla::MultiPath(x) => push_bytes(out, x.as_slice()),
            Nla::ProtocolInfo(x) => push_u32(out, *x),
            Nla::Flow(x) => push_u32(out, *x),
            Nla::CacheInfo(x) => x.emit_into(out),
            Nla::Session(x) => push_bytes(out, x.as_slice()),
            Nla::MpAlgo(x) => push_bytes(out, x.as_slice()),
            Nla::Table(x) => push_u32(out, *x),
            Nla::Mark(x) => push_u32(out, *x),
            Nla::MfcStats(x) => x.emit_into(out),
            Nla::Via(x) => push_bytes(out, x.as_slice()),
            Nla::NewDestination(x) => push_bytes(out, x.as_slice()),
            Nla::Pref(x) => push_bytes(out, x.as_slice()),
            Nla::EncapType(x) => push_u16(out, *x),
            Nla::Encap(x) => push_bytes(out, x.as_slice()),
            Nla::Expires(x) => push_bytes(out, x.as_slice()),
            Nla::Pad(x) => push_bytes(out, x.as_slice()),
            Nla::Uid(x) => push_bytes(out, x.as_slice()),
            Nla::TtlPropagate(x) => push_bytes(out, x.as_slice()),
            Nla::Other(d) => push_bytes(out, d.value.as_slice()),
        }
    }
}

/// The context message of a failure to decode a record of this kind.
pub open spec fn route_context(kind: u16) -> &'static str {
    if kind == RTA_METRICS {
        "invalid RTA_METRICS value"
    } else if kind == RTA_IIF {
        "invalid RTA_IIF value"
    } else if kind == RTA_OIF {
        "invalid RTA_OIF value"
    } else if kind == RTA_PRIORITY {
        "invalid RTA_PRIORITY value"
    } else if kind == RTA_PROTOINFO {
        "invalid RTA_PROTOINFO value"
    } else if kind == RTA_FLOW {
        "invalid RTA_FLOW value"
    } else if kind == RTA_CACHEINFO {
        "invalid RTA_CACHEINFO value"
    } else if kind == RTA_TABLE {
        "invalid RTA_TABLE value"
    } else if kind == RTA_MARK {
        "invalid RTA_MARK value"
    } else if kind == RTA_MFC_STATS {
        "invalid RTA_MFC_STATS value"
    } else if kind == RTA_ENCAP_TYPE {
        "invalid RTA_ENCAP_TYPE value"
    } else {
        "invalid NLA"
    }
}

impl NlaParse for Nla {
    open spec fn spec_parses(kind: u16, value: Seq<u8>) -> bool {
        if kind == RTA_METRICS {
            header_valid(value)
        } else if kind == RTA_IIF {
            value.len() == 4
        } else if kind == RTA_OIF {
            value.len() == 4
        } else if kind == RTA_PRIORITY {
            value.len() == 4
        } else if kind == RTA_PROTOINFO {
            value.len() == 4
        } else if kind == RTA_FLOW {
            value.len() == 4
        } else if kind == RTA_CACHEINFO {
            value.len() >= CACHE_INFO_LEN
        } else if kind == RTA_TABLE {
            value.len() == 4
        } else if kind == RTA_MARK {
            value.len() == 4
        } else if kind == RTA_MFC_STATS {
            value.len() >= MFC_STATS_LEN
        } else if kind == RTA_ENCAP_TYPE {
            value.len() == 2
        } else {
            true
        }
    }

    open spec fn spec_decodes(&self, kind: u16, value: Seq<u8>) -> bool {
        match self {
            Nla::Unspec(x) => kind == RTA_UNSPEC && x@ == value,
            Nla::Destination(x) => kind == RTA_DST && x@ == value,
            Nla::Source(x) => kind == RTA_SRC && x@ == value,
            Nla::Iif(x) => kind == RTA_IIF && value.len() == 4 && *x == u32_at(value, 0),
            Nla::Oif(x) => kind == RTA_OIF && value.len() == 4 && *x == u32_at(value, 0),
            Nla::Gateway(x) => kind == RTA_GATEWAY && x@ == value,
            Nla::Priority(x) => kind == RTA_PRIORITY && value.len() == 4 && *x == u32_at(value, 0),
            Nla::PrefSource(x) => kind == RTA_PREFSRC && x@ == value,
            Nla::Metrics(x) => kind == RTA_METRICS && header_valid(value) && x@ == value,
            Nla::MultiPath(x) => kind == RTA_MULTIPATH && x@ == value,
            Nla::ProtocolInfo(x) => kind == RTA_PROTOINFO && value.len() == 4 && *x
                == u32_at(value, 0),
            Nla::Flow(x) => kind == RTA_FLOW && value.len() == 4 && *x == u32_at(value, 0),
            Nla::CacheInfo(x) => kind == RTA_CACHEINFO && value.len() >= CACHE_INFO_LEN && *x
                == cache_info_of(value),
            Nla::Session(x) => kind == RTA_SESSION && x@ == value,
            Nla::MpAlgo(x) => kind == RTA_MP_ALGO && x@ == value,
            Nla::Table(x) => kind == RTA_TABLE && value.len() == 4 && *x == u32_at(value, 0),
            Nla::Mark(x) => kind == RTA_MARK && value.len() == 4 && *x == u32_at(value, 0),
            Nla::MfcStats(x) => kind == RTA_MFC_STATS && value.len() >= MFC_STATS_LEN && *x
                == mfc_stats_of(value),
            Nla::Via(x) => kind == RTA_VIA && x@ == value,
            Nla::NewDestination(x) => kind == RTA_NEWDST && x@ == value,
            Nla::Pref(x) => kind == RTA_PREF && x@ == value,
            Nla::EncapType(x) => kind == RTA_ENCAP_TYPE && value.len() == 2 && *x == u16_at(value,
                0),
            Nla::Encap(x) => kind == RTA_ENCAP && x@ == value,
            Nla::Expires(x) => kind == RTA_EXPIRES && x@ == value,
            Nla::Pad(x) => kind == RTA_PAD && x@ == value,
            Nla::Uid(x) => kind == RTA_UID && x@ == value,
            Nla::TtlPropagate(x) => kind == RTA_TTL_PROPAGATE && x@ == value,
            Nla::Other(d) => !nla_known_kind(kind) && d.kind == kind && d.value@ == value,
        }
    }

    open spec fn spec_wf(&self) -> bool {
        match self {
            Nla::Metrics(x) => header_valid(x@),
            Nla::Other(d) => !nla_known_kind(d.kind),
            _ => true,
        }
    }

    open spec fn spec_context(kind: u16) -> &'static str {
        route_context(kind)
    }

    fn parse(buf: &NlaBuffer) -> (r: Result<Self, DecodeError>) {
        let payload = buf.value();
        let kind = buf.kind();
        if kind == RTA_UNSPEC {
            Ok(Nla::Unspec(slice_to_vec(payload)))
        } else if kind == RTA_DST {
            Ok(Nla::Destination(slice_to_vec(payload)))
        } else if kind == RTA_SRC {
            Ok(Nla::Source(slice_to_vec(payload)))
        } else if kind == RTA_IIF {
            match with_context(parse_u32(payload), "invalid RTA_IIF value") {
                Ok(x) => Ok(Nla::Iif(x)),
                Err(e) => Err(e),
            }
        } else if kind == RTA_OIF {
            match with_context(parse_u32(payload), "invalid RTA_OIF value") {
                Ok(x) => Ok(Nla::Oif(x)),
                Err(e) => Err(e),
            }
        } else if kind == RTA_GATEWAY {
            Ok(Nla::Gateway(slice_to_vec(payload)))
        } else if kind == RTA_PRIORITY {
            match with_context(parse_u32(payload), "invalid RTA_PRIORITY value") {
                Ok(x) => Ok(Nla::Priority(x)),
                Err(e) => Err(e),
            }
        } else if kind == RTA_PREFSRC {
            Ok(Nla::PrefSource(slice_to_vec(payload)))
        } else if kind == RTA_METRICS {
            match with_context(NlaBuffer::new_checked(payload), "invalid RTA_METRICS value") {
                Ok(_) => Ok(Nla::Metrics(slice_to_vec(payload))),
                Err(e) => Err(e),
            }
        } else if kind == RTA_MULTIPATH {
            Ok(Nla::MultiPath(slice_to_vec(payload)))
        } else if kind == RTA_PROTOINFO {
            match with_context(parse_u32(payload), "invalid RTA_PROTOINFO value") {
                Ok(x) => Ok(Nla::ProtocolInfo(x)),
                Err(e) => Err(e),
            }
        } else if kind == RTA_FLOW {
            match with_context(parse_u32(payload), "invalid RTA_FLOW value") {
                Ok(x) => Ok(Nla::Flow(x)),
                Err(e) => Err(e),
            }
        } else if kind == RTA_CACHEINFO {
            match with_context(CacheInfo::parse(payload), "invalid RTA_CACHEINFO value") {
                Ok(x) => Ok(Nla::CacheInfo(x)),
                Err(e) => Err(e),
            }
        } else if kind == RTA_SESSION {
            Ok(Nla::Session(slice_to_vec(payload)))
        } else if kind == RTA_MP_ALGO {
            Ok(Nla::MpAlgo(slice_to_vec(payload)))
        } else if kind == RTA_TABLE {
            match with_context(parse_u32(payload), "invalid RTA_TABLE value") {
                Ok(x) => Ok(Nla::Table(x)),
                Err(e) => Err(e),
            }
        } else if kind == RTA_MARK {
            match with_context(parse_u32(payload), "invalid RTA_MARK value") {
                Ok(x) => Ok(Nla::Mark(x)),
                Err(e) => Err(e),
            }
        } else if kind == RTA_MFC_STATS {
            match with_context(MfcStats::parse(payload), "invalid RTA_MFC_STATS value") {
                Ok(x) => Ok(Nla::MfcStats(x)),
                Err(e) => Err(e),
            }
        } else if kind == RTA_VIA {
            Ok(Nla::Via(slice_to_vec(payload)))
        } else if kind == RTA_NEWDST {
            Ok(Nla::NewDestination(slice_to_vec(payload)))
        } else if kind == RTA_PREF {
            Ok(Nla::Pref(slice_to_vec(payload)))
        } else if kind == RTA_ENCAP_TYPE {
            match with_context(parse_u16(payload), "invalid RTA_ENCAP_TYPE value") {
                Ok(x) => Ok(Nla::EncapType(x)),
                Err(e) => Err(e),
            }
        } else if kind == RTA_ENCAP {
            Ok(Nla::Encap(slice_to_vec(payload)))
        } else if kind == RTA_EXPIRES {
            Ok(Nla::Expires(slice_to_vec(payload)))
        } else if kind == RTA_PAD {
            Ok(Nla::Pad(slice_to_vec(payload)))
        } else if kind == RTA_UID {
            Ok(Nla::Uid(slice_to_vec(payload)))
        } else if kind == RTA_TTL_PROPAGATE {
            Ok(Nla::TtlPropagate(slice_to_vec(payload)))
        } else {
            Ok(Nla::Other(DefaultNla::new(kind, slice_to_vec(payload))))
        }
    }

    proof fn lemma_round_trip(&self) {
        lemma_int_at_zero();
        lemma_int_bytes();
        match self {
            Nla::CacheInfo(x) => {
                x.lemma_round_trip(seq![]);
                assert(x.spec_bytes() + seq![] =~= x.spec_bytes());
            },
            Nla::MfcStats(x) => {
                x.lemma_round_trip(seq![]);
                assert(x.spec_bytes() + seq![] =~= x.spec_bytes());
            },
            _ => {},
        }
    }

    proof fn lemma_decodes_unique(&self, other: &Self, kind: u16, value: Seq<u8>) {
        lemma_int_bytes();
    }
}

pub const HEADER_LEN: usize = 12;

/// A read-only view of a route message.
///
/// Layout: family (byte 0), destination and source prefix lengths (1, 2),
/// type of service (3), table (4), protocol (5), scope (6), type (7), flags
/// (8..12), then attributes.
#[derive(Debug, Clone, Copy)]
pub struct MessageBuffer<'a> {
    buffer: &'a [u8],
}

impl<'a> View for MessageBuffer<'a> {
    type V = Seq<u8>;

    closed spec fn view(&self) -> Seq<u8> {
        self.buffer@
    }
}

impl<'a> MessageBuffer<'a> {
    pub fn new(buffer: &'a [u8]) -> (r: MessageBuffer<'a>)
        ensures
            r@ == buffer@,
    {
        MessageBuffer { buffer }
    }

    pub fn new_checked(buffer: &'a [u8]) -> (r: Result<MessageBuffer<'a>, DecodeError>)
        ensures
            r is Ok <==> buffer@.len() >= HEADER_LEN,
            r is Ok ==> r->Ok_0@ == buffer@,
            r is Err ==> r->Err_0.kind == ErrorKind::Truncated,
    {
        if buffer.len() < HEADER_LEN {
            Err(DecodeError::new(ErrorKind::Truncated).context("route message buffer too short"))
        } else {
            Ok(MessageBuffer { buffer })
        }
    }

    pub fn address_family(&self) -> (r: u8)
        requires
            self@.len() >= HEADER_LEN,
        ensures
            r == self@[0],
    {
        self.buffer[0]
    }

    pub fn destination_prefix_length(&self) -> (r: u8)
        requires
            self@.len() >= HEADER_LEN,
        ensures
            r == self@[1],
    {
        self.buffer[1]
    }

    pub fn source_prefix_length(&self) -> (r: u8)
        requires
            self@.len() >= HEADER_LEN,
        ensures
            r == self@[2],
    {
        self.buffer[2]
    }

    pub fn tos(&self) -> (r: u8)
        requires
            self@.len() >= HEADER_LEN,
        ensures
            r == self@[3],
    {
        self.buffer[3]
    }

    pub fn table(&self) -> (r: u8)
        requires
            self@.len() >= HEADER_LEN,
        ensures
            r == self@[4],
    {
        self.buffer[4]
    }

    pub fn protocol(&self) -> (r: u8)
        requires
            self@.len() >= HEADER_LEN,
        ensures
            r == self@[5],
    {
        self.buffer[5]
    }

    pub fn scope(&self) -> (r: u8)
        requires
            self@.len() >= HEADER_LEN,
        ensures
            r == self@[6],
    {
        self.buffer[6]
    }

    pub fn kind(&self) -> (r: u8)
        requires
            self@.len() >= HEADER_LEN,
        ensures
            r == self@[7],
    {
        self.buffer[7]
    }

    pub fn flags(&self) -> (r: u32)
        requires
            self@.len() >= HEADER_LEN,
        ensures
            r == u32_at(self@, 8),
    {
        get_u32(self.buffer, 8)
    }

    /// The bytes after the header.
    pub fn payload(&self) -> (r: &'a [u8])
        requires
            self@.len() >= HEADER_LEN,
        ensures
            r@ == self@.subrange(HEADER_LEN as int, self@.len() as int),
    {
        slice_subrange(self.buffer, HEADER_LEN, self.buffer.len())
    }

    /// The attribute records after the header.
    pub fn nlas(&self) -> (r: Vec<Result<NlaBuffer<'a>, DecodeError>>)
        requires
            self@.len() >= HEADER_LEN,
        ensures
            crate::nla::items_view(r@) == scan(self@.subrange(HEADER_LEN as int,
                self@.len() as int)),
    {
        nlas(self.payload())
    }
}

/// The header of a route message.
#[derive(Debug, Clone, Copy, PartialEq, Eq, Structural)]
pub struct RouteHeader {
    /// Address family.
    pub address_family: u8,
    /// Prefix length of the destination.
    pub destination_prefix_length: u8,
    /// Prefix length of the source.
    pub source_prefix_length: u8,
    /// Type of service.
    pub tos: u8,
    /// Routing table.
    pub table: u8,
    /// Routing protocol (`RTPROT_*`).
    pub protocol: u8,
    /// Scope (`RT_SCOPE_*`).
    pub scope: u8,
    /// Route type (`RTN_*`).
    pub kind: u8,
    /// Route flags (`RTM_F_*`).
    pub flags: u32,
}

/// The header that the first 12 bytes of `s` hold.
pub open spec fn route_header_of(s: Seq<u8>) -> RouteHeader {
    RouteHeader {
        address_family: s[0],
        destination_prefix_length: s[1],
        source_prefix_length: s[2],
        tos: s[3],
        table: s[4],
        protocol: s[5],
        scope: s[6],
        kind: s[7],
        flags: u32_at(s, 8),
    }
}

impl RouteHeader {
    /// The 12 header bytes; padding is zero.
    pub open spec fn spec_bytes(&self) -> Seq<u8> {
        seq![self.address_family]
            + seq![self.destination_prefix_length]
            + seq![self.source_prefix_length]
            + seq![self.tos]
            + seq![self.table]
            + seq![self.protocol]
            + seq![self.scope]
            + seq![self.kind]
            + u32_bytes(self.flags)
    }

    pub fn buffer_len(&self) -> (r: usize)
        ensures
            r == HEADER_LEN,
    {
        HEADER_LEN
    }

    pub fn emit_into(&self, out: &mut Vec<u8>)
        ensures
            final(out)@ == old(out)@ + self.spec_bytes(),
    {
        out.push(self.address_family);
        out.push(self.destination_prefix_length);
        out.push(self.source_prefix_length);
        out.push(self.tos);
        out.push(self.table);
        out.push(self.protocol);
        out.push(self.scope);
        out.push(self.kind);
        push_u32(out, self.flags);
        assert(final(out)@ =~= old(out)@ + self.spec_bytes());
    }

    pub fn emit(&self, buffer: &mut [u8])
        requires
            old(buffer)@.len() >= HEADER_LEN,
        ensures
            final(buffer)@ == splice(old(buffer)@, 0, self.spec_bytes()),
    {
        let mut bytes: Vec<u8> = Vec::new();
        self.emit_into(&mut bytes);
        proof {
            lemma_int_bytes();
        }
        set_bytes(buffer, 0, bytes.as_slice());
    }

    pub fn parse(buf: &MessageBuffer) -> (r: Result<RouteHeader, DecodeError>)
        requires
            buf@.len() >= HEADER_LEN,
        ensures
            r is Ok,
            r->Ok_0 == route_header_of(buf@),
    {
        Ok(
            RouteHeader {
                address_family: buf.address_family(),
                destination_prefix_length: buf.destination_prefix_length(),
                source_prefix_length: buf.source_prefix_length(),
                tos: buf.tos(),
                table: buf.table(),
                protocol: buf.protocol(),
                scope: buf.scope(),
                kind: buf.kind(),
                flags: buf.flags(),
            },
        )
    }

    /// Reading the bytes of a header gives it back, whatever follows them.
    pub proof fn lemma_round_trip(&self, rest: Seq<u8>)
        ensures
            self.spec_bytes().len() == HEADER_LEN,
            route_header_of(self.spec_bytes() + rest) == *self,
    {
        lemma_int_bytes();
        let s = self.spec_bytes() + rest;
        assert(s.subrange(8, 12) =~= u32_bytes(self.flags));
    }
}

/// A route message: the header, then its attributes.
#[derive(Debug, Clone, PartialEq, Eq)]
pub struct RouteMessage {
    pub header: RouteHeader,
    pub nlas: NlaVec<Nla>,
}

impl RouteMessage {
    /// A message of this header and these attributes, in order.
    pub fn from_parts(header: RouteHeader, nlas: Vec<Nla>) -> (r: RouteMessage)
        ensures
            r.header == header,
            route_nla_items(r.nlas) == nlas@,
    {
        RouteMessage { header, nlas: NlaVec::<Nla>::from_vec(nlas) }
    }

    /// The attributes, in order.
    pub fn nla_slice(&self) -> (r: &[Nla])
        ensures
            r@ == route_nla_items(self.nlas),
    {
        self.nlas.as_slice()
    }

    pub open spec fn spec_bytes(&self) -> Seq<u8> {
        self.header.spec_bytes() + nlas_bytes(route_nla_items(self.nlas))
    }

    pub open spec fn spec_fits(&self) -> bool {
        nlas_fit(route_nla_items(self.nlas)) && self.spec_bytes().len() <= usize::MAX
    }

    pub open spec fn spec_wf(&self) -> bool {
        nlas_wf(route_nla_items(self.nlas))
    }

    pub fn buffer_len(&self) -> (r: usize)
        requires
            self.spec_fits(),
        ensures
            r == self.spec_bytes().len(),
    {
        proof {
            lemma_int_bytes();
        }
        self.header.buffer_len() + nlas_buffer_len(self.nlas.as_slice())
    }

    pub fn to_bytes(&self) -> (r: Vec<u8>)
        requires
            self.spec_fits(),
        ensures
            r@ == self.spec_bytes(),
    {
        let mut out: Vec<u8> = Vec::new();
        self.header.emit_into(&mut out);
        emit_nlas(self.nlas.as_slice(), &mut out);
        assert(out@ =~= self.spec_bytes());
        out
    }

    /// Writes the header, then the attributes right after it.
    pub fn emit(&self, buffer: &mut [u8])
        requires
            self.spec_fits(),
            old(buffer)@.len() >= self.spec_bytes().len(),
        ensures
            final(buffer)@ == splice(old(buffer)@, 0, self.spec_bytes()),
    {
        let bytes = self.to_bytes();
        set_bytes(buffer, 0, bytes.as_slice());
    }

    pub open spec fn spec_parses(s: Seq<u8>) -> bool {
        s.len() >= HEADER_LEN && nlas_parse_bytes::<Nla>(s.subrange(HEADER_LEN as int,
            s.len() as int))
    }

    pub open spec fn spec_decodes(&self, s: Seq<u8>) -> bool {
        let payload = s.subrange(HEADER_LEN as int, s.len() as int);
        &&& self.header == route_header_of(s)
        &&& nlas_decode(route_nla_items(self.nlas), decode_records(payload)->Some_0)
    }

    /// Decodes a message: the header, then the attributes.
    pub fn parse(buf: &MessageBuffer) -> (r: Result<RouteMessage, DecodeError>)
        ensures
            r is Ok <==> RouteMessage::spec_parses(buf@),
            r is Ok ==> r->Ok_0.spec_decodes(buf@),
            buf@.len() < HEADER_LEN ==> r is Err && r->Err_0.kind == ErrorKind::Truncated,
            buf@.len() >= HEADER_LEN && r is Err ==> r->Err_0.context@.len() > 0
                && r->Err_0.context@.last() == "failed to parse route message NLAs",
            buf@.len() >= HEADER_LEN && !all_some(scan(buf@.subrange(HEADER_LEN as int,
                buf@.len() as int)))
                && nlas_formed_parse::<Nla>(buf@.subrange(HEADER_LEN as int,
                    buf@.len() as int)) ==> r is Err
                && r->Err_0.kind == ErrorKind::Truncated,
    {
        if buf.buffer.len() < HEADER_LEN {
            return Err(
                DecodeError::new(ErrorKind::Truncated)
                    .context("failed to parse route message header"),
            );
        }
        let header = match with_context(RouteHeader::parse(buf),
            "failed to parse route message header") {
            Ok(h) => h,
            Err(e) => {
                return Err(e);
            },
        };
        match with_context(parse_nlas::<Nla>(buf.payload()), "failed to parse route message NLAs") {
            Ok(nlas) => Ok(RouteMessage { header, nlas: NlaVec::<Nla>::from_vec(nlas) }),
            Err(e) => Err(e),
        }
    }

    /// Emitting a well-formed message into a buffer of exactly its length
    /// leaves its encoding there, and decoding that encoding succeeds and
    /// gives a message with the same header whose attributes encode exactly
    /// as those of the message that was emitted.
    pub proof fn lemma_round_trip(&self)
        requires
            self.spec_wf(),
            self.spec_fits(),
        ensures
            forall|b: Seq<u8>|
                b.len() == self.spec_bytes().len() ==> #[trigger] splice(b, 0, self.spec_bytes())
                    == self.spec_bytes(),
            RouteMessage::spec_parses(self.spec_bytes()),
            self.spec_decodes(self.spec_bytes()),
            forall|m: RouteMessage| #[trigger]
                m.spec_decodes(self.spec_bytes()) ==> m.header == self.header && nla_records(
                    route_nla_items(m.nlas),
                ) == nla_records(route_nla_items(self.nlas)),
    {
        assert forall|b: Seq<u8>| b.len() == self.spec_bytes().len() implies #[trigger] splice(
            b,
            0,
            self.spec_bytes(),
        ) == self.spec_bytes() by {
            crate::wire::lemma_splice_whole(b, self.spec_bytes());
        }
        let s = self.spec_bytes();
        self.header.lemma_round_trip(nlas_bytes(route_nla_items(self.nlas)));
        let payload = s.subrange(HEADER_LEN as int, s.len() as int);
        assert(payload =~= nlas_bytes(route_nla_items(self.nlas)));
        lemma_nlas_round_trip(route_nla_items(self.nlas));
        assert forall|m: RouteMessage| #[trigger]
            m.spec_decodes(self.spec_bytes()) implies m.header == self.header && nla_records(
            route_nla_items(m.nlas),
        ) == nla_records(route_nla_items(self.nlas)) by {
            lemma_nlas_decode_unique(route_nla_items(self.nlas), route_nla_items(m.nlas),
                nla_records(route_nla_items(self.nlas)));
        }
    }
}

} // verus!
