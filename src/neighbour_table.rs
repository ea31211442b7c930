//! Neighbour table messages.
use vstd::prelude::*;
use vstd::slice::slice_subrange;

use crate::collections::{neighbour_table_nla_items, NlaVec};
use crate::error::{with_context, DecodeError, ErrorKind};
use crate::nla::{
    all_some, nlas_formed_parse,
    decode_records, emit_nlas, lemma_nlas_decode_unique, lemma_nlas_round_trip, nla_records, nlas,
    nlas_buffer_len, nlas_bytes, nlas_decode, nlas_fit, nlas_parse_bytes, nlas_wf, parse_nlas,
    scan, slice_to_vec, zeros, DefaultNla, Nla as NlaTrait, NlaBuffer, NlaParse,
};
use crate::parsers::{
    lemma_string_round_trip, parse_string, parse_u32, parse_u64, push_string, string_bytes,
    string_of, string_value_len,
};
use crate::wire::{
    get_u16, get_u32, get_u64, lemma_int_at_zero, lemma_int_bytes, push_bytes, push_u16, push_u32,
    push_u64, push_zeros, set_bytes, splice, u16_at, u16_bytes, u32_at, u32_bytes, u64_at,
    u64_bytes,
};

verus! {

broadcast use vstd::slice::group_slice_axioms;

pub const CONFIG_LEN: usize = 32;

/// Neighbour table configuration (`struct ndt_config`).
#[derive(Debug, Clone, Copy, PartialEq, Eq, Structural)]
pub struct Config {
    pub key_len: u16,
    pub entry_size: u16,
    pub entries: u32,
    pub last_flush: u32,
    pub last_rand: u32,
    pub hash_rnd: u32,
    pub hash_mask: u32,
    pub hash_chain_gc: u32,
    pub proxy_qlen: u32,
}

/// The Config that the first 32 bytes of `s` hold.
pub open spec fn config_of(s: Seq<u8>) -> Config {
    Config {
        key_len: u16_at(s, 0),
        entry_size: u16_at(s, 2),
        entries: u32_at(s, 4),
        last_flush: u32_at(s, 8),
        last_rand: u32_at(s, 12),
        hash_rnd: u32_at(s, 16),
        hash_mask: u32_at(s, 20),
        hash_chain_gc: u32_at(s, 24),
        proxy_qlen: u32_at(s, 28),
    }
}

impl Config {
    /// Reading the bytes of the structure gives it back, whatever follows
    /// them.
    #[verifier::spinoff_prover]
    #[verifier::rlimit(50)]
    pub proof fn lemma_round_trip(&self, rest: Seq<u8>)
        ensures
            self.spec_bytes().len() == CONFIG_LEN,
            config_of(self.spec_bytes() + rest) == *self,
    {
        lemma_int_bytes();
        let s = self.spec_bytes() + rest;
        assert(s.subrange(0, 2) =~= u16_bytes(self.key_len));
        assert(s.subrange(2, 4) =~= u16_bytes(self.entry_size));
        assert(s.subrange(4, 8) =~= u32_bytes(self.entries));
        assert(s.subrange(8, 12) =~= u32_bytes(self.last_flush));
        assert(s.subrange(12, 16) =~= u32_bytes(self.last_rand));
        assert(s.subrange(16, 20) =~= u32_bytes(self.hash_rnd));
        assert(s.subrange(20, 24) =~= u32_bytes(self.hash_mask));
        assert(s.subrange(24, 28) =~= u32_bytes(self.hash_chain_gc));
        assert(s.subrange(28, 32) =~= u32_bytes(self.proxy_qlen));
    }

    /// The 32 bytes of the structure, fields in order at their offsets.
    pub open spec fn spec_bytes(&self) -> Seq<u8> {
        (u16_bytes(self.key_len) + u16_bytes(self.entry_size) + u32_bytes(self.entries)
            + u32_bytes(self.last_flush) + u32_bytes(self.last_rand) + u32_bytes(self.hash_rnd)
                + u32_bytes(self.hash_mask) + u32_bytes(self.hash_chain_gc))
            + (u32_bytes(self.proxy_qlen))
    }

    pub fn buffer_len(&self) -> (r: usize)
        ensures
            r == CONFIG_LEN,
    {
        CONFIG_LEN
    }

    /// Reads the structure from the front of `payload`, which must hold at
    /// least 32 bytes; bytes after them are not read.
    pub fn parse(payload: &[u8]) -> (r: Result<Config, DecodeError>)
        ensures
            r is Ok <==> payload@.len() >= CONFIG_LEN,
            r is Ok ==> r->Ok_0 == config_of(payload@),
            r is Err ==> r->Err_0.kind == ErrorKind::Truncated,
    {
        if payload.len() < CONFIG_LEN {
            return Err(DecodeError::new(ErrorKind::Truncated)
                .context("buffer too short for Config"));
        }
        Ok(
            Config {
                key_len: get_u16(payload, 0),
                entry_size: get_u16(payload, 2),
                entries: get_u32(payload, 4),
                last_flush: get_u32(payload, 8),
                last_rand: get_u32(payload, 12),
                hash_rnd: get_u32(payload, 16),
                hash_mask: get_u32(payload, 20),
                hash_chain_gc: get_u32(payload, 24),
                proxy_qlen: get_u32(payload, 28),
            },
        )
    }

    /// Appends the 32 bytes of the structure.
    #[verifier::spinoff_prover]
    #[verifier::rlimit(50)]
    pub fn emit_into(&self, out: &mut Vec<u8>)
        ensures
            final(out)@ == old(out)@ + self.spec_bytes(),
    {
        let ghost start = out@;
        let ghost g0 = out@;
        push_u16(out, self.key_len);
        push_u16(out, self.entry_size);
        push_u32(out, self.entries);
        push_u32(out, self.last_flush);
        push_u32(out, self.last_rand);
        push_u32(out, self.hash_rnd);
        push_u32(out, self.hash_mask);
        push_u32(out, self.hash_chain_gc);
        assert(out@ =~= g0 + (u16_bytes(self.key_len) + u16_bytes(self.entry_size)
            + u32_bytes(self.entries) + u32_bytes(self.last_flush) + u32_bytes(self.last_rand)
                + u32_bytes(self.hash_rnd) + u32_bytes(self.hash_mask)
                    + u32_bytes(self.hash_chain_gc)));
        let ghost g1 = out@;
        push_u32(out, self.proxy_qlen);
        assert(out@ =~= g1 + (u32_bytes(self.proxy_qlen)));
        assert(out@ =~= start + self.spec_bytes());
    }

    /// Writes the structure at the front of `buffer`.
    pub fn emit(&self, buffer: &mut [u8])
        requires
            old(buffer)@.len() >= CONFIG_LEN,
        ensures
            final(buffer)@ == splice(old(buffer)@, 0, self.spec_bytes()),
    {
        let mut bytes: Vec<u8> = Vec::new();
        self.emit_into(&mut bytes);
        proof {
            lemma_int_bytes();
        }
        set_bytes(buffer, 0, bytes.as_slice());
    }
}

pub const STATS_LEN: usize = 80;

/// Neighbour table statistics (`struct ndt_stats`).
#[derive(Debug, Clone, Copy, PartialEq, Eq, Structural)]
pub struct Stats {
    pub allocs: u64,
    pub destroys: u64,
    pub hash_grows: u64,
    pub res_failed: u64,
    pub lookups: u64,
    pub hits: u64,
    pub multicast_probes_received: u64,
    pub unicast_probes_received: u64,
    pub periodic_gc_runs: u64,
    pub forced_gc_runs: u64,
}

/// The Stats that the first 80 bytes of `s` hold.
pub open spec fn stats_of(s: Seq<u8>) -> Stats {
    Stats {
        allocs: u64_at(s, 0),
        destroys: u64_at(s, 8),
        hash_grows: u64_at(s, 16),
        res_failed: u64_at(s, 24),
        lookups: u64_at(s, 32),
        hits: u64_at(s, 40),
        multicast_probes_received: u64_at(s, 48),
        unicast_probes_received: u64_at(s, 56),
        periodic_gc_runs: u64_at(s, 64),
        forced_gc_runs: u64_at(s, 72),
    }
}

impl Stats {
    /// Reading the bytes of the structure gives it back, whatever follows
    /// them.
    #[verifier::spinoff_prover]
    #[verifier::rlimit(50)]
    pub proof fn lemma_round_trip(&self, rest: Seq<u8>)
        ensures
            self.spec_bytes().len() == STATS_LEN,
            stats_of(self.spec_bytes() + rest) == *self,
    {
        lemma_int_bytes();
        let s = self.spec_bytes() + rest;
        assert(s.subrange(0, 8) =~= u64_bytes(self.allocs));
        assert(s.subrange(8, 16) =~= u64_bytes(self.destroys));
        assert(s.subrange(16, 24) =~= u64_bytes(self.hash_grows));
        assert(s.subrange(24, 32) =~= u64_bytes(self.res_failed));
        assert(s.subrange(32, 40) =~= u64_bytes(self.lookups));
        assert(s.subrange(40, 48) =~= u64_bytes(self.hits));
        assert(s.subrange(48, 56) =~= u64_bytes(self.multicast_probes_received));
        assert(s.subrange(56, 64) =~= u64_bytes(self.unicast_probes_received));
        assert(s.subrange(64, 72) =~= u64_bytes(self.periodic_gc_runs));
        assert(s.subrange(72, 80) =~= u64_bytes(self.forced_gc_runs));
    }

    /// The 80 bytes of the structure, fields in order at their offsets.
    pub open spec fn spec_bytes(&self) -> Seq<u8> {
        (u64_bytes(self.allocs) + u64_bytes(self.destroys) + u64_bytes(self.hash_grows)
            + u64_bytes(self.res_failed) + u64_bytes(self.lookups))
            + (u64_bytes(self.hits) + u64_bytes(self.multicast_probes_received)
                + u64_bytes(self.unicast_probes_received) + u64_bytes(self.periodic_gc_runs)
                    + u64_bytes(self.forced_gc_runs))
    }

    pub fn buffer_len(&self) -> (r: usize)
        ensures
            r == STATS_LEN,
    {
        STATS_LEN
    }

    /// Reads the structure from the front of `payload`, which must hold at
    /// least 80 bytes; bytes after them are not read.
    pub fn parse(payload: &[u8]) -> (r: Result<Stats, DecodeError>)
        ensures
            r is Ok <==> payload@.len() >= STATS_LEN,
            r is Ok ==> r->Ok_0 == stats_of(payload@),
            r is Err ==> r->Err_0.kind == ErrorKind::Truncated,
    {
        if payload.len() < STATS_LEN {
            return Err(DecodeError::new(ErrorKind::Truncated)
                .context("buffer too short for Stats"));
        }
        Ok(
            Stats {
                allocs: get_u64(payload, 0),
                destroys: get_u64(payload, 8),
                hash_grows: get_u64(payload, 16),
                res_failed: get_u64(payload, 24),
                lookups: get_u64(payload, 32),
                hits: get_u64(payload, 40),
                multicast_probes_received: get_u64(payload, 48),
                unicast_probes_received: get_u64(payload, 56),
                periodic_gc_runs: get_u64(payload, 64),
                forced_gc_runs: get_u64(payload, 72),
            },
        )
    }

    /// Appends the 80 bytes of the structure.
    #[verifier::spinoff_prover]
    #[verifier::rlimit(50)]
    pub fn emit_into(&self, out: &mut Vec<u8>)
        ensures
            final(out)@ == old(out)@ + self.spec_bytes(),
    {
        let ghost start = out@;
        let ghost g0 = out@;
        push_u64(out, self.allocs);
        push_u64(out, self.destroys);
        push_u64(out, self.hash_grows);
        push_u64(out, self.res_failed);
        push_u64(out, self.lookups);
        assert(out@ =~= g0 + (u64_bytes(self.allocs) + u64_bytes(self.destroys)
            + u64_bytes(self.hash_grows) + u64_bytes(self.res_failed) + u64_bytes(self.lookups)));
        let ghost g1 = out@;
        push_u64(out, self.hits);
        push_u64(out, self.multicast_probes_received);
        push_u64(out, self.unicast_probes_received);
        push_u64(out, self.periodic_gc_runs);
        push_u64(out, self.forced_gc_runs);
        assert(out@ =~= g1 + (u64_bytes(self.hits) + u64_bytes(self.multicast_probes_received)
            + u64_bytes(self.unicast_probes_received) + u64_bytes(self.periodic_gc_runs)
                + u64_bytes(self.forced_gc_runs)));
        assert(out@ =~= start + self.spec_bytes());
    }

    /// Writes the structure at the front of `buffer`.
    pub fn emit(&self, buffer: &mut [u8])
        requires
            old(buffer)@.len() >= STATS_LEN,
        ensures
            final(buffer)@ == splice(old(buffer)@, 0, self.spec_bytes()),
    {
        let mut bytes: Vec<u8> = Vec::new();
        self.emit_into(&mut bytes);
        proof {
            lemma_int_bytes();
        }
        set_bytes(buffer, 0, bytes.as_slice());
    }
}

pub const NDTA_UNSPEC: u16 = 0;
pub const NDTA_NAME: u16 = 1;
pub const NDTA_THRESH1: u16 = 2;
pub const NDTA_THRESH2: u16 = 3;
pub const NDTA_THRESH3: u16 = 4;
pub const NDTA_CONFIG: u16 = 5;
pub const NDTA_PARMS: u16 = 6;
pub const NDTA_STATS: u16 = 7;
pub const NDTA_GC_INTERVAL: u16 = 8;

/// Neighbour table attributes.
#[derive(Debug, Clone, PartialEq, Eq)]
pub enum Nla {
    Unspec(Vec<u8>),
    Name(String),
    Threshold1(u32),
    Threshold2(u32),
    Threshold3(u32),
    Config(Config),
    /// Table parameters, carried as their raw nested attributes.
    Parms(Vec<u8>),
    Stats(Stats),
    GcInterval(u64),
    Other(DefaultNla),
}

pub open spec fn nla_known_kind(kind: u16) -> bool {
    kind == NDTA_UNSPEC
    || kind == NDTA_NAME
    || kind == NDTA_THRESH1
    || kind == NDTA_THRESH2
    || kind == NDTA_THRESH3
    || kind == NDTA_CONFIG
    || kind == NDTA_PARMS
    || kind == NDTA_STATS
    || kind == NDTA_GC_INTERVAL
}

impl NlaTrait for Nla {
    open spec fn spec_kind(&self) -> u16 {
        match self {
            Nla::Unspec(_) => NDTA_UNSPEC,
            Nla::Name(_) => NDTA_NAME,
            Nla::Threshold1(_) => NDTA_THRESH1,
            Nla::Threshold2(_) => NDTA_THRESH2,
            Nla::Threshold3(_) => NDTA_THRESH3,
            Nla::Config(_) => NDTA_CONFIG,
            Nla::Parms(_) => NDTA_PARMS,
            Nla::Stats(_) => NDTA_STATS,
            Nla::GcInterval(_) => NDTA_GC_INTERVAL,
            Nla::Other(d) => d.kind,
        }
    }

    open spec fn spec_value(&self) -> Seq<u8> {
        match self {
            Nla::Unspec(x) => x@,
            Nla::Name(x) => string_bytes(x@),
            Nla::Threshold1(x) => u32_bytes(*x),
            Nla::Threshold2(x) => u32_bytes(*x),
            Nla::Threshold3(x) => u32_bytes(*x),
            Nla::Config(x) => x.spec_bytes(),
            Nla::Parms(x) => x@,
            Nla::Stats(x) => x.spec_bytes(),
            Nla::GcInterval(x) => u64_bytes(*x),
            Nla::Other(d) => d.value@,
        }
    }

    open spec fn spec_fits(&self) -> bool {
        true
    }

    fn kind(&self) -> (r: u16) {
        match self {
            Nla::Unspec(_) => NDTA_UNSPEC,
            Nla::Name(_) => NDTA_NAME,
            Nla::Threshold1(_) => NDTA_THRESH1,
            Nla::Threshold2(_) => NDTA_THRESH2,
            Nla::Threshold3(_) => NDTA_THRESH3,
            Nla::Config(_) => NDTA_CONFIG,
            Nla::Parms(_) => NDTA_PARMS,
            Nla::Stats(_) => NDTA_STATS,
            Nla::GcInterval(_) => NDTA_GC_INTERVAL,
            Nla::Other(d) => d.kind,
        }
    }

    fn value_len(&self) -> (r: usize) {
        proof {
            lemma_int_bytes();
            match self {
                Nla::Config(x) => x.lemma_round_trip(seq![]),
                Nla::Stats(x) => x.lemma_round_trip(seq![]),
                _ => {},
            }
        }
        match self {
            Nla::Unspec(x) => x.len(),
            Nla::Name(x) => string_value_len(x),
            Nla::Threshold1(x) => 4,
            Nla::Threshold2(x) => 4,
            Nla::Threshold3(x) => 4,
            Nla::Config(x) => CONFIG_LEN,
            Nla::Parms(x) => x.len(),
            Nla::Stats(x) => STATS_LEN,
            Nla::GcInterval(x) => 8,
            Nla::Other(d) => d.value.len(),
        }
    }

    fn emit_value(&self, out: &mut Vec<u8>) {
        match self {
            Nla::Unspec(x) => push_bytes(out, x.as_slice()),
            Nla::Name(x) => push_string(out, x),
            Nla::Threshold1(x) => push_u32(out, *x),
            Nla::Threshold2(x) => push_u32(out, *x),
            Nla::Threshold3(x) => push_u32(out, *x),
            Nla::Config(x) => x.emit_into(out),
            Nla::Parms(x) => push_bytes(out, x.as_slice()),
            Nla::Stats(x) => x.emit_into(out),
            Nla::GcInterval(x) => push_u64(out, *x),
            Nla::Other(d) => push_bytes(out, d.value.as_slice()),
        }
    }
}

/// The context message of a failure to decode a record of this kind.
pub open spec fn neighbour_table_context(kind: u16) -> &'static str {
    if kind == NDTA_NAME {
        "invalid NDTA_NAME value"
    } else if kind == NDTA_THRESH1 {
        "invalid NDTA_THRESH1 value"
    } else if kind == NDTA_THRESH2 {
        "invalid NDTA_THRESH2 value"
    } else if kind == NDTA_THRESH3 {
        "invalid NDTA_THRESH3 value"
    } else if kind == NDTA_CONFIG {
        "invalid NDTA_CONFIG value"
    } else if kind == NDTA_STATS {
        "invalid NDTA_STATS value"
    } else if kind == NDTA_GC_INTERVAL {
        "invalid NDTA_GC_INTERVAL value"
    } else {
        "invalid NLA"
    }
}

impl NlaParse for Nla {
    open spec fn spec_parses(kind: u16, value: Seq<u8>) -> bool {
        if kind == NDTA_NAME {
            string_of(value) is Some
        } else if kind == NDTA_THRESH1 {
            value.len() == 4
        } else if kind == NDTA_THRESH2 {
            value.len() == 4
        } else if kind == NDTA_THRESH3 {
            value.len() == 4
        } else if kind == NDTA_CONFIG {
            value.len() >= CONFIG_LEN
        } else if kind == NDTA_STATS {
            value.len() >= STATS_LEN
        } else if kind == NDTA_GC_INTERVAL {
            value.len() == 8
        } else {
            true
        }
    }

    open spec fn spec_decodes(&self, kind: u16, value: Seq<u8>) -> bool {
        match self {
            Nla::Unspec(x) => kind == NDTA_UNSPEC && x@ == value,
            Nla::Name(x) => kind == NDTA_NAME && string_of(value) == Some(x@),
            Nla::Threshold1(x) => kind == NDTA_THRESH1 && value.len() == 4 && *x == u32_at(value,
                0),
            Nla::Threshold2(x) => kind == NDTA_THRESH2 && value.len() == 4 && *x == u32_at(value,
                0),
            Nla::Threshold3(x) => kind == NDTA_THRESH3 && value.len() == 4 && *x == u32_at(value,
                0),
            Nla::Config(x) => kind == NDTA_CONFIG && value.len() >= CONFIG_LEN && *x
                == config_of(value),
            Nla::Parms(x) => kind == NDTA_PARMS && x@ == value,
            Nla::Stats(x) => kind == NDTA_STATS && value.len() >= STATS_LEN && *x
                == stats_of(value),
            Nla::GcInterval(x) => kind == NDTA_GC_INTERVAL && value.len() == 8 && *x
                == u64_at(value, 0),
            Nla::Other(d) => !nla_known_kind(kind) && d.kind == kind && d.value@ == value,
        }
    }

    open spec fn spec_wf(&self) -> bool {
        match self {
            Nla::Other(d) => !nla_known_kind(d.kind),
            _ => true,
        }
    }

    open spec fn spec_context(kind: u16) -> &'static str {
        neighbour_table_context(kind)
    }

    fn parse(buf: &NlaBuffer) -> (r: Result<Self, DecodeError>) {
        let payload = buf.value();
        let kind = buf.kind();
        if kind == NDTA_UNSPEC {
            Ok(Nla::Unspec(slice_to_vec(payload)))
        } else if kind == NDTA_NAME {
            match with_context(parse_string(payload), "invalid NDTA_NAME value") {
                Ok(x) => Ok(Nla::Name(x)),
                Err(e) => Err(e),
            }
        } else if kind == NDTA_THRESH1 {
            match with_context(parse_u32(payload), "invalid NDTA_THRESH1 value") {
                Ok(x) => Ok(Nla::Threshold1(x)),
                Err(e) => Err(e),
            }
        } else if kind == NDTA_THRESH2 {
            match with_context(parse_u32(payload), "invalid NDTA_THRESH2 value") {
                Ok(x) => Ok(Nla::Threshold2(x)),
                Err(e) => Err(e),
            }
        } else if kind == NDTA_THRESH3 {
            match with_context(parse_u32(payload), "invalid NDTA_THRESH3 value") {
                Ok(x) => Ok(Nla::Threshold3(x)),
                Err(e) => Err(e),
            }
        } else if kind == NDTA_CONFIG {
            match with_context(Config::parse(payload), "invalid NDTA_CONFIG value") {
                Ok(x) => Ok(Nla::Config(x)),
                Err(e) => Err(e),
            }
        } else if kind == NDTA_PARMS {
            Ok(Nla::Parms(slice_to_vec(payload)))
        } else if kind == NDTA_STATS {
            match with_context(Stats::parse(payload), "invalid NDTA_STATS value") {
                Ok(x) => Ok(Nla::Stats(x)),
                Err(e) => Err(e),
            }
        } else if kind == NDTA_GC_INTERVAL {
            match with_context(parse_u64(payload), "invalid NDTA_GC_INTERVAL value") {
                Ok(x) => Ok(Nla::GcInterval(x)),
                Err(e) => Err(e),
            }
        } else {
            Ok(Nla::Other(DefaultNla::new(kind, slice_to_vec(payload))))
        }
    }

    proof fn lemma_round_trip(&self) {
        lemma_int_at_zero();
        lemma_int_bytes();
        match self {
            Nla::Name(x) => lemma_string_round_trip(x@),
            Nla::Config(x) => {
                x.lemma_round_trip(seq![]);
                assert(x.spec_bytes() + seq![] =~= x.spec_bytes());
            },
            Nla::Stats(x) => {
                x.lemma_round_trip(seq![]);
                assert(x.spec_bytes() + seq![] =~= x.spec_bytes());
            },
            _ => {},
        }
    }

    proof fn lemma_decodes_unique(&self, other: &Self, kind: u16, value: Seq<u8>) {
        lemma_int_bytes();
    }
}

pub const HEADER_LEN: usize = 4;

/// A read-only view of a neighbour table message.
///
/// Layout: family (byte 0), padding (1..4), then attributes.
#[derive(Debug, Clone, Copy)]
pub struct MessageBuffer<'a> {
    buffer: &'a [u8],
}

impl<'a> View for MessageBuffer<'a> {
    type V = Seq<u8>;

    closed spec fn view(&self) -> Seq<u8> {
        self.buffer@
    }
}

impl<'a> MessageBuffer<'a> {
    pub fn new(buffer: &'a [u8]) -> (r: MessageBuffer<'a>)
        ensures
            r@ == buffer@,
    {
        MessageBuffer { buffer }
    }

    pub fn new_checked(buffer: &'a [u8]) -> (r: Result<MessageBuffer<'a>, DecodeError>)
        ensures
            r is Ok <==> buffer@.len() >= HEADER_LEN,
            r is Ok ==> r->Ok_0@ == buffer@,
            r is Err ==> r->Err_0.kind == ErrorKind::Truncated,
    {
        if buffer.len() < HEADER_LEN {
            Err(DecodeError::new(ErrorKind::Truncated)
                .context("neighbour table message buffer too short"))
        } else {
            Ok(MessageBuffer { buffer })
        }
    }

    pub fn family(&self) -> (r: u8)
        requires
            self@.len() >= HEADER_LEN,
        ensures
            r == self@[0],
    {
        self.buffer[0]
    }

    /// The bytes after the header.
    pub fn payload(&self) -> (r: &'a [u8])
        requires
            self@.len() >= HEADER_LEN,
        ensures
            r@ == self@.subrange(HEADER_LEN as int, self@.len() as int),
    {
        slice_subrange(self.buffer, HEADER_LEN, self.buffer.len())
    }

    /// The attribute records after the header.
    pub fn nlas(&self) -> (r: Vec<Result<NlaBuffer<'a>, DecodeError>>)
        requires
            self@.len() >= HEADER_LEN,
        ensures
            crate::nla::items_view(r@) == scan(self@.subrange(HEADER_LEN as int,
                self@.len() as int)),
    {
        nlas(self.payload())
    }
}

/// The header of a neighbour table message.
#[derive(Debug, Clone, Copy, PartialEq, Eq, Structural)]
pub struct Header {
    /// Address family.
    pub family: u8,
}

/// The header that the first 4 bytes of `s` hold.
pub open spec fn neighbour_table_header_of(s: Seq<u8>) -> Header {
    Header {
        family: s[0],
    }
}

impl Header {
    /// The 4 header bytes; padding is zero.
    pub open spec fn spec_bytes(&self) -> Seq<u8> {
        seq![self.family]
            + zeros(3)
    }

    pub fn buffer_len(&self) -> (r: usize)
        ensures
            r == HEADER_LEN,
    {
        HEADER_LEN
    }

    pub fn emit_into(&self, out: &mut Vec<u8>)
        ensures
            final(out)@ == old(out)@ + self.spec_bytes(),
    {
        out.push(self.family);
        push_zeros(out, 3);
        assert(final(out)@ =~= old(out)@ + self.spec_bytes());
    }

    pub fn emit(&self, buffer: &mut [u8])
        requires
            old(buffer)@.len() >= HEADER_LEN,
        ensures
            final(buffer)@ == splice(old(buffer)@, 0, self.spec_bytes()),
    {
        let mut bytes: Vec<u8> = Vec::new();
        self.emit_into(&mut bytes);
        proof {
            lemma_int_bytes();
        }
        set_bytes(buffer, 0, bytes.as_slice());
    }

    pub fn parse(buf: &MessageBuffer) -> (r: Result<Header, DecodeError>)
        requires
            buf@.len() >= HEADER_LEN,
        ensures
            r is Ok,
            r->Ok_0 == neighbour_table_header_of(buf@),
    {
        Ok(
            Header {
                family: buf.family(),
            },
        )
    }

    /// Reading the bytes of a header gives it back, whatever follows them.
    pub proof fn lemma_round_trip(&self, rest: Seq<u8>)
        ensures
            self.spec_bytes().len() == HEADER_LEN,
            neighbour_table_header_of(self.spec_bytes() + rest) == *self,
    {
        lemma_int_bytes();
        let s = self.spec_bytes() + rest;

    }
}

/// A neighbour table message: the header, then its attributes.
#[derive(Debug, Clone, PartialEq, Eq)]
pub struct NeighbourTableMessage {
    pub header: Header,
    pub nlas: NlaVec<Nla>,
}

impl NeighbourTableMessage {
    /// A message of this header and these attributes, in order.
    pub fn from_parts(header: Header, nlas: Vec<Nla>) -> (r: NeighbourTableMessage)
        ensures
            r.header == header,
            neighbour_table_nla_items(r.nlas) == nlas@,
    {
        NeighbourTableMessage { header, nlas: NlaVec::<Nla>::from_vec(nlas) }
    }

    /// The attributes, in order.
    pub fn nla_slice(&self) -> (r: &[Nla])
        ensures
            r@ == neighbour_table_nla_items(self.nlas),
    {
        self.nlas.as_slice()
    }

    pub open spec fn spec_bytes(&self) -> Seq<u8> {
        self.header.spec_bytes() + nlas_bytes(neighbour_table_nla_items(self.nlas))
    }

    pub open spec fn spec_fits(&self) -> bool {
        nlas_fit(neighbour_table_nla_items(self.nlas)) && self.spec_bytes().len() <= usize::MAX
    }

    pub open spec fn spec_wf(&self) -> bool {
        nlas_wf(neighbour_table_nla_items(self.nlas))
    }

    pub fn buffer_len(&self) -> (r: usize)
        requires
            self.spec_fits(),
        ensures
            r == self.spec_bytes().len(),
    {
        proof {
            lemma_int_bytes();
        }
        self.header.buffer_len() + nlas_buffer_len(self.nlas.as_slice())
    }

    pub fn to_bytes(&self) -> (r: Vec<u8>)
        requires
            self.spec_fits(),
        ensures
            r@ == self.spec_bytes(),
    {
        let mut out: Vec<u8> = Vec::new();
        self.header.emit_into(&mut out);
        emit_nlas(self.nlas.as_slice(), &mut out);
        assert(out@ =~= self.spec_bytes());
        out
    }

    /// Writes the header, then the attributes right after it.
    pub fn emit(&self, buffer: &mut [u8])
        requires
            self.spec_fits(),
            old(buffer)@.len() >= self.spec_bytes().len(),
        ensures
            final(buffer)@ == splice(old(buffer)@, 0, self.spec_bytes()),
    {
        let bytes = self.to_bytes();
        set_bytes(buffer, 0, bytes.as_slice());
    }

    pub open spec fn spec_parses(s: Seq<u8>) -> bool {
        s.len() >= HEADER_LEN && nlas_parse_bytes::<Nla>(s.subrange(HEADER_LEN as int,
            s.len() as int))
    }

    pub open spec fn spec_decodes(&self, s: Seq<u8>) -> bool {
        let payload = s.subrange(HEADER_LEN as int, s.len() as int);
        &&& self.header == neighbour_table_header_of(s)
        &&& nlas_decode(neighbour_table_nla_items(self.nlas), decode_records(payload)->Some_0)
    }

    /// Decodes a message: the header, then the attributes.
    pub fn parse(buf: &MessageBuffer) -> (r: Result<NeighbourTableMessage, DecodeError>)
        ensures
            r is Ok <==> NeighbourTableMessage::spec_parses(buf@),
            r is Ok ==> r->Ok_0.spec_decodes(buf@),
            buf@.len() < HEADER_LEN ==> r is Err && r->Err_0.kind == ErrorKind::Truncated,
            buf@.len() >= HEADER_LEN && r is Err ==> r->Err_0.context@.len() > 0
                && r->Err_0.context@.last() == "failed to parse neighbour table message NLAs",
            buf@.len() >= HEADER_LEN && !all_some(scan(buf@.subrange(HEADER_LEN as int,
                buf@.len() as int)))
                && nlas_formed_parse::<Nla>(buf@.subrange(HEADER_LEN as int,
                    buf@.len() as int)) ==> r is Err
                && r->Err_0.kind == ErrorKind::Truncated,
    {
        if buf.buffer.len() < HEADER_LEN {
            return Err(
                DecodeError::new(ErrorKind::Truncated)
                    .context("failed to parse neighbour table message header"),
            );
        }
        let header = match with_context(Header::parse(buf),
            "failed to parse neighbour table message header") {
            Ok(h) => h,
            Err(e) => {
                return Err(e);
            },
        };
        match with_context(parse_nlas::<Nla>(buf.payload()),
            "failed to parse neighbour table message NLAs") {
            Ok(nlas) => Ok(NeighbourTableMessage { header, nlas: NlaVec::<Nla>::from_vec(nlas) }),
            Err(e) => Err(e),
        }
    }

    /// Emitting a well-formed message into a buffer of exactly its length
    /// leaves its encoding there, and decoding that encoding succeeds and
    /// gives a message with the same header whose attributes encode exactly
    /// as those of the message that was emitted.
    pub proof fn lemma_round_trip(&self)
        requires
            self.spec_wf(),
            self.spec_fits(),
        ensures
            forall|b: Seq<u8>|
                b.len() == self.spec_bytes().len() ==> #[trigger] splice(b, 0, self.spec_bytes())
                    == self.spec_bytes(),
            NeighbourTableMessage::spec_parses(self.spec_bytes()),
            self.spec_decodes(self.spec_bytes()),
            forall|m: NeighbourTableMessage| #[trigger]
                m.spec_decodes(self.spec_bytes()) ==> m.header == self.header && nla_records(
                    neighbour_table_nla_items(m.nlas),
                ) == nla_records(neighbour_table_nla_items(self.nlas)),
    {
        assert forall|b: Seq<u8>| b.len() == self.spec_bytes().len() implies #[trigger] splice(
            b,
            0,
            self.spec_bytes(),
        ) == self.spec_bytes() by {
            crate::wire::lemma_splice_whole(b, self.spec_bytes());
        }
        let s = self.spec_bytes();
        self.header.lemma_round_trip(nlas_bytes(neighbour_table_nla_items(self.nlas)));
        let payload = s.subrange(HEADER_LEN as int, s.len() as int);
        assert(payload =~= nlas_bytes(neighbour_table_nla_items(self.nlas)));
        lemma_nlas_round_trip(neighbour_table_nla_items(self.nlas));
        assert forall|m: NeighbourTableMessage| #[trigger]
            m.spec_decodes(self.spec_bytes()) implies m.header == self.header && nla_records(
            neighbour_table_nla_items(m.nlas),
        ) == nla_records(neighbour_table_nla_items(self.nlas)) by {
            lemma_nlas_decode_unique(neighbour_table_nla_items(self.nlas),
                neighbour_table_nla_items(m.nlas),
                    nla_records(neighbour_table_nla_items(self.nlas)));
        }
    }
}

} // verus!
