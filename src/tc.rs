//! Traffic control messages: queueing disciplines, classes and filters.
use vstd::prelude::*;
use vstd::slice::slice_subrange;

use crate::error::{with_context, DecodeError, ErrorKind};
use crate::nla::{
    all_some, nlas_formed_parse,
    decode_records, emit_nlas, lemma_nlas_decode_unique, lemma_nlas_round_trip, nla_records,
    nlas, nlas_buffer_len, nlas_bytes, nlas_decode, nlas_fit, nlas_parse_bytes, nlas_wf,
    parse_nlas, scan, slice_to_vec, DefaultNla, Nla as NlaTrait, NlaBuffer, NlaParse,
};
use crate::parsers::{
    lemma_string_round_trip, parse_string, parse_u8, push_string, string_bytes, string_of,
    string_value_len,
};
use crate::wire::{
    get_i32, get_u32, get_u64, i32_at, i32_bytes, lemma_int_bytes, push_bytes, push_i32, push_u16,
    push_u32, push_u64, set_bytes, splice, u16_bytes, u32_at, u32_bytes, u64_at, u64_bytes,
};

verus! {

broadcast use vstd::slice::group_slice_axioms;

pub const STATS_LEN: usize = 36;

/// Queueing discipline statistics (`struct tc_stats`).
#[derive(Debug, Clone, Copy, PartialEq, Eq, Structural)]
pub struct Stats {
    /// Bytes sent.
    pub bytes: u64,
    /// Packets sent.
    pub packets: u32,
    /// Packets dropped for lack of resources.
    pub drops: u32,
    /// Times the flow went over its limits.
    pub overlimits: u32,
    /// Current flow rate in bytes per second.
    pub bps: u32,
    /// Current flow rate in packets per second.
    pub pps: u32,
    /// Queue length.
    pub qlen: u32,
    /// Backlog in bytes.
    pub backlog: u32,
}

/// The Stats that the first 36 bytes of `s` hold.
pub open spec fn stats_of(s: Seq<u8>) -> Stats {
    Stats {
        bytes: u64_at(s, 0),
        packets: u32_at(s, 8),
        drops: u32_at(s, 12),
        overlimits: u32_at(s, 16),
        bps: u32_at(s, 20),
        pps: u32_at(s, 24),
        qlen: u32_at(s, 28),
        backlog: u32_at(s, 32),
    }
}

impl Stats {
    /// Reading the bytes of the structure gives it back, whatever follows
    /// them.
    #[verifier::spinoff_prover]
    #[verifier::rlimit(50)]
    pub proof fn lemma_round_trip(&self, rest: Seq<u8>)
        ensures
            self.spec_bytes().len() == STATS_LEN,
            stats_of(self.spec_bytes() + rest) == *self,
    {
        lemma_int_bytes();
        let s = self.spec_bytes() + rest;
        assert(s.subrange(0, 8) =~= u64_bytes(self.bytes));
        assert(s.subrange(8, 12) =~= u32_bytes(self.packets));
        assert(s.subrange(12, 16) =~= u32_bytes(self.drops));
        assert(s.subrange(16, 20) =~= u32_bytes(self.overlimits));
        assert(s.subrange(20, 24) =~= u32_bytes(self.bps));
        assert(s.subrange(24, 28) =~= u32_bytes(self.pps));
        assert(s.subrange(28, 32) =~= u32_bytes(self.qlen));
        assert(s.subrange(32, 36) =~= u32_bytes(self.backlog));
    }

    /// The 36 bytes of the structure, fields in order at their offsets.
    pub open spec fn spec_bytes(&self) -> Seq<u8> {
        (u64_bytes(self.bytes) + u32_bytes(self.packets) + u32_bytes(self.drops)
            + u32_bytes(self.overlimits) + u32_bytes(self.bps) + u32_bytes(self.pps)
                + u32_bytes(self.qlen) + u32_bytes(self.backlog))
    }

    pub fn buffer_len(&self) -> (r: usize)
        ensures
            r == STATS_LEN,
    {
        STATS_LEN
    }

    /// Reads the structure from the front of `payload`, which must hold at
    /// least 36 bytes; bytes after them are not read.
    pub fn parse(payload: &[u8]) -> (r: Result<Stats, DecodeError>)
        ensures
            r is Ok <==> payload@.len() >= STATS_LEN,
            r is Ok ==> r->Ok_0 == stats_of(payload@),
            r is Err ==> r->Err_0.kind == ErrorKind::Truncated,
    {
        if payload.len() < STATS_LEN {
            return Err(DecodeError::new(ErrorKind::Truncated)
                .context("buffer too short for Stats"));
        }
        Ok(
            Stats {
                bytes: get_u64(payload, 0),
                packets: get_u32(payload, 8),
                drops: get_u32(payload, 12),
                overlimits: get_u32(payload, 16),
                bps: get_u32(payload, 20),
                pps: get_u32(payload, 24),
                qlen: get_u32(payload, 28),
                backlog: get_u32(payload, 32),
            },
        )
    }

    /// Appends the 36 bytes of the structure.
    #[verifier::spinoff_prover]
    #[verifier::rlimit(50)]
    pub fn emit_into(&self, out: &mut Vec<u8>)
        ensures
            final(out)@ == old(out)@ + self.spec_bytes(),
    {
        let ghost start = out@;
        let ghost g0 = out@;
        push_u64(out, self.bytes);
        push_u32(out, self.packets);
        push_u32(out, self.drops);
        push_u32(out, self.overlimits);
        push_u32(out, self.bps);
        push_u32(out, self.pps);
        push_u32(out, self.qlen);
        push_u32(out, self.backlog);
        assert(out@ =~= g0 + (u64_bytes(self.bytes) + u32_bytes(self.packets)
            + u32_bytes(self.drops) + u32_bytes(self.overlimits) + u32_bytes(self.bps)
                + u32_bytes(self.pps) + u32_bytes(self.qlen) + u32_bytes(self.backlog)));
        assert(out@ =~= start + self.spec_bytes());
    }

    /// Writes the structure at the front of `buffer`.
    pub fn emit(&self, buffer: &mut [u8])
        requires
            old(buffer)@.len() >= STATS_LEN,
        ensures
            final(buffer)@ == splice(old(buffer)@, 0, self.spec_bytes()),
    {
        let mut bytes: Vec<u8> = Vec::new();
        self.emit_into(&mut bytes);
        proof {
            lemma_int_bytes();
        }
        set_bytes(buffer, 0, bytes.as_slice());
    }
}

pub const STATS_BASIC_LEN: usize = 12;

/// Basic statistics: bytes and packets seen.
#[derive(Debug, Clone, Copy, PartialEq, Eq, Structural)]
pub struct StatsBasic {
    pub bytes: u64,
    pub packets: u32,
}

/// The StatsBasic that the first 12 bytes of `s` hold.
pub open spec fn stats_basic_of(s: Seq<u8>) -> StatsBasic {
    StatsBasic {
        bytes: u64_at(s, 0),
        packets: u32_at(s, 8),
    }
}

impl StatsBasic {
    /// Reading the bytes of the structure gives it back, whatever follows
    /// them.
    #[verifier::spinoff_prover]
    #[verifier::rlimit(50)]
    pub proof fn lemma_round_trip(&self, rest: Seq<u8>)
        ensures
            self.spec_bytes().len() == STATS_BASIC_LEN,
            stats_basic_of(self.spec_bytes() + rest) == *self,
    {
        lemma_int_bytes();
        let s = self.spec_bytes() + rest;
        assert(s.subrange(0, 8) =~= u64_bytes(self.bytes));
        assert(s.subrange(8, 12) =~= u32_bytes(self.packets));
    }

    /// The 12 bytes of the structure, fields in order at their offsets.
    pub open spec fn spec_bytes(&self) -> Seq<u8> {
        (u64_bytes(self.bytes) + u32_bytes(self.packets))
    }

    pub fn buffer_len(&self) -> (r: usize)
        ensures
            r == STATS_BASIC_LEN,
    {
        STATS_BASIC_LEN
    }

    /// Reads the structure from the front of `payload`, which must hold at
    /// least 12 bytes; bytes after them are not read.
    pub fn parse(payload: &[u8]) -> (r: Result<StatsBasic, DecodeError>)
        ensures
            r is Ok <==> payload@.len() >= STATS_BASIC_LEN,
            r is Ok ==> r->Ok_0 == stats_basic_of(payload@),
            r is Err ==> r->Err_0.kind == ErrorKind::Truncated,
    {
        if payload.len() < STATS_BASIC_LEN {
            return Err(DecodeError::new(ErrorKind::Truncated)
                .context("buffer too short for StatsBasic"));
        }
        Ok(
            StatsBasic {
                bytes: get_u64(payload, 0),
                packets: get_u32(payload, 8),
            },
        )
    }

    /// Appends the 12 bytes of the structure.
    #[verifier::spinoff_prover]
    #[verifier::rlimit(50)]
    pub fn emit_into(&self, out: &mut Vec<u8>)
        ensures
            final(out)@ == old(out)@ + self.spec_bytes(),
    {
        let ghost start = out@;
        let ghost g0 = out@;
        push_u64(out, self.bytes);
        push_u32(out, self.packets);
        assert(out@ =~= g0 + (u64_bytes(self.bytes) + u32_bytes(self.packets)));
        assert(out@ =~= start + self.spec_bytes());
    }

    /// Writes the structure at the front of `buffer`.
    pub fn emit(&self, buffer: &mut [u8])
        requires
            old(buffer)@.len() >= STATS_BASIC_LEN,
        ensures
            final(buffer)@ == splice(old(buffer)@, 0, self.spec_bytes()),
    {
        let mut bytes: Vec<u8> = Vec::new();
        self.emit_into(&mut bytes);
        proof {
            lemma_int_bytes();
        }
        set_bytes(buffer, 0, bytes.as_slice());
    }
}

pub const STATS_QUEUE_LEN: usize = 20;

/// Queue statistics.
#[derive(Debug, Clone, Copy, PartialEq, Eq, Structural)]
pub struct StatsQueue {
    pub qlen: u32,
    pub backlog: u32,
    pub drops: u32,
    pub requeues: u32,
    pub overlimits: u32,
}

/// The StatsQueue that the first 20 bytes of `s` hold.
pub open spec fn stats_queue_of(s: Seq<u8>) -> StatsQueue {
    StatsQueue {
        qlen: u32_at(s, 0),
        backlog: u32_at(s, 4),
        drops: u32_at(s, 8),
        requeues: u32_at(s, 12),
        overlimits: u32_at(s, 16),
    }
}

impl StatsQueue {
    /// Reading the bytes of the structure gives it back, whatever follows
    /// them.
    #[verifier::spinoff_prover]
    #[verifier::rlimit(50)]
    pub proof fn lemma_round_trip(&self, rest: Seq<u8>)
        ensures
            self.spec_bytes().len() == STATS_QUEUE_LEN,
            stats_queue_of(self.spec_bytes() + rest) == *self,
    {
        lemma_int_bytes();
        let s = self.spec_bytes() + rest;
        assert(s.subrange(0, 4) =~= u32_bytes(self.qlen));
        assert(s.subrange(4, 8) =~= u32_bytes(self.backlog));
        assert(s.subrange(8, 12) =~= u32_bytes(self.drops));
        assert(s.subrange(12, 16) =~= u32_bytes(self.requeues));
        assert(s.subrange(16, 20) =~= u32_bytes(self.overlimits));
    }

    /// The 20 bytes of the structure, fields in order at their offsets.
    pub open spec fn spec_bytes(&self) -> Seq<u8> {
        (u32_bytes(self.qlen) + u32_bytes(self.backlog) + u32_bytes(self.drops)
            + u32_bytes(self.requeues) + u32_bytes(self.overlimits))
    }

    pub fn buffer_len(&self) -> (r: usize)
        ensures
            r == STATS_QUEUE_LEN,
    {
        STATS_QUEUE_LEN
    }

    /// Reads the structure from the front of `payload`, which must hold at
    /// least 20 bytes; bytes after them are not read.
    pub fn parse(payload: &[u8]) -> (r: Result<StatsQueue, DecodeError>)
        ensures
            r is Ok <==> payload@.len() >= STATS_QUEUE_LEN,
            r is Ok ==> r->Ok_0 == stats_queue_of(payload@),
            r is Err ==> r->Err_0.kind == ErrorKind::Truncated,
    {
        if payload.len() < STATS_QUEUE_LEN {
            return Err(DecodeError::new(ErrorKind::Truncated)
                .context("buffer too short for StatsQueue"));
        }
        Ok(
            StatsQueue {
                qlen: get_u32(payload, 0),
                backlog: get_u32(payload, 4),
                drops: get_u32(payload, 8),
                requeues: get_u32(payload, 12),
                overlimits: get_u32(payload, 16),
            },
        )
    }

    /// Appends the 20 bytes of the structure.
    #[verifier::spinoff_prover]
    #[verifier::rlimit(50)]
    pub fn emit_into(&self, out: &mut Vec<u8>)
        ensures
            final(out)@ == old(out)@ + self.spec_bytes(),
    {
        let ghost start = out@;
        let ghost g0 = out@;
        push_u32(out, self.qlen);
        push_u32(out, self.backlog);
        push_u32(out, self.drops);
        push_u32(out, self.requeues);
        push_u32(out, self.overlimits);
        assert(out@ =~= g0 + (u32_bytes(self.qlen) + u32_bytes(self.backlog)
            + u32_bytes(self.drops) + u32_bytes(self.requeues) + u32_bytes(self.overlimits)));
        assert(out@ =~= start + self.spec_bytes());
    }

    /// Writes the structure at the front of `buffer`.
    pub fn emit(&self, buffer: &mut [u8])
        requires
            old(buffer)@.len() >= STATS_QUEUE_LEN,
        ensures
            final(buffer)@ == splice(old(buffer)@, 0, self.spec_bytes()),
    {
        let mut bytes: Vec<u8> = Vec::new();
        self.emit_into(&mut bytes);
        proof {
            lemma_int_bytes();
        }
        set_bytes(buffer, 0, bytes.as_slice());
    }
}

pub const TCA_UNSPEC: u16 = 0;
pub const TCA_KIND: u16 = 1;
pub const TCA_OPTIONS: u16 = 2;
pub const TCA_STATS: u16 = 3;
pub const TCA_XSTATS: u16 = 4;
pub const TCA_RATE: u16 = 5;
pub const TCA_FCNT: u16 = 6;
pub const TCA_STATS2: u16 = 7;
pub const TCA_STAB: u16 = 8;
pub const TCA_PAD: u16 = 9;
pub const TCA_DUMP_INVISIBLE: u16 = 10;
pub const TCA_CHAIN: u16 = 11;
pub const TCA_HW_OFFLOAD: u16 = 12;
pub const TCA_INGRESS_BLOCK: u16 = 13;
pub const TCA_EGRESS_BLOCK: u16 = 14;

pub const TCA_STATS_UNSPEC: u16 = 0;
pub const TCA_STATS_BASIC: u16 = 1;
pub const TCA_STATS_RATE_EST: u16 = 2;
pub const TCA_STATS_QUEUE: u16 = 3;
pub const TCA_STATS_APP: u16 = 4;
pub const TCA_STATS_RATE_EST64: u16 = 5;
pub const TCA_STATS_PAD: u16 = 6;
pub const TCA_STATS_BASIC_HW: u16 = 7;

/// Statistics attributes nested in a `TCA_STATS2` attribute.
#[derive(Debug, Clone, PartialEq, Eq)]
pub enum Stats2 {
    StatsApp(Vec<u8>),
    StatsBasic(StatsBasic),
    StatsQueue(StatsQueue),
    Other(DefaultNla),
}

pub open spec fn stats2_known_kind(kind: u16) -> bool {
    kind == TCA_STATS_APP || kind == TCA_STATS_BASIC || kind == TCA_STATS_QUEUE
}

impl NlaTrait for Stats2 {
    open spec fn spec_kind(&self) -> u16 {
        match self {
            Stats2::StatsApp(_) => TCA_STATS_APP,
            Stats2::StatsBasic(_) => TCA_STATS_BASIC,
            Stats2::StatsQueue(_) => TCA_STATS_QUEUE,
            Stats2::Other(d) => d.kind,
        }
    }

    open spec fn spec_value(&self) -> Seq<u8> {
        match self {
            Stats2::StatsApp(b) => b@,
            Stats2::StatsBasic(v) => v.spec_bytes(),
            Stats2::StatsQueue(v) => v.spec_bytes(),
            Stats2::Other(d) => d.value@,
        }
    }

    open spec fn spec_fits(&self) -> bool {
        true
    }

    fn kind(&self) -> (r: u16) {
        match self {
            Stats2::StatsApp(_) => TCA_STATS_APP,
            Stats2::StatsBasic(_) => TCA_STATS_BASIC,
            Stats2::StatsQueue(_) => TCA_STATS_QUEUE,
            Stats2::Other(d) => d.kind,
        }
    }

    fn value_len(&self) -> (r: usize) {
        proof {
            match self {
                Stats2::StatsBasic(v) => v.lemma_round_trip(seq![]),
                Stats2::StatsQueue(v) => v.lemma_round_trip(seq![]),
                _ => {},
            }
        }
        match self {
            Stats2::StatsApp(b) => b.len(),
            Stats2::StatsBasic(_) => STATS_BASIC_LEN,
            Stats2::StatsQueue(_) => STATS_QUEUE_LEN,
            Stats2::Other(d) => d.value.len(),
        }
    }

    fn emit_value(&self, out: &mut Vec<u8>) {
        match self {
            Stats2::StatsApp(b) => push_bytes(out, b.as_slice()),
            Stats2::StatsBasic(v) => v.emit_into(out),
            Stats2::StatsQueue(v) => v.emit_into(out),
            Stats2::Other(d) => push_bytes(out, d.value.as_slice()),
        }
    }
}

/// The context message of a failure to decode a record of this kind.
pub open spec fn stats2_context(kind: u16) -> &'static str {
    if kind == TCA_STATS_BASIC {
        "invalid TCA_STATS_BASIC value"
    } else if kind == TCA_STATS_QUEUE {
        "invalid TCA_STATS_QUEUE value"
    } else {
        "invalid NLA"
    }
}

impl NlaParse for Stats2 {
    open spec fn spec_parses(kind: u16, value: Seq<u8>) -> bool {
        if kind == TCA_STATS_BASIC {
            value.len() >= STATS_BASIC_LEN
        } else if kind == TCA_STATS_QUEUE {
            value.len() >= STATS_QUEUE_LEN
        } else {
            true
        }
    }

    open spec fn spec_decodes(&self, kind: u16, value: Seq<u8>) -> bool {
        match self {
            Stats2::StatsApp(b) => kind == TCA_STATS_APP && b@ == value,
            Stats2::StatsBasic(v) => kind == TCA_STATS_BASIC && value.len() >= STATS_BASIC_LEN
                && *v == stats_basic_of(value),
            Stats2::StatsQueue(v) => kind == TCA_STATS_QUEUE && value.len() >= STATS_QUEUE_LEN
                && *v == stats_queue_of(value),
            Stats2::Other(d) => !stats2_known_kind(kind) && d.kind == kind && d.value@ == value,
        }
    }

    open spec fn spec_wf(&self) -> bool {
        match self {
            Stats2::Other(d) => !stats2_known_kind(d.kind),
            _ => true,
        }
    }

    open spec fn spec_context(kind: u16) -> &'static str {
        stats2_context(kind)
    }

    fn parse(buf: &NlaBuffer) -> (r: Result<Self, DecodeError>) {
        let payload = buf.value();
        let kind = buf.kind();
        if kind == TCA_STATS_APP {
            Ok(Stats2::StatsApp(slice_to_vec(payload)))
        } else if kind == TCA_STATS_BASIC {
            match with_context(StatsBasic::parse(payload), "invalid TCA_STATS_BASIC value") {
                Ok(v) => Ok(Stats2::StatsBasic(v)),
                Err(e) => Err(e),
            }
        } else if kind == TCA_STATS_QUEUE {
            match with_context(StatsQueue::parse(payload), "invalid TCA_STATS_QUEUE value") {
                Ok(v) => Ok(Stats2::StatsQueue(v)),
                Err(e) => Err(e),
            }
        } else {
            Ok(Stats2::Other(DefaultNla::new(kind, slice_to_vec(payload))))
        }
    }

    proof fn lemma_round_trip(&self) {
        match self {
            Stats2::StatsBasic(v) => {
                v.lemma_round_trip(seq![]);
                assert(v.spec_bytes() + seq![] =~= v.spec_bytes());
            },
            Stats2::StatsQueue(v) => {
                v.lemma_round_trip(seq![]);
                assert(v.spec_bytes() + seq![] =~= v.spec_bytes());
            },
            _ => {},
        }
    }

    proof fn lemma_decodes_unique(&self, other: &Self, kind: u16, value: Seq<u8>) {
    }
}

/// Traffic control attributes.
#[derive(Debug, Clone, PartialEq, Eq)]
pub enum Nla {
    /// Unspecified.
    Unspec(Vec<u8>),
    /// Name of the queueing discipline.
    Kind(String),
    /// Options specific to the queueing discipline.
    Options(Vec<u8>),
    /// Queueing discipline statistics.
    Stats(Stats),
    /// Statistics specific to a module.
    XStats(Vec<u8>),
    /// Rate limit.
    Rate(Vec<u8>),
    Fcnt(Vec<u8>),
    Stats2(Vec<Stats2>),
    Stab(Vec<u8>),
    HwOffload(u8),
    Other(DefaultNla),
}

pub open spec fn tc_known_kind(kind: u16) -> bool {
    kind <= TCA_STAB || kind == TCA_HW_OFFLOAD
}

impl NlaTrait for Nla {
    open spec fn spec_kind(&self) -> u16 {
        match self {
            Nla::Unspec(_) => TCA_UNSPEC,
            Nla::Kind(_) => TCA_KIND,
            Nla::Options(_) => TCA_OPTIONS,
            Nla::Stats(_) => TCA_STATS,
            Nla::XStats(_) => TCA_XSTATS,
            Nla::Rate(_) => TCA_RATE,
            Nla::Fcnt(_) => TCA_FCNT,
            Nla::Stats2(_) => TCA_STATS2,
            Nla::Stab(_) => TCA_STAB,
            Nla::HwOffload(_) => TCA_HW_OFFLOAD,
            Nla::Other(d) => d.kind,
        }
    }

    open spec fn spec_value(&self) -> Seq<u8> {
        match self {
            Nla::Unspec(b) => b@,
            Nla::Kind(s) => string_bytes(s@),
            Nla::Options(b) => b@,
            Nla::Stats(v) => v.spec_bytes(),
            Nla::XStats(b) => b@,
            Nla::Rate(b) => b@,
            Nla::Fcnt(b) => b@,
            Nla::Stats2(v) => nlas_bytes(v@),
            Nla::Stab(b) => b@,
            Nla::HwOffload(v) => seq![*v],
            Nla::Other(d) => d.value@,
        }
    }

    open spec fn spec_fits(&self) -> bool {
        match self {
            Nla::Stats2(v) => nlas_fit(v@),
            _ => true,
        }
    }

    fn kind(&self) -> (r: u16) {
        match self {
            Nla::Unspec(_) => TCA_UNSPEC,
            Nla::Kind(_) => TCA_KIND,
            Nla::Options(_) => TCA_OPTIONS,
            Nla::Stats(_) => TCA_STATS,
            Nla::XStats(_) => TCA_XSTATS,
            Nla::Rate(_) => TCA_RATE,
            Nla::Fcnt(_) => TCA_FCNT,
            Nla::Stats2(_) => TCA_STATS2,
            Nla::Stab(_) => TCA_STAB,
            Nla::HwOffload(_) => TCA_HW_OFFLOAD,
            Nla::Other(d) => d.kind,
        }
    }

    fn value_len(&self) -> (r: usize) {
        proof {
            match self {
                Nla::Stats(v) => v.lemma_round_trip(seq![]),
                _ => {},
            }
        }
        match self {
            Nla::Unspec(b) => b.len(),
            Nla::Kind(s) => string_value_len(s),
            Nla::Options(b) => b.len(),
            Nla::Stats(_) => STATS_LEN,
            Nla::XStats(b) => b.len(),
            Nla::Rate(b) => b.len(),
            Nla::Fcnt(b) => b.len(),
            Nla::Stats2(v) => nlas_buffer_len(v.as_slice()),
            Nla::Stab(b) => b.len(),
            Nla::HwOffload(_) => 1,
            Nla::Other(d) => d.value.len(),
        }
    }

    fn emit_value(&self, out: &mut Vec<u8>) {
        match self {
            Nla::Unspec(b) => push_bytes(out, b.as_slice()),
            Nla::Kind(s) => push_string(out, s),
            Nla::Options(b) => push_bytes(out, b.as_slice()),
            Nla::Stats(v) => v.emit_into(out),
            Nla::XStats(b) => push_bytes(out, b.as_slice()),
            Nla::Rate(b) => push_bytes(out, b.as_slice()),
            Nla::Fcnt(b) => push_bytes(out, b.as_slice()),
            Nla::Stats2(v) => emit_nlas(v.as_slice(), out),
            Nla::Stab(b) => push_bytes(out, b.as_slice()),
            Nla::HwOffload(v) => out.push(*v),
            Nla::Other(d) => push_bytes(out, d.value.as_slice()),
        }
    }
}

/// The context message of a failure to decode a record of this kind.
pub open spec fn tc_context(kind: u16) -> &'static str {
    if kind == TCA_KIND {
        "invalid TCA_KIND value"
    } else if kind == TCA_STATS {
        "invalid TCA_STATS value"
    } else if kind == TCA_STATS2 {
        "invalid TCA_STATS2 value"
    } else if kind == TCA_HW_OFFLOAD {
        "invalid TCA_HW_OFFLOAD value"
    } else {
        "invalid NLA"
    }
}

impl NlaParse for Nla {
    open spec fn spec_parses(kind: u16, value: Seq<u8>) -> bool {
        if kind == TCA_KIND {
            string_of(value) is Some
        } else if kind == TCA_STATS {
            value.len() >= STATS_LEN
        } else if kind == TCA_STATS2 {
            nlas_parse_bytes::<Stats2>(value)
        } else if kind == TCA_HW_OFFLOAD {
            value.len() == 1
        } else {
            true
        }
    }

    open spec fn spec_decodes(&self, kind: u16, value: Seq<u8>) -> bool {
        match self {
            Nla::Unspec(b) => kind == TCA_UNSPEC && b@ == value,
            Nla::Kind(s) => kind == TCA_KIND && string_of(value) == Some(s@),
            Nla::Options(b) => kind == TCA_OPTIONS && b@ == value,
            Nla::Stats(v) => kind == TCA_STATS && value.len() >= STATS_LEN && *v == stats_of(value),
            Nla::XStats(b) => kind == TCA_XSTATS && b@ == value,
            Nla::Rate(b) => kind == TCA_RATE && b@ == value,
            Nla::Fcnt(b) => kind == TCA_FCNT && b@ == value,
            Nla::Stats2(v) => kind == TCA_STATS2 && nlas_parse_bytes::<Stats2>(value)
                && nlas_decode(
                v@,
                decode_records(value)->Some_0,
            ),
            Nla::Stab(b) => kind == TCA_STAB && b@ == value,
            Nla::HwOffload(v) => kind == TCA_HW_OFFLOAD && value.len() == 1 && *v == value[0],
            Nla::Other(d) => !tc_known_kind(kind) && d.kind == kind && d.value@ == value,
        }
    }

    open spec fn spec_wf(&self) -> bool {
        match self {
            Nla::Stats2(v) => nlas_wf(v@),
            Nla::Other(d) => !tc_known_kind(d.kind),
            _ => true,
        }
    }

    open spec fn spec_context(kind: u16) -> &'static str {
        tc_context(kind)
    }

    fn parse(buf: &NlaBuffer) -> (r: Result<Self, DecodeError>) {
        let payload = buf.value();
        let kind = buf.kind();
        if kind == TCA_UNSPEC {
            Ok(Nla::Unspec(slice_to_vec(payload)))
        } else if kind == TCA_KIND {
            match with_context(parse_string(payload), "invalid TCA_KIND value") {
                Ok(s) => Ok(Nla::Kind(s)),
                Err(e) => Err(e),
            }
        } else if kind == TCA_OPTIONS {
            Ok(Nla::Options(slice_to_vec(payload)))
        } else if kind == TCA_STATS {
            match with_context(Stats::parse(payload), "invalid TCA_STATS value") {
                Ok(v) => Ok(Nla::Stats(v)),
                Err(e) => Err(e),
            }
        } else if kind == TCA_XSTATS {
            Ok(Nla::XStats(slice_to_vec(payload)))
        } else if kind == TCA_RATE {
            Ok(Nla::Rate(slice_to_vec(payload)))
        } else if kind == TCA_FCNT {
            Ok(Nla::Fcnt(slice_to_vec(payload)))
        } else if kind == TCA_STATS2 {
            match with_context(parse_nlas::<Stats2>(payload), "invalid TCA_STATS2 value") {
                Ok(v) => Ok(Nla::Stats2(v)),
                Err(e) => Err(e),
            }
        } else if kind == TCA_STAB {
            Ok(Nla::Stab(slice_to_vec(payload)))
        } else if kind == TCA_HW_OFFLOAD {
            match with_context(parse_u8(payload), "invalid TCA_HW_OFFLOAD value") {
                Ok(v) => Ok(Nla::HwOffload(v)),
                Err(e) => Err(e),
            }
        } else {
            Ok(Nla::Other(DefaultNla::new(kind, slice_to_vec(payload))))
        }
    }

    proof fn lemma_round_trip(&self) {
        match self {
            Nla::Kind(s) => lemma_string_round_trip(s@),
            Nla::Stats(v) => {
                v.lemma_round_trip(seq![]);
                assert(v.spec_bytes() + seq![] =~= v.spec_bytes());
            },
            Nla::Stats2(v) => lemma_nlas_round_trip(v@),
            _ => {},
        }
    }

    proof fn lemma_decodes_unique(&self, other: &Self, kind: u16, value: Seq<u8>) {
        match (self, other) {
            (Nla::Stats2(a), Nla::Stats2(b)) => {
                lemma_nlas_decode_unique(a@, b@, decode_records(value)->Some_0);
            },
            _ => {},
        }
    }
}

pub const HEADER_LEN: usize = 20;

/// A read-only view of a traffic control message.
///
/// Layout: family (byte 0), padding (1..4), interface index (4..8), handle
/// (8..12), parent (12..16), info (16..20), then attributes.
#[derive(Debug, Clone, Copy)]
pub struct MessageBuffer<'a> {
    buffer: &'a [u8],
}

impl<'a> View for MessageBuffer<'a> {
    type V = Seq<u8>;

    closed spec fn view(&self) -> Seq<u8> {
        self.buffer@
    }
}

impl<'a> MessageBuffer<'a> {
    pub fn new(buffer: &'a [u8]) -> (r: MessageBuffer<'a>)
        ensures
            r@ == buffer@,
    {
        MessageBuffer { buffer }
    }

    pub fn new_checked(buffer: &'a [u8]) -> (r: Result<MessageBuffer<'a>, DecodeError>)
        ensures
            r is Ok <==> buffer@.len() >= HEADER_LEN,
            r is Ok ==> r->Ok_0@ == buffer@,
            r is Err ==> r->Err_0.kind == ErrorKind::Truncated,
    {
        if buffer.len() < HEADER_LEN {
            Err(DecodeError::new(ErrorKind::Truncated).context("tc message buffer too short"))
        } else {
            Ok(MessageBuffer { buffer })
        }
    }

    pub fn family(&self) -> (r: u8)
        requires
            self@.len() >= HEADER_LEN,
        ensures
            r == self@[0],
    {
        self.buffer[0]
    }

    pub fn index(&self) -> (r: i32)
        requires
            self@.len() >= HEADER_LEN,
        ensures
            r == i32_at(self@, 4),
    {
        get_i32(self.buffer, 4)
    }

    pub fn handle(&self) -> (r: u32)
        requires
            self@.len() >= HEADER_LEN,
        ensures
            r == u32_at(self@, 8),
    {
        get_u32(self.buffer, 8)
    }

    pub fn parent(&self) -> (r: u32)
        requires
            self@.len() >= HEADER_LEN,
        ensures
            r == u32_at(self@, 12),
    {
        get_u32(self.buffer, 12)
    }

    pub fn info(&self) -> (r: u32)
        requires
            self@.len() >= HEADER_LEN,
        ensures
            r == u32_at(self@, 16),
    {
        get_u32(self.buffer, 16)
    }

    pub fn payload(&self) -> (r: &'a [u8])
        requires
            self@.len() >= HEADER_LEN,
        ensures
            r@ == self@.subrange(HEADER_LEN as int, self@.len() as int),
    {
        slice_subrange(self.buffer, HEADER_LEN, self.buffer.len())
    }

    /// The attribute records after the header.
    pub fn nlas(&self) -> (r: Vec<Result<NlaBuffer<'a>, DecodeError>>)
        requires
            self@.len() >= HEADER_LEN,
        ensures
            crate::nla::items_view(r@) == scan(self@.subrange(HEADER_LEN as int,
                self@.len() as int)),
    {
        nlas(self.payload())
    }
}

/// The header of a traffic control message.
#[derive(Debug, Clone, Copy, PartialEq, Eq, Structural)]
pub struct Header {
    pub family: u8,
    /// Interface index.
    pub index: i32,
    /// Queueing discipline handle.
    pub handle: u32,
    /// Parent queueing discipline.
    pub parent: u32,
    pub info: u32,
}

/// The header that the first twenty bytes of `s` hold.
pub open spec fn header_of(s: Seq<u8>) -> Header {
    Header {
        family: s[0],
        index: i32_at(s, 4),
        handle: u32_at(s, 8),
        parent: u32_at(s, 12),
        info: u32_at(s, 16),
    }
}

impl Header {
    /// A header whose fields are all zero.
    pub fn new() -> (r: Header)
        ensures
            r == (Header { family: 0, index: 0, handle: 0, parent: 0, info: 0 }),
    {
        Header { family: 0, index: 0, handle: 0, parent: 0, info: 0 }
    }

    /// The twenty header bytes; the padding is zero.
    pub open spec fn spec_bytes(&self) -> Seq<u8> {
        seq![self.family, 0u8] + u16_bytes(0) + i32_bytes(self.index) + u32_bytes(self.handle)
            + u32_bytes(self.parent) + u32_bytes(self.info)
    }

    pub fn buffer_len(&self) -> (r: usize)
        ensures
            r == HEADER_LEN,
    {
        HEADER_LEN
    }

    pub fn emit_into(&self, out: &mut Vec<u8>)
        ensures
            final(out)@ == old(out)@ + self.spec_bytes(),
    {
        out.push(self.family);
        out.push(0u8);
        push_u16(out, 0);
        push_i32(out, self.index);
        push_u32(out, self.handle);
        push_u32(out, self.parent);
        push_u32(out, self.info);
        assert(final(out)@ =~= old(out)@ + self.spec_bytes());
    }

    pub fn emit(&self, buffer: &mut [u8])
        requires
            old(buffer)@.len() >= HEADER_LEN,
        ensures
            final(buffer)@ == splice(old(buffer)@, 0, self.spec_bytes()),
    {
        let mut bytes: Vec<u8> = Vec::new();
        self.emit_into(&mut bytes);
        proof {
            lemma_int_bytes();
        }
        set_bytes(buffer, 0, bytes.as_slice());
    }

    pub fn parse(buf: &MessageBuffer) -> (r: Result<Header, DecodeError>)
        requires
            buf@.len() >= HEADER_LEN,
        ensures
            r is Ok,
            r->Ok_0 == header_of(buf@),
    {
        Ok(
            Header {
                family: buf.family(),
                index: buf.index(),
                handle: buf.handle(),
                parent: buf.parent(),
                info: buf.info(),
            },
        )
    }

    /// Reading the bytes of a header gives it back, whatever follows them.
    pub proof fn lemma_round_trip(&self, rest: Seq<u8>)
        ensures
            self.spec_bytes().len() == HEADER_LEN,
            header_of(self.spec_bytes() + rest) == *self,
    {
        lemma_int_bytes();
        let s = self.spec_bytes() + rest;
        assert(s.subrange(4, 8) =~= i32_bytes(self.index));
        assert(s.subrange(8, 12) =~= u32_bytes(self.handle));
        assert(s.subrange(12, 16) =~= u32_bytes(self.parent));
        assert(s.subrange(16, 20) =~= u32_bytes(self.info));
    }
}

impl Default for Header {
    fn default() -> (r: Header)
        ensures
            r == (Header { family: 0, index: 0, handle: 0, parent: 0, info: 0 }),
    {
        Header::new()
    }
}

/// A traffic control message: the header, then its attributes.
#[derive(Debug, Clone, PartialEq, Eq)]
pub struct Message {
    pub header: Header,
    pub nlas: Vec<Nla>,
}

impl Message {
    /// A message with a zero header and no attributes.
    pub fn new() -> (r: Message)
        ensures
            r.header == (Header { family: 0, index: 0, handle: 0, parent: 0, info: 0 }),
            r.nlas@.len() == 0,
    {
        Message { header: Header::new(), nlas: Vec::new() }
    }

    pub fn into_parts(self) -> (r: (Header, Vec<Nla>))
        ensures
            r.0 == self.header,
            r.1 == self.nlas,
    {
        (self.header, self.nlas)
    }

    pub fn from_parts(header: Header, nlas: Vec<Nla>) -> (r: Message)
        ensures
            r.header == header,
            r.nlas == nlas,
    {
        Message { header, nlas }
    }

    pub open spec fn spec_bytes(&self) -> Seq<u8> {
        self.header.spec_bytes() + nlas_bytes(self.nlas@)
    }

    pub open spec fn spec_fits(&self) -> bool {
        nlas_fit(self.nlas@) && self.spec_bytes().len() <= usize::MAX
    }

    pub open spec fn spec_wf(&self) -> bool {
        nlas_wf(self.nlas@)
    }

    pub fn buffer_len(&self) -> (r: usize)
        requires
            self.spec_fits(),
        ensures
            r == self.spec_bytes().len(),
    {
        proof {
            lemma_int_bytes();
        }
        self.header.buffer_len() + nlas_buffer_len(self.nlas.as_slice())
    }

    pub fn to_bytes(&self) -> (r: Vec<u8>)
        requires
            self.spec_fits(),
        ensures
            r@ == self.spec_bytes(),
    {
        let mut out: Vec<u8> = Vec::new();
        self.header.emit_into(&mut out);
        emit_nlas(self.nlas.as_slice(), &mut out);
        assert(out@ =~= self.spec_bytes());
        out
    }

    /// Writes the header, then the attributes right after it.
    pub fn emit(&self, buffer: &mut [u8])
        requires
            self.spec_fits(),
            old(buffer)@.len() >= self.spec_bytes().len(),
        ensures
            final(buffer)@ == splice(old(buffer)@, 0, self.spec_bytes()),
    {
        let bytes = self.to_bytes();
        set_bytes(buffer, 0, bytes.as_slice());
    }

    pub open spec fn spec_parses(s: Seq<u8>) -> bool {
        s.len() >= HEADER_LEN && nlas_parse_bytes::<Nla>(s.subrange(HEADER_LEN as int,
            s.len() as int))
    }

    pub open spec fn spec_decodes(&self, s: Seq<u8>) -> bool {
        let payload = s.subrange(HEADER_LEN as int, s.len() as int);
        &&& self.header == header_of(s)
        &&& nlas_decode(self.nlas@, decode_records(payload)->Some_0)
    }

    /// Decodes a message: the header, then the attributes.
    pub fn parse(buf: &MessageBuffer) -> (r: Result<Message, DecodeError>)
        ensures
            r is Ok <==> Message::spec_parses(buf@),
            r is Ok ==> r->Ok_0.spec_decodes(buf@),
            buf@.len() < HEADER_LEN ==> r is Err && r->Err_0.kind == ErrorKind::Truncated,
            buf@.len() >= HEADER_LEN && r is Err ==> r->Err_0.context@.len() > 0
                && r->Err_0.context@.last() == "failed to parse tc message NLAs",
            buf@.len() >= HEADER_LEN && !all_some(scan(buf@.subrange(HEADER_LEN as int,
                buf@.len() as int)))
                && nlas_formed_parse::<Nla>(buf@.subrange(HEADER_LEN as int,
                    buf@.len() as int)) ==> r is Err
                && r->Err_0.kind == ErrorKind::Truncated,
    {
        if buf.buffer.len() < HEADER_LEN {
            return Err(
                DecodeError::new(ErrorKind::Truncated).context("failed to parse tc message header"),
            );
        }
        let header = match with_context(Header::parse(buf), "failed to parse tc message header") {
            Ok(h) => h,
            Err(e) => {
                return Err(e);
            },
        };
        match with_context(parse_nlas::<Nla>(buf.payload()), "failed to parse tc message NLAs") {
            Ok(nlas) => Ok(Message { header, nlas }),
            Err(e) => Err(e),
        }
    }

    /// Emitting a well-formed message into a buffer of exactly its length
    /// leaves its encoding there, and decoding that encoding succeeds and
    /// gives a message with the same header whose attributes encode exactly
    /// as those of the message that was emitted.
    pub proof fn lemma_round_trip(&self)
        requires
            self.spec_wf(),
            self.spec_fits(),
        ensures
            forall|b: Seq<u8>|
                b.len() == self.spec_bytes().len() ==> #[trigger] splice(b, 0, self.spec_bytes())
                    == self.spec_bytes(),
            Message::spec_parses(self.spec_bytes()),
            self.spec_decodes(self.spec_bytes()),
            forall|m: Message| #[trigger]
                m.spec_decodes(self.spec_bytes()) ==> m.header == self.header && nla_records(
                    m.nlas@,
                ) == nla_records(self.nlas@),
    {
        assert forall|b: Seq<u8>| b.len() == self.spec_bytes().len() implies #[trigger] splice(
            b,
            0,
            self.spec_bytes(),
        ) == self.spec_bytes() by {
            crate::wire::lemma_splice_whole(b, self.spec_bytes());
        }
        let s = self.spec_bytes();
        self.header.lemma_round_trip(nlas_bytes(self.nlas@));
        let payload = s.subrange(HEADER_LEN as int, s.len() as int);
        assert(payload =~= nlas_bytes(self.nlas@));
        lemma_nlas_round_trip(self.nlas@);
        assert forall|m: Message| #[trigger]
            m.spec_decodes(self.spec_bytes()) implies m.header == self.header && nla_records(
            m.nlas@,
        ) == nla_records(self.nlas@) by {
            lemma_nlas_decode_unique(self.nlas@, m.nlas@, nla_records(self.nlas@));
        }
    }
}

impl Default for Message {
    fn default() -> (r: Message)
        ensures
            r.header == (Header { family: 0, index: 0, handle: 0, parent: 0, info: 0 }),
            r.nlas@.len() == 0,
    {
        Message::new()
    }
}

} // verus!
