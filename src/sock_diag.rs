//! Socket diagnostic attributes of inet sockets: memory information, TCP
//! information, and the attribute catalog that carries them.
use vstd::prelude::*;

use crate::error::{with_context, DecodeError, ErrorKind};
use crate::nla::{slice_to_vec, DefaultNla, Nla as NlaTrait, NlaBuffer, NlaParse};
use crate::parsers::{
    lemma_string_round_trip, parse_string, parse_u32, parse_u8, push_string, string_bytes,
    string_of, string_value_len,
};
use crate::wire::{
    get_u32, get_u64, lemma_int_bytes, push_bytes, push_u32, push_u64, set_bytes, splice, u32_at,
    u32_bytes, u64_at, u64_bytes,
};

verus! {

pub const MEM_INFO_LEN: usize = 16;

/// Socket memory information, in the older and shorter form.
#[derive(Debug, Clone, Copy, PartialEq, Eq, Structural)]
pub struct MemInfo {
    /// Amount of data in the receive queue.
    pub rmem: u32,
    /// Amount of data that is queued by TCP but not yet sent.
    pub wmem: u32,
    /// Amount of memory scheduled for future use (TCP only).
    pub fmem: u32,
    /// The amount of data in send queue.
    pub tmem: u32,
}

/// The MemInfo that the first 16 bytes of `s` hold.
pub open spec fn mem_info_of(s: Seq<u8>) -> MemInfo {
    MemInfo {
        rmem: u32_at(s, 0),
        wmem: u32_at(s, 4),
        fmem: u32_at(s, 8),
        tmem: u32_at(s, 12),
    }
}

impl MemInfo {
    /// Reading the bytes of the structure gives it back, whatever follows
    /// them.
    #[verifier::spinoff_prover]
    #[verifier::rlimit(50)]
    pub proof fn lemma_round_trip(&self, rest: Seq<u8>)
        ensures
            self.spec_bytes().len() == MEM_INFO_LEN,
            mem_info_of(self.spec_bytes() + rest) == *self,
    {
        lemma_int_bytes();
        let s = self.spec_bytes() + rest;
        assert(s.subrange(0, 4) =~= u32_bytes(self.rmem));
        assert(s.subrange(4, 8) =~= u32_bytes(self.wmem));
        assert(s.subrange(8, 12) =~= u32_bytes(self.fmem));
        assert(s.subrange(12, 16) =~= u32_bytes(self.tmem));
    }

    /// The 16 bytes of the structure, fields in order at their offsets.
    pub open spec fn spec_bytes(&self) -> Seq<u8> {
        (u32_bytes(self.rmem) + u32_bytes(self.wmem) + u32_bytes(self.fmem) + u32_bytes(self.tmem))
    }

    pub fn buffer_len(&self) -> (r: usize)
        ensures
            r == MEM_INFO_LEN,
    {
        MEM_INFO_LEN
    }

    /// Reads the structure from the front of `payload`, which must hold at
    /// least 16 bytes; bytes after them are not read.
    pub fn parse(payload: &[u8]) -> (r: Result<MemInfo, DecodeError>)
        ensures
            r is Ok <==> payload@.len() >= MEM_INFO_LEN,
            r is Ok ==> r->Ok_0 == mem_info_of(payload@),
            r is Err ==> r->Err_0.kind == ErrorKind::Truncated,
    {
        if payload.len() < MEM_INFO_LEN {
            return Err(DecodeError::new(ErrorKind::Truncated)
                .context("buffer too short for MemInfo"));
        }
        Ok(
            MemInfo {
                rmem: get_u32(payload, 0),
                wmem: get_u32(payload, 4),
                fmem: get_u32(payload, 8),
                tmem: get_u32(payload, 12),
            },
        )
    }

    /// Appends the 16 bytes of the structure.
    #[verifier::spinoff_prover]
    #[verifier::rlimit(50)]
    pub fn emit_into(&self, out: &mut Vec<u8>)
        ensures
            final(out)@ == old(out)@ + self.spec_bytes(),
    {
        let ghost start = out@;
        let ghost g0 = out@;
        push_u32(out, self.rmem);
        push_u32(out, self.wmem);
        push_u32(out, self.fmem);
        push_u32(out, self.tmem);
        assert(out@ =~= g0 + (u32_bytes(self.rmem) + u32_bytes(self.wmem) + u32_bytes(self.fmem)
            + u32_bytes(self.tmem)));
        assert(out@ =~= start + self.spec_bytes());
    }

    /// Writes the structure at the front of `buffer`.
    pub fn emit(&self, buffer: &mut [u8])
        requires
            old(buffer)@.len() >= MEM_INFO_LEN,
        ensures
            final(buffer)@ == splice(old(buffer)@, 0, self.spec_bytes()),
    {
        let mut bytes: Vec<u8> = Vec::new();
        self.emit_into(&mut bytes);
        proof {
            lemma_int_bytes();
        }
        set_bytes(buffer, 0, bytes.as_slice());
    }
}

pub const TCP_INFO_LEN: usize = 232;

/// TCP connection information (`struct tcp_info`).
#[derive(Debug, Clone, Copy, PartialEq, Eq, Structural)]
pub struct TcpInfo {
    pub state: u8,
    pub ca_state: u8,
    pub retransmits: u8,
    pub probes: u8,
    pub backoff: u8,
    pub options: u8,
    pub wscale: u8,
    pub delivery_rate_app_limited: u8,
    pub rto: u32,
    pub ato: u32,
    pub snd_mss: u32,
    pub rcv_mss: u32,
    pub unacked: u32,
    pub sacked: u32,
    pub lost: u32,
    pub retrans: u32,
    pub fackets: u32,
    pub last_data_sent: u32,
    pub last_ack_sent: u32,
    pub last_data_recv: u32,
    pub last_ack_recv: u32,
    pub pmtu: u32,
    pub rcv_ssthresh: u32,
    pub rtt: u32,
    pub rttvar: u32,
    pub snd_ssthresh: u32,
    pub snd_cwnd: u32,
    pub advmss: u32,
    pub reordering: u32,
    pub rcv_rtt: u32,
    pub rcv_space: u32,
    pub total_retrans: u32,
    pub pacing_rate: u64,
    pub max_pacing_rate: u64,
    pub bytes_acked: u64,
    pub bytes_received: u64,
    pub segs_out: u32,
    pub segs_in: u32,
    pub notsent_bytes: u32,
    pub min_rtt: u32,
    pub data_segs_in: u32,
    pub data_segs_out: u32,
    pub delivery_rate: u64,
    pub busy_time: u64,
    pub rwnd_limited: u64,
    pub sndbuf_limited: u64,
    pub delivered: u32,
    pub delivered_ce: u32,
    pub bytes_sent: u64,
    pub bytes_retrans: u64,
    pub dsack_dups: u32,
    pub reord_seen: u32,
    pub rcv_ooopack: u32,
    pub snd_wnd: u32,
}

/// The TcpInfo that the first 232 bytes of `s` hold.
pub open spec fn tcp_info_of(s: Seq<u8>) -> TcpInfo {
    TcpInfo {
        state: s[0],
        ca_state: s[1],
        retransmits: s[2],
        probes: s[3],
        backoff: s[4],
        options: s[5],
        wscale: s[6],
        delivery_rate_app_limited: s[7],
        rto: u32_at(s, 8),
        ato: u32_at(s, 12),
        snd_mss: u32_at(s, 16),
        rcv_mss: u32_at(s, 20),
        unacked: u32_at(s, 24),
        sacked: u32_at(s, 28),
        lost: u32_at(s, 32),
        retrans: u32_at(s, 36),
        fackets: u32_at(s, 40),
        last_data_sent: u32_at(s, 44),
        last_ack_sent: u32_at(s, 48),
        last_data_recv: u32_at(s, 52),
        last_ack_recv: u32_at(s, 56),
        pmtu: u32_at(s, 60),
        rcv_ssthresh: u32_at(s, 64),
        rtt: u32_at(s, 68),
        rttvar: u32_at(s, 72),
        snd_ssthresh: u32_at(s, 76),
        snd_cwnd: u32_at(s, 80),
        advmss: u32_at(s, 84),
        reordering: u32_at(s, 88),
        rcv_rtt: u32_at(s, 92),
        rcv_space: u32_at(s, 96),
        total_retrans: u32_at(s, 100),
        pacing_rate: u64_at(s, 104),
        max_pacing_rate: u64_at(s, 112),
        bytes_acked: u64_at(s, 120),
        bytes_received: u64_at(s, 128),
        segs_out: u32_at(s, 136),
        segs_in: u32_at(s, 140),
        notsent_bytes: u32_at(s, 144),
        min_rtt: u32_at(s, 148),
        data_segs_in: u32_at(s, 152),
        data_segs_out: u32_at(s, 156),
        delivery_rate: u64_at(s, 160),
        busy_time: u64_at(s, 168),
        rwnd_limited: u64_at(s, 176),
        sndbuf_limited: u64_at(s, 184),
        delivered: u32_at(s, 192),
        delivered_ce: u32_at(s, 196),
        bytes_sent: u64_at(s, 200),
        bytes_retrans: u64_at(s, 208),
        dsack_dups: u32_at(s, 216),
        reord_seen: u32_at(s, 220),
        rcv_ooopack: u32_at(s, 224),
        snd_wnd: u32_at(s, 228),
    }
}

impl TcpInfo {
    /// Reading the bytes of the structure gives it back, whatever follows
    /// them.
    #[verifier::spinoff_prover]
    #[verifier::rlimit(50)]
    pub proof fn lemma_round_trip(&self, rest: Seq<u8>)
        ensures
            self.spec_bytes().len() == TCP_INFO_LEN,
            tcp_info_of(self.spec_bytes() + rest) == *self,
    {
        lemma_int_bytes();
        let s = self.spec_bytes() + rest;
        assert(s.subrange(8, 12) =~= u32_bytes(self.rto));
        assert(s.subrange(12, 16) =~= u32_bytes(self.ato));
        assert(s.subrange(16, 20) =~= u32_bytes(self.snd_mss));
        assert(s.subrange(20, 24) =~= u32_bytes(self.rcv_mss));
        assert(s.subrange(24, 28) =~= u32_bytes(self.unacked));
        assert(s.subrange(28, 32) =~= u32_bytes(self.sacked));
        assert(s.subrange(32, 36) =~= u32_bytes(self.lost));
        assert(s.subrange(36, 40) =~= u32_bytes(self.retrans));
        assert(s.subrange(40, 44) =~= u32_bytes(self.fackets));
        assert(s.subrange(44, 48) =~= u32_bytes(self.last_data_sent));
        assert(s.subrange(48, 52) =~= u32_bytes(self.last_ack_sent));
        assert(s.subrange(52, 56) =~= u32_bytes(self.last_data_recv));
        assert(s.subrange(56, 60) =~= u32_bytes(self.last_ack_recv));
        assert(s.subrange(60, 64) =~= u32_bytes(self.pmtu));
        assert(s.subrange(64, 68) =~= u32_bytes(self.rcv_ssthresh));
        assert(s.subrange(68, 72) =~= u32_bytes(self.rtt));
        assert(s.subrange(72, 76) =~= u32_bytes(self.rttvar));
        assert(s.subrange(76, 80) =~= u32_bytes(self.snd_ssthresh));
        assert(s.subrange(80, 84) =~= u32_bytes(self.snd_cwnd));
        assert(s.subrange(84, 88) =~= u32_bytes(self.advmss));
        assert(s.subrange(88, 92) =~= u32_bytes(self.reordering));
        assert(s.subrange(92, 96) =~= u32_bytes(self.rcv_rtt));
        assert(s.subrange(96, 100) =~= u32_bytes(self.rcv_space));
        assert(s.subrange(100, 104) =~= u32_bytes(self.total_retrans));
        assert(s.subrange(104, 112) =~= u64_bytes(self.pacing_rate));
        assert(s.subrange(112, 120) =~= u64_bytes(self.max_pacing_rate));
        assert(s.subrange(120, 128) =~= u64_bytes(self.bytes_acked));
        assert(s.subrange(128, 136) =~= u64_bytes(self.bytes_received));
        assert(s.subrange(136, 140) =~= u32_bytes(self.segs_out));
        assert(s.subrange(140, 144) =~= u32_bytes(self.segs_in));
        assert(s.subrange(144, 148) =~= u32_bytes(self.notsent_bytes));
        assert(s.subrange(148, 152) =~= u32_bytes(self.min_rtt));
        assert(s.subrange(152, 156) =~= u32_bytes(self.data_segs_in));
        assert(s.subrange(156, 160) =~= u32_bytes(self.data_segs_out));
        assert(s.subrange(160, 168) =~= u64_bytes(self.delivery_rate));
        assert(s.subrange(168, 176) =~= u64_bytes(self.busy_time));
        assert(s.subrange(176, 184) =~= u64_bytes(self.rwnd_limited));
        assert(s.subrange(184, 192) =~= u64_bytes(self.sndbuf_limited));
        assert(s.subrange(192, 196) =~= u32_bytes(self.delivered));
        assert(s.subrange(196, 200) =~= u32_bytes(self.delivered_ce));
        assert(s.subrange(200, 208) =~= u64_bytes(self.bytes_sent));
        assert(s.subrange(208, 216) =~= u64_bytes(self.bytes_retrans));
        assert(s.subrange(216, 220) =~= u32_bytes(self.dsack_dups));
        assert(s.subrange(220, 224) =~= u32_bytes(self.reord_seen));
        assert(s.subrange(224, 228) =~= u32_bytes(self.rcv_ooopack));
        assert(s.subrange(228, 232) =~= u32_bytes(self.snd_wnd));
    }

    /// The 232 bytes of the structure, fields in order at their offsets.
    pub open spec fn spec_bytes(&self) -> Seq<u8> {
        (seq![self.state] + seq![self.ca_state] + seq![self.retransmits] + seq![self.probes]
            + seq![self.backoff] + seq![self.options] + seq![self.wscale]
                + seq![self.delivery_rate_app_limited])
            + (u32_bytes(self.rto) + u32_bytes(self.ato) + u32_bytes(self.snd_mss)
                + u32_bytes(self.rcv_mss) + u32_bytes(self.unacked) + u32_bytes(self.sacked)
                    + u32_bytes(self.lost) + u32_bytes(self.retrans))
            + (u32_bytes(self.fackets) + u32_bytes(self.last_data_sent)
                + u32_bytes(self.last_ack_sent) + u32_bytes(self.last_data_recv)
                    + u32_bytes(self.last_ack_recv) + u32_bytes(self.pmtu)
                        + u32_bytes(self.rcv_ssthresh) + u32_bytes(self.rtt))
            + (u32_bytes(self.rttvar) + u32_bytes(self.snd_ssthresh) + u32_bytes(self.snd_cwnd)
                + u32_bytes(self.advmss) + u32_bytes(self.reordering) + u32_bytes(self.rcv_rtt)
                    + u32_bytes(self.rcv_space) + u32_bytes(self.total_retrans))
            + (u64_bytes(self.pacing_rate) + u64_bytes(self.max_pacing_rate)
                + u64_bytes(self.bytes_acked) + u64_bytes(self.bytes_received)
                    + u32_bytes(self.segs_out) + u32_bytes(self.segs_in)
                        + u32_bytes(self.notsent_bytes) + u32_bytes(self.min_rtt))
            + (u32_bytes(self.data_segs_in) + u32_bytes(self.data_segs_out)
                + u64_bytes(self.delivery_rate) + u64_bytes(self.busy_time)
                    + u64_bytes(self.rwnd_limited) + u64_bytes(self.sndbuf_limited)
                        + u32_bytes(self.delivered) + u32_bytes(self.delivered_ce))
            + (u64_bytes(self.bytes_sent) + u64_bytes(self.bytes_retrans)
                + u32_bytes(self.dsack_dups) + u32_bytes(self.reord_seen)
                    + u32_bytes(self.rcv_ooopack) + u32_bytes(self.snd_wnd))
    }

    pub fn buffer_len(&self) -> (r: usize)
        ensures
            r == TCP_INFO_LEN,
    {
        TCP_INFO_LEN
    }

    /// Reads the structure from the front of `payload`, which must hold at
    /// least 232 bytes; bytes after them are not read.
    pub fn parse(payload: &[u8]) -> (r: Result<TcpInfo, DecodeError>)
        ensures
            r is Ok <==> payload@.len() >= TCP_INFO_LEN,
            r is Ok ==> r->Ok_0 == tcp_info_of(payload@),
            r is Err ==> r->Err_0.kind == ErrorKind::Truncated,
    {
        if payload.len() < TCP_INFO_LEN {
            return Err(DecodeError::new(ErrorKind::Truncated)
                .context("buffer too short for TcpInfo"));
        }
        Ok(
            TcpInfo {
                state: payload[0],
                ca_state: payload[1],
                retransmits: payload[2],
                probes: payload[3],
                backoff: payload[4],
                options: payload[5],
                wscale: payload[6],
                delivery_rate_app_limited: payload[7],
                rto: get_u32(payload, 8),
                ato: get_u32(payload, 12),
                snd_mss: get_u32(payload, 16),
                rcv_mss: get_u32(payload, 20),
                unacked: get_u32(payload, 24),
                sacked: get_u32(payload, 28),
                lost: get_u32(payload, 32),
                retrans: get_u32(payload, 36),
                fackets: get_u32(payload, 40),
                last_data_sent: get_u32(payload, 44),
                last_ack_sent: get_u32(payload, 48),
                last_data_recv: get_u32(payload, 52),
                last_ack_recv: get_u32(payload, 56),
                pmtu: get_u32(payload, 60),
                rcv_ssthresh: get_u32(payload, 64),
                rtt: get_u32(payload, 68),
                rttvar: get_u32(payload, 72),
                snd_ssthresh: get_u32(payload, 76),
                snd_cwnd: get_u32(payload, 80),
                advmss: get_u32(payload, 84),
                reordering: get_u32(payload, 88),
                rcv_rtt: get_u32(payload, 92),
                rcv_space: get_u32(payload, 96),
                total_retrans: get_u32(payload, 100),
                pacing_rate: get_u64(payload, 104),
                max_pacing_rate: get_u64(payload, 112),
                bytes_acked: get_u64(payload, 120),
                bytes_received: get_u64(payload, 128),
                segs_out: get_u32(payload, 136),
                segs_in: get_u32(payload, 140),
                notsent_bytes: get_u32(payload, 144),
                min_rtt: get_u32(payload, 148),
                data_segs_in: get_u32(payload, 152),
                data_segs_out: get_u32(payload, 156),
                delivery_rate: get_u64(payload, 160),
                busy_time: get_u64(payload, 168),
                rwnd_limited: get_u64(payload, 176),
                sndbuf_limited: get_u64(payload, 184),
                delivered: get_u32(payload, 192),
                delivered_ce: get_u32(payload, 196),
                bytes_sent: get_u64(payload, 200),
                bytes_retrans: get_u64(payload, 208),
                dsack_dups: get_u32(payload, 216),
                reord_seen: get_u32(payload, 220),
                rcv_ooopack: get_u32(payload, 224),
                snd_wnd: get_u32(payload, 228),
            },
        )
    }

    /// Appends the 232 bytes of the structure.
    #[verifier::spinoff_prover]
    #[verifier::rlimit(50)]
    pub fn emit_into(&self, out: &mut Vec<u8>)
        ensures
            final(out)@ == old(out)@ + self.spec_bytes(),
    {
        let ghost start = out@;
        let ghost g0 = out@;
        out.push(self.state);
        out.push(self.ca_state);
        out.push(self.retransmits);
        out.push(self.probes);
        out.push(self.backoff);
        out.push(self.options);
        out.push(self.wscale);
        out.push(self.delivery_rate_app_limited);
        assert(out@ =~= g0 + (seq![self.state] + seq![self.ca_state] + seq![self.retransmits]
            + seq![self.probes] + seq![self.backoff] + seq![self.options] + seq![self.wscale]
                + seq![self.delivery_rate_app_limited]));
        let ghost g1 = out@;
        push_u32(out, self.rto);
        push_u32(out, self.ato);
        push_u32(out, self.snd_mss);
        push_u32(out, self.rcv_mss);
        push_u32(out, self.unacked);
        push_u32(out, self.sacked);
        push_u32(out, self.lost);
        push_u32(out, self.retrans);
        assert(out@ =~= g1 + (u32_bytes(self.rto) + u32_bytes(self.ato) + u32_bytes(self.snd_mss)
            + u32_bytes(self.rcv_mss) + u32_bytes(self.unacked) + u32_bytes(self.sacked)
                + u32_bytes(self.lost) + u32_bytes(self.retrans)));
        let ghost g2 = out@;
        push_u32(out, self.fackets);
        push_u32(out, self.last_data_sent);
        push_u32(out, self.last_ack_sent);
        push_u32(out, self.last_data_recv);
        push_u32(out, self.last_ack_recv);
        push_u32(out, self.pmtu);
        push_u32(out, self.rcv_ssthresh);
        push_u32(out, self.rtt);
        assert(out@ =~= g2 + (u32_bytes(self.fackets) + u32_bytes(self.last_data_sent)
            + u32_bytes(self.last_ack_sent) + u32_bytes(self.last_data_recv)
                + u32_bytes(self.last_ack_recv) + u32_bytes(self.pmtu)
                    + u32_bytes(self.rcv_ssthresh) + u32_bytes(self.rtt)));
        let ghost g3 = out@;
        push_u32(out, self.rttvar);
        push_u32(out, self.snd_ssthresh);
        push_u32(out, self.snd_cwnd);
        push_u32(out, self.advmss);
        push_u32(out, self.reordering);
        push_u32(out, self.rcv_rtt);
        push_u32(out, self.rcv_space);
        push_u32(out, self.total_retrans);
        assert(out@ =~= g3 + (u32_bytes(self.rttvar) + u32_bytes(self.snd_ssthresh)
            + u32_bytes(self.snd_cwnd) + u32_bytes(self.advmss) + u32_bytes(self.reordering)
                + u32_bytes(self.rcv_rtt) + u32_bytes(self.rcv_space)
                    + u32_bytes(self.total_retrans)));
        let ghost g4 = out@;
        push_u64(out, self.pacing_rate);
        push_u64(out, self.max_pacing_rate);
        push_u64(out, self.bytes_acked);
        push_u64(out, self.bytes_received);
        push_u32(out, self.segs_out);
        push_u32(out, self.segs_in);
        push_u32(out, self.notsent_bytes);
        push_u32(out, self.min_rtt);
        assert(out@ =~= g4 + (u64_bytes(self.pacing_rate) + u64_bytes(self.max_pacing_rate)
            + u64_bytes(self.bytes_acked) + u64_bytes(self.bytes_received)
                + u32_bytes(self.segs_out) + u32_bytes(self.segs_in)
                    + u32_bytes(self.notsent_bytes) + u32_bytes(self.min_rtt)));
        let ghost g5 = out@;
        push_u32(out, self.data_segs_in);
        push_u32(out, self.data_segs_out);
        push_u64(out, self.delivery_rate);
        push_u64(out, self.busy_time);
        push_u64(out, self.rwnd_limited);
        push_u64(out, self.sndbuf_limited);
        push_u32(out, self.delivered);
        push_u32(out, self.delivered_ce);
        assert(out@ =~= g5 + (u32_bytes(self.data_segs_in) + u32_bytes(self.data_segs_out)
            + u64_bytes(self.delivery_rate) + u64_bytes(self.busy_time)
                + u64_bytes(self.rwnd_limited) + u64_bytes(self.sndbuf_limited)
                    + u32_bytes(self.delivered) + u32_bytes(self.delivered_ce)));
        let ghost g6 = out@;
        push_u64(out, self.bytes_sent);
        push_u64(out, self.bytes_retrans);
        push_u32(out, self.dsack_dups);
        push_u32(out, self.reord_seen);
        push_u32(out, self.rcv_ooopack);
        push_u32(out, self.snd_wnd);
        assert(out@ =~= g6 + (u64_bytes(self.bytes_sent) + u64_bytes(self.bytes_retrans)
            + u32_bytes(self.dsack_dups) + u32_bytes(self.reord_seen)
                + u32_bytes(self.rcv_ooopack) + u32_bytes(self.snd_wnd)));
        assert(out@ =~= start + self.spec_bytes());
    }

    /// Writes the structure at the front of `buffer`.
    pub fn emit(&self, buffer: &mut [u8])
        requires
            old(buffer)@.len() >= TCP_INFO_LEN,
        ensures
            final(buffer)@ == splice(old(buffer)@, 0, self.spec_bytes()),
    {
        let mut bytes: Vec<u8> = Vec::new();
        self.emit_into(&mut bytes);
        proof {
            lemma_int_bytes();
        }
        set_bytes(buffer, 0, bytes.as_slice());
    }
}

pub const SK_MEM_INFO_LEN: usize = 36;

/// Socket memory information: how much memory the receive and send queues
/// of a socket use, and may use.
#[derive(Debug, Clone, Copy, PartialEq, Eq, Structural)]
pub struct SkMemInfo {
    /// Bytes in use in the receive queue.
    pub receive_queue_allocated: u32,
    /// Maximum bytes that the receive queue may use (`SO_RCVBUF`).
    pub receive_queue_max: u32,
    /// Bytes in use in the send queue.
    pub send_queue_allocated: u32,
    /// Maximum bytes that the send queue may use (`SO_SNDBUF`).
    pub sndbuf: u32,
    /// Memory scheduled for future use (TCP only).
    pub fwd_alloc: u32,
    /// Data queued by TCP but not yet sent.
    pub wmem_queued: u32,
    /// Memory allocated for the socket's service needs (e.g. a socket filter).
    pub optmem: u32,
    /// Packets in the backlog, not yet processed.
    pub backlog: u32,
    /// Packets dropped.
    pub drops: u32,
}

/// The SkMemInfo that the first 36 bytes of `s` hold.
pub open spec fn sk_mem_info_of(s: Seq<u8>) -> SkMemInfo {
    SkMemInfo {
        receive_queue_allocated: u32_at(s, 0),
        receive_queue_max: u32_at(s, 4),
        send_queue_allocated: u32_at(s, 8),
        sndbuf: u32_at(s, 12),
        fwd_alloc: u32_at(s, 16),
        wmem_queued: u32_at(s, 20),
        optmem: u32_at(s, 24),
        backlog: u32_at(s, 28),
        drops: u32_at(s, 32),
    }
}

impl SkMemInfo {
    /// Reading the bytes of the structure gives it back, whatever follows
    /// them.
    #[verifier::spinoff_prover]
    #[verifier::rlimit(50)]
    pub proof fn lemma_round_trip(&self, rest: Seq<u8>)
        ensures
            self.spec_bytes().len() == SK_MEM_INFO_LEN,
            sk_mem_info_of(self.spec_bytes() + rest) == *self,
    {
        lemma_int_bytes();
        let s = self.spec_bytes() + rest;
        assert(s.subrange(0, 4) =~= u32_bytes(self.receive_queue_allocated));
        assert(s.subrange(4, 8) =~= u32_bytes(self.receive_queue_max));
        assert(s.subrange(8, 12) =~= u32_bytes(self.send_queue_allocated));
        assert(s.subrange(12, 16) =~= u32_bytes(self.sndbuf));
        assert(s.subrange(16, 20) =~= u32_bytes(self.fwd_alloc));
        assert(s.subrange(20, 24) =~= u32_bytes(self.wmem_queued));
        assert(s.subrange(24, 28) =~= u32_bytes(self.optmem));
        assert(s.subrange(28, 32) =~= u32_bytes(self.backlog));
        assert(s.subrange(32, 36) =~= u32_bytes(self.drops));
    }

    /// The 36 bytes of the structure, fields in order at their offsets.
    pub open spec fn spec_bytes(&self) -> Seq<u8> {
        (u32_bytes(self.receive_queue_allocated) + u32_bytes(self.receive_queue_max)
            + u32_bytes(self.send_queue_allocated) + u32_bytes(self.sndbuf)
                + u32_bytes(self.fwd_alloc))
            + (u32_bytes(self.wmem_queued) + u32_bytes(self.optmem) + u32_bytes(self.backlog)
                + u32_bytes(self.drops))
    }

    pub fn buffer_len(&self) -> (r: usize)
        ensures
            r == SK_MEM_INFO_LEN,
    {
        SK_MEM_INFO_LEN
    }

    /// Reads the structure from the front of `payload`, which must hold at
    /// least 36 bytes; bytes after them are not read.
    pub fn parse(payload: &[u8]) -> (r: Result<SkMemInfo, DecodeError>)
        ensures
            r is Ok <==> payload@.len() >= SK_MEM_INFO_LEN,
            r is Ok ==> r->Ok_0 == sk_mem_info_of(payload@),
            r is Err ==> r->Err_0.kind == ErrorKind::Truncated,
    {
        if payload.len() < SK_MEM_INFO_LEN {
            return Err(DecodeError::new(ErrorKind::Truncated)
                .context("buffer too short for SkMemInfo"));
        }
        Ok(
            SkMemInfo {
                receive_queue_allocated: get_u32(payload, 0),
                receive_queue_max: get_u32(payload, 4),
                send_queue_allocated: get_u32(payload, 8),
                sndbuf: get_u32(payload, 12),
                fwd_alloc: get_u32(payload, 16),
                wmem_queued: get_u32(payload, 20),
                optmem: get_u32(payload, 24),
                backlog: get_u32(payload, 28),
                drops: get_u32(payload, 32),
            },
        )
    }

    /// Appends the 36 bytes of the structure.
    #[verifier::spinoff_prover]
    #[verifier::rlimit(50)]
    pub fn emit_into(&self, out: &mut Vec<u8>)
        ensures
            final(out)@ == old(out)@ + self.spec_bytes(),
    {
        let ghost start = out@;
        let ghost g0 = out@;
        push_u32(out, self.receive_queue_allocated);
        push_u32(out, self.receive_queue_max);
        push_u32(out, self.send_queue_allocated);
        push_u32(out, self.sndbuf);
        push_u32(out, self.fwd_alloc);
        assert(out@ =~= g0 + (u32_bytes(self.receive_queue_allocated)
            + u32_bytes(self.receive_queue_max) + u32_bytes(self.send_queue_allocated)
                + u32_bytes(self.sndbuf) + u32_bytes(self.fwd_alloc)));
        let ghost g1 = out@;
        push_u32(out, self.wmem_queued);
        push_u32(out, self.optmem);
        push_u32(out, self.backlog);
        push_u32(out, self.drops);
        assert(out@ =~= g1 + (u32_bytes(self.wmem_queued) + u32_bytes(self.optmem)
            + u32_bytes(self.backlog) + u32_bytes(self.drops)));
        assert(out@ =~= start + self.spec_bytes());
    }

    /// Writes the structure at the front of `buffer`.
    pub fn emit(&self, buffer: &mut [u8])
        requires
            old(buffer)@.len() >= SK_MEM_INFO_LEN,
        ensures
            final(buffer)@ == splice(old(buffer)@, 0, self.spec_bytes()),
    {
        let mut bytes: Vec<u8> = Vec::new();
        self.emit_into(&mut bytes);
        proof {
            lemma_int_bytes();
        }
        set_bytes(buffer, 0, bytes.as_slice());
    }
}

pub const INET_DIAG_NONE: u16 = 0;
pub const INET_DIAG_MEMINFO: u16 = 1;
pub const INET_DIAG_INFO: u16 = 2;
pub const INET_DIAG_VEGASINFO: u16 = 3;
pub const INET_DIAG_CONG: u16 = 4;
pub const INET_DIAG_TOS: u16 = 5;
pub const INET_DIAG_TCLASS: u16 = 6;
pub const INET_DIAG_SKMEMINFO: u16 = 7;
pub const INET_DIAG_SHUTDOWN: u16 = 8;
pub const INET_DIAG_DCTCPINFO: u16 = 9;
pub const INET_DIAG_PROTOCOL: u16 = 10;
pub const INET_DIAG_SKV6ONLY: u16 = 11;
pub const INET_DIAG_LOCALS: u16 = 12;
pub const INET_DIAG_PEERS: u16 = 13;
pub const INET_DIAG_PAD: u16 = 14;
pub const INET_DIAG_MARK: u16 = 15;
pub const INET_DIAG_BBRINFO: u16 = 16;
pub const INET_DIAG_CLASS_ID: u16 = 17;

/// Attributes of an inet socket diagnostic response.
#[derive(Debug, Clone, PartialEq, Eq)]
pub enum Nla {
    /// The older, shorter memory information; recent kernels send
    /// `SkMemInfo` instead.
    MemInfo(MemInfo),
    /// TCP information.
    Info(Box<TcpInfo>),
    /// The congestion control algorithm.
    Congestion(String),
    /// The type of service of the socket.
    Tos(u8),
    /// The traffic class of the socket.
    Tc(u8),
    /// Memory information of the socket.
    SkMemInfo(SkMemInfo),
    /// Shutdown state.
    Shutdown(u8),
    /// The protocol.
    Protocol(u8),
    /// Whether the socket is IPv6 only.
    SkV6Only(bool),
    /// The mark of the socket.
    Mark(u32),
    /// The class identifier of the socket.
    ClassId(u32),
    /// Any other attribute.
    Other(DefaultNla),
}

pub open spec fn inet_diag_known_kind(kind: u16) -> bool {
    ||| kind == INET_DIAG_MEMINFO
    ||| kind == INET_DIAG_INFO
    ||| kind == INET_DIAG_CONG
    ||| kind == INET_DIAG_TOS
    ||| kind == INET_DIAG_TCLASS
    ||| kind == INET_DIAG_SKMEMINFO
    ||| kind == INET_DIAG_SHUTDOWN
    ||| kind == INET_DIAG_PROTOCOL
    ||| kind == INET_DIAG_SKV6ONLY
    ||| kind == INET_DIAG_MARK
    ||| kind == INET_DIAG_CLASS_ID
}

pub open spec fn bool_byte(b: bool) -> u8 {
    if b {
        1
    } else {
        0
    }
}

impl NlaTrait for Nla {
    open spec fn spec_kind(&self) -> u16 {
        match self {
            Nla::MemInfo(_) => INET_DIAG_MEMINFO,
            Nla::Info(_) => INET_DIAG_INFO,
            Nla::Congestion(_) => INET_DIAG_CONG,
            Nla::Tos(_) => INET_DIAG_TOS,
            Nla::Tc(_) => INET_DIAG_TCLASS,
            Nla::SkMemInfo(_) => INET_DIAG_SKMEMINFO,
            Nla::Shutdown(_) => INET_DIAG_SHUTDOWN,
            Nla::Protocol(_) => INET_DIAG_PROTOCOL,
            Nla::SkV6Only(_) => INET_DIAG_SKV6ONLY,
            Nla::Mark(_) => INET_DIAG_MARK,
            Nla::ClassId(_) => INET_DIAG_CLASS_ID,
            Nla::Other(d) => d.kind,
        }
    }

    open spec fn spec_value(&self) -> Seq<u8> {
        match self {
            Nla::MemInfo(m) => m.spec_bytes(),
            Nla::Info(t) => t.spec_bytes(),
            Nla::Congestion(s) => string_bytes(s@),
            Nla::Tos(v) => seq![*v],
            Nla::Tc(v) => seq![*v],
            Nla::SkMemInfo(m) => m.spec_bytes(),
            Nla::Shutdown(v) => seq![*v],
            Nla::Protocol(v) => seq![*v],
            Nla::SkV6Only(b) => seq![bool_byte(*b)],
            Nla::Mark(v) => u32_bytes(*v),
            Nla::ClassId(v) => u32_bytes(*v),
            Nla::Other(d) => d.value@,
        }
    }

    open spec fn spec_fits(&self) -> bool {
        true
    }

    fn kind(&self) -> (r: u16) {
        match self {
            Nla::MemInfo(_) => INET_DIAG_MEMINFO,
            Nla::Info(_) => INET_DIAG_INFO,
            Nla::Congestion(_) => INET_DIAG_CONG,
            Nla::Tos(_) => INET_DIAG_TOS,
            Nla::Tc(_) => INET_DIAG_TCLASS,
            Nla::SkMemInfo(_) => INET_DIAG_SKMEMINFO,
            Nla::Shutdown(_) => INET_DIAG_SHUTDOWN,
            Nla::Protocol(_) => INET_DIAG_PROTOCOL,
            Nla::SkV6Only(_) => INET_DIAG_SKV6ONLY,
            Nla::Mark(_) => INET_DIAG_MARK,
            Nla::ClassId(_) => INET_DIAG_CLASS_ID,
            Nla::Other(d) => d.kind,
        }
    }

    fn value_len(&self) -> (r: usize) {
        proof {
            lemma_int_bytes();
            match self {
                Nla::MemInfo(m) => m.lemma_round_trip(seq![]),
                Nla::Info(t) => t.lemma_round_trip(seq![]),
                Nla::SkMemInfo(m) => m.lemma_round_trip(seq![]),
                _ => {},
            }
        }
        match self {
            Nla::MemInfo(_) => MEM_INFO_LEN,
            Nla::Info(_) => TCP_INFO_LEN,
            Nla::Congestion(s) => string_value_len(s),
            Nla::Tos(_) | Nla::Tc(_) | Nla::Shutdown(_) | Nla::Protocol(_) | Nla::SkV6Only(_) => 1,
            Nla::SkMemInfo(_) => SK_MEM_INFO_LEN,
            Nla::Mark(_) | Nla::ClassId(_) => 4,
            Nla::Other(d) => d.value.len(),
        }
    }

    fn emit_value(&self, out: &mut Vec<u8>) {
        match self {
            Nla::MemInfo(m) => m.emit_into(out),
            Nla::Info(t) => t.emit_into(out),
            Nla::Congestion(s) => push_string(out, s),
            Nla::Tos(v) | Nla::Tc(v) | Nla::Shutdown(v) | Nla::Protocol(v) => out.push(*v),
            Nla::SkV6Only(b) => out.push(
                if *b {
                    1u8
                } else {
                    0u8
                },
            ),
            Nla::SkMemInfo(m) => m.emit_into(out),
            Nla::Mark(v) | Nla::ClassId(v) => push_u32(out, *v),
            Nla::Other(d) => push_bytes(out, d.value.as_slice()),
        }
    }
}

/// The context message of a failure to decode a record of this kind.
pub open spec fn inet_diag_context(kind: u16) -> &'static str {
    if kind == INET_DIAG_MEMINFO {
        "invalid INET_DIAG_MEMINFO value"
    } else if kind == INET_DIAG_INFO {
        "invalid INET_DIAG_INFO value"
    } else if kind == INET_DIAG_CONG {
        "invalid INET_DIAG_CONG value"
    } else if kind == INET_DIAG_TOS {
        "invalid INET_DIAG_TOS value"
    } else if kind == INET_DIAG_TCLASS {
        "invalid INET_DIAG_TCLASS value"
    } else if kind == INET_DIAG_SKMEMINFO {
        "invalid INET_DIAG_SKMEMINFO value"
    } else if kind == INET_DIAG_SHUTDOWN {
        "invalid INET_DIAG_SHUTDOWN value"
    } else if kind == INET_DIAG_PROTOCOL {
        "invalid INET_DIAG_PROTOCOL value"
    } else if kind == INET_DIAG_SKV6ONLY {
        "invalid INET_DIAG_SKV6ONLY value"
    } else if kind == INET_DIAG_MARK {
        "invalid INET_DIAG_MARK value"
    } else if kind == INET_DIAG_CLASS_ID {
        "invalid INET_DIAG_CLASS_ID value"
    } else {
        "invalid NLA"
    }
}

impl NlaParse for Nla {
    open spec fn spec_parses(kind: u16, value: Seq<u8>) -> bool {
        if kind == INET_DIAG_MEMINFO {
            value.len() >= MEM_INFO_LEN
        } else if kind == INET_DIAG_INFO {
            value.len() >= TCP_INFO_LEN
        } else if kind == INET_DIAG_SKMEMINFO {
            value.len() >= SK_MEM_INFO_LEN
        } else if kind == INET_DIAG_CONG {
            string_of(value) is Some
        } else if kind == INET_DIAG_TOS || kind == INET_DIAG_TCLASS || kind == INET_DIAG_SHUTDOWN
            || kind == INET_DIAG_PROTOCOL || kind == INET_DIAG_SKV6ONLY {
            value.len() == 1
        } else if kind == INET_DIAG_MARK || kind == INET_DIAG_CLASS_ID {
            value.len() == 4
        } else {
            true
        }
    }

    open spec fn spec_decodes(&self, kind: u16, value: Seq<u8>) -> bool {
        match self {
            Nla::MemInfo(m) => kind == INET_DIAG_MEMINFO && value.len() >= MEM_INFO_LEN && *m
                == mem_info_of(value),
            Nla::Info(t) => kind == INET_DIAG_INFO && value.len() >= TCP_INFO_LEN && **t
                == tcp_info_of(value),
            Nla::Congestion(s) => kind == INET_DIAG_CONG && string_of(value) == Some(s@),
            Nla::Tos(v) => kind == INET_DIAG_TOS && value.len() == 1 && *v == value[0],
            Nla::Tc(v) => kind == INET_DIAG_TCLASS && value.len() == 1 && *v == value[0],
            Nla::SkMemInfo(m) => kind == INET_DIAG_SKMEMINFO && value.len() >= SK_MEM_INFO_LEN && *m
                == sk_mem_info_of(value),
            Nla::Shutdown(v) => kind == INET_DIAG_SHUTDOWN && value.len() == 1 && *v == value[0],
            Nla::Protocol(v) => kind == INET_DIAG_PROTOCOL && value.len() == 1 && *v == value[0],
            Nla::SkV6Only(b) => kind == INET_DIAG_SKV6ONLY && value.len() == 1 && *b == (value[0]
                != 0),
            Nla::Mark(v) => kind == INET_DIAG_MARK && value.len() == 4 && *v == u32_at(value, 0),
            Nla::ClassId(v) => kind == INET_DIAG_CLASS_ID && value.len() == 4 && *v == u32_at(
                value,
                0,
            ),
            Nla::Other(d) => !inet_diag_known_kind(kind) && d.kind == kind && d.value@ == value,
        }
    }

    open spec fn spec_wf(&self) -> bool {
        match self {
            Nla::Other(d) => !inet_diag_known_kind(d.kind),
            _ => true,
        }
    }

    open spec fn spec_context(kind: u16) -> &'static str {
        inet_diag_context(kind)
    }

    fn parse(buf: &NlaBuffer) -> (r: Result<Self, DecodeError>) {
        let payload = buf.value();
        let kind = buf.kind();
        if kind == INET_DIAG_MEMINFO {
            match with_context(MemInfo::parse(payload), "invalid INET_DIAG_MEMINFO value") {
                Ok(m) => Ok(Nla::MemInfo(m)),
                Err(e) => Err(e),
            }
        } else if kind == INET_DIAG_INFO {
            match with_context(TcpInfo::parse(payload), "invalid INET_DIAG_INFO value") {
                Ok(t) => Ok(Nla::Info(Box::new(t))),
                Err(e) => Err(e),
            }
        } else if kind == INET_DIAG_CONG {
            match with_context(parse_string(payload), "invalid INET_DIAG_CONG value") {
                Ok(s) => Ok(Nla::Congestion(s)),
                Err(e) => Err(e),
            }
        } else if kind == INET_DIAG_TOS {
            match with_context(parse_u8(payload), "invalid INET_DIAG_TOS value") {
                Ok(v) => Ok(Nla::Tos(v)),
                Err(e) => Err(e),
            }
        } else if kind == INET_DIAG_TCLASS {
            match with_context(parse_u8(payload), "invalid INET_DIAG_TCLASS value") {
                Ok(v) => Ok(Nla::Tc(v)),
                Err(e) => Err(e),
            }
        } else if kind == INET_DIAG_SKMEMINFO {
            match with_context(SkMemInfo::parse(payload), "invalid INET_DIAG_SKMEMINFO value") {
                Ok(m) => Ok(Nla::SkMemInfo(m)),
                Err(e) => Err(e),
            }
        } else if kind == INET_DIAG_SHUTDOWN {
            match with_context(parse_u8(payload), "invalid INET_DIAG_SHUTDOWN value") {
                Ok(v) => Ok(Nla::Shutdown(v)),
                Err(e) => Err(e),
            }
        } else if kind == INET_DIAG_PROTOCOL {
            match with_context(parse_u8(payload), "invalid INET_DIAG_PROTOCOL value") {
                Ok(v) => Ok(Nla::Protocol(v)),
                Err(e) => Err(e),
            }
        } else if kind == INET_DIAG_SKV6ONLY {
            match with_context(parse_u8(payload), "invalid INET_DIAG_SKV6ONLY value") {
                Ok(v) => Ok(Nla::SkV6Only(v != 0)),
                Err(e) => Err(e),
            }
        } else if kind == INET_DIAG_MARK {
            match with_context(parse_u32(payload), "invalid INET_DIAG_MARK value") {
                Ok(v) => Ok(Nla::Mark(v)),
                Err(e) => Err(e),
            }
        } else if kind == INET_DIAG_CLASS_ID {
            match with_context(parse_u32(payload), "invalid INET_DIAG_CLASS_ID value") {
                Ok(v) => Ok(Nla::ClassId(v)),
                Err(e) => Err(e),
            }
        } else {
            Ok(Nla::Other(DefaultNla::new(kind, slice_to_vec(payload))))
        }
    }

    proof fn lemma_round_trip(&self) {
        crate::wire::lemma_int_at_zero();
        lemma_int_bytes();
        match self {
            Nla::MemInfo(m) => {
                m.lemma_round_trip(seq![]);
                assert(m.spec_bytes() + seq![] =~= m.spec_bytes());
            },
            Nla::Info(t) => {
                t.lemma_round_trip(seq![]);
                assert(t.spec_bytes() + seq![] =~= t.spec_bytes());
            },
            Nla::SkMemInfo(m) => {
                m.lemma_round_trip(seq![]);
                assert(m.spec_bytes() + seq![] =~= m.spec_bytes());
            },
            Nla::Congestion(s) => lemma_string_round_trip(s@),
            _ => {},
        }
    }

    proof fn lemma_decodes_unique(&self, other: &Self, kind: u16, value: Seq<u8>) {
        lemma_int_bytes();
    }
}

} // verus!
