//! Socket diagnostic responses of unix sockets: the response header, and
//! the attributes that may follow it.
use vstd::prelude::*;

use crate::error::{DecodeError, ErrorKind};
use crate::sock_diag::MemInfo;
use crate::wire::{
    get_u32, lemma_int_bytes, push_bytes, push_u32, set_bytes, splice, u32_at, u32_bytes,
};

verus! {

broadcast use vstd::array::group_array_axioms;

pub const AF_UNIX: u8 = 1;

pub const UNIX_RESPONSE_HEADER_LEN: usize = 16;

pub const VFS_LEN: usize = 8;

/// The device and inode of the file a bound unix socket is named by.
#[derive(Debug, Clone, Copy, PartialEq, Eq, Structural)]
pub struct Vfs {
    pub inode: u32,
    pub device: u32,
}

impl Vfs {
    pub open spec fn spec_bytes(&self) -> Seq<u8> {
        u32_bytes(self.inode) + u32_bytes(self.device)
    }

    /// Reads the structure from the front of `payload`.
    pub fn parse(payload: &[u8]) -> (r: Result<Vfs, DecodeError>)
        ensures
            r is Ok <==> payload@.len() >= VFS_LEN,
            r is Ok ==> r->Ok_0.inode == u32_at(payload@, 0) && r->Ok_0.device == u32_at(
                payload@,
                4,
            ),
            r is Err ==> r->Err_0.kind == ErrorKind::Truncated,
    {
        if payload.len() < VFS_LEN {
            return Err(DecodeError::new(ErrorKind::Truncated).context("buffer too short for Vfs"));
        }
        Ok(Vfs { inode: get_u32(payload, 0), device: get_u32(payload, 4) })
    }

    pub fn emit_into(&self, out: &mut Vec<u8>)
        ensures
            final(out)@ == old(out)@ + self.spec_bytes(),
    {
        push_u32(out, self.inode);
        push_u32(out, self.device);
        assert(final(out)@ =~= old(out)@ + self.spec_bytes());
    }
}

/// The lengths of the receive and send queues of a unix socket.
#[derive(Debug, Clone, Copy, PartialEq, Eq, Structural)]
pub struct QueueLength {
    pub rqueue: u32,
    pub wqueue: u32,
}

/// Attributes of a unix socket diagnostic response.
#[derive(Debug, Clone, PartialEq, Eq)]
pub enum Nla {
    Name(String),
    Vfs(Vfs),
    Peer(u32),
    PendingConnections(u32),
    QueueLength(QueueLength),
    MemInfo(MemInfo),
    Shutdown(u8),
}

/// The header of a unix socket diagnostic response.
///
/// Layout: family (byte 0), kind (1), state (2), padding (3), inode (4..8),
/// cookie (8..16).
#[derive(Debug, Clone, PartialEq, Eq)]
pub struct UnixResponseHeader {
    /// One of `SOCK_PACKET`, `SOCK_STREAM`, or `SOCK_SEQPACKET`.
    pub kind: u8,
    /// One of `TCP_LISTEN` or `TCP_ESTABLISHED`.
    pub state: u8,
    /// Socket inode number.
    pub inode: u32,
    pub cookie: [u8; 8],
}

impl UnixResponseHeader {
    /// The sixteen header bytes; the family is always `AF_UNIX`.
    pub open spec fn spec_bytes(&self) -> Seq<u8> {
        seq![AF_UNIX, self.kind, self.state, 0u8] + u32_bytes(self.inode) + self.cookie@
    }

    pub fn buffer_len(&self) -> (r: usize)
        ensures
            r == UNIX_RESPONSE_HEADER_LEN,
    {
        UNIX_RESPONSE_HEADER_LEN
    }

    /// Reads the header from the front of `payload`.
    pub fn parse(payload: &[u8]) -> (r: Result<UnixResponseHeader, DecodeError>)
        ensures
            r is Ok <==> payload@.len() >= UNIX_RESPONSE_HEADER_LEN,
            r is Ok ==> r->Ok_0.kind == payload@[1] && r->Ok_0.state == payload@[2]
                && r->Ok_0.inode == u32_at(payload@, 4) && r->Ok_0.cookie@ == payload@.subrange(
                8,
                16,
            ),
            r is Err ==> r->Err_0.kind == ErrorKind::Truncated,
    {
        if payload.len() < UNIX_RESPONSE_HEADER_LEN {
            return Err(
                DecodeError::new(ErrorKind::Truncated).context(
                    "buffer too short for a unix response header",
                ),
            );
        }
        let cookie: [u8; 8] = [
            payload[8],
            payload[9],
            payload[10],
            payload[11],
            payload[12],
            payload[13],
            payload[14],
            payload[15],
        ];
        assert(cookie@ =~= payload@.subrange(8, 16));
        Ok(
            UnixResponseHeader {
                kind: payload[1],
                state: payload[2],
                inode: get_u32(payload, 4),
                cookie,
            },
        )
    }

    pub fn emit_into(&self, out: &mut Vec<u8>)
        ensures
            final(out)@ == old(out)@ + self.spec_bytes(),
    {
        out.push(AF_UNIX);
        out.push(self.kind);
        out.push(self.state);
        out.push(0u8);
        push_u32(out, self.inode);
        push_bytes(out, self.cookie.as_slice());
        assert(final(out)@ =~= old(out)@ + self.spec_bytes());
    }

    /// Writes the header at the front of `buffer`.
    pub fn emit(&self, buffer: &mut [u8])
        requires
            old(buffer)@.len() >= UNIX_RESPONSE_HEADER_LEN,
        ensures
            final(buffer)@ == splice(old(buffer)@, 0, self.spec_bytes()),
    {
        let mut bytes: Vec<u8> = Vec::new();
        self.emit_into(&mut bytes);
        proof {
            lemma_int_bytes();
        }
        set_bytes(buffer, 0, bytes.as_slice());
    }
}

} // verus!
