//! The decisions of the framing layer that turns a datagram socket into a
//! stream of received messages and a sink of messages to send.
//!
//! The socket calls themselves happen outside: the caller performs the
//! action a step returns and hands the outcome back as the next event.
use vstd::prelude::*;

verus! {

/// A peer of the transport: a port number and a bit mask of multicast groups.
#[derive(Debug, Clone, Copy, PartialEq, Eq, Structural)]
pub struct SocketAddress {
    pub port_number: u32,
    pub multicast_groups: u32,
}

impl SocketAddress {
    pub fn new(port_number: u32, multicast_groups: u32) -> (r: SocketAddress)
        ensures
            r.port_number == port_number,
            r.multicast_groups == multicast_groups,
    {
        SocketAddress { port_number, multicast_groups }
    }
}

/// Where the receiving half stands.
#[derive(Debug, Clone, Copy, PartialEq, Eq, Structural)]
pub enum RecvState {
    /// Try to decode a message from what has been read.
    Decoding,
    /// The read buffer has been reset; wait for a datagram.
    AwaitingData,
    /// The stream has ended and yields nothing more.
    Ended,
}

/// What happened since the last receive step.
#[derive(Debug, Clone, Copy, PartialEq, Eq, Structural)]
pub enum RecvEvent {
    /// The decoder produced a message.
    Decoded,
    /// The read buffer holds no complete message.
    Incomplete,
    /// The decoder reported an unrecoverable error.
    DecodeFailed,
    /// A datagram of this many bytes arrived from this peer.
    Received(usize, SocketAddress),
    /// The socket reported an error.
    ReceiveFailed,
}

/// What the caller does next on the receiving half.
#[derive(Debug, Clone, Copy, PartialEq, Eq, Structural)]
pub enum RecvAction {
    /// Yield the decoded message, tagged with this sender.
    Deliver(SocketAddress),
    /// Decode from the read buffer.
    Decode,
    /// Clear the read buffer, restore its capacity, and receive a datagram.
    Receive,
    /// End the stream.
    End,
}

/// Why the sending half refused or failed.
#[derive(Debug, Clone, Copy, PartialEq, Eq, Structural)]
pub enum SendError {
    /// A frame is still waiting to be flushed.
    NotReady,
    /// The socket accepted fewer bytes than the frame holds.
    ShortWrite,
}

/// The state of one framed socket, without the socket.
#[derive(Debug)]
pub struct FramedState {
    pub recv: RecvState,
    pub in_addr: SocketAddress,
    pub writer: Vec<u8>,
    pub out_addr: SocketAddress,
    pub flushed: bool,
}

impl FramedState {
    /// A fresh state: decoding, nothing to send, both addresses zero.
    pub fn new() -> (r: FramedState)
        ensures
            r.recv == RecvState::Decoding,
            r.in_addr == SocketAddress::new_spec(0, 0),
            r.out_addr == SocketAddress::new_spec(0, 0),
            r.writer@.len() == 0,
            r.flushed,
    {
        FramedState {
            recv: RecvState::Decoding,
            in_addr: SocketAddress::new(0, 0),
            writer: Vec::new(),
            out_addr: SocketAddress::new(0, 0),
            flushed: true,
        }
    }

    /// The next receive decision. A decoded message is delivered with the
    /// address of the datagram it came from and decoding goes on; an
    /// incomplete buffer leads to a receive; a received datagram records its
    /// sender and leads back to decoding; any decode or socket error ends the
    /// stream for good. An event that does not belong to the current state
    /// changes nothing and repeats the state's own action.
    pub fn recv_step(&mut self, event: RecvEvent) -> (r: RecvAction)
        ensures
            final(self).writer == old(self).writer,
            final(self).out_addr == old(self).out_addr,
            final(self).flushed == old(self).flushed,
            old(self).recv == RecvState::Ended ==> r == RecvAction::End && final(self).recv
                == RecvState::Ended && final(self).in_addr == old(self).in_addr,
            old(self).recv == RecvState::Decoding ==> match event {
                RecvEvent::Decoded => r == RecvAction::Deliver(old(self).in_addr)
                    && final(self).recv == RecvState::Decoding,
                RecvEvent::Incomplete => r == RecvAction::Receive && final(self).recv
                    == RecvState::AwaitingData,
                RecvEvent::DecodeFailed => r == RecvAction::End && final(self).recv
                    == RecvState::Ended,
                _ => r == RecvAction::Decode && final(self).recv == RecvState::Decoding,
            },
            old(self).recv == RecvState::AwaitingData ==> match event {
                RecvEvent::Received(_, addr) => r == RecvAction::Decode && final(self).recv
                    == RecvState::Decoding && final(self).in_addr == addr,
                RecvEvent::ReceiveFailed => r == RecvAction::End && final(self).recv
                    == RecvState::Ended,
                _ => r == RecvAction::Receive && final(self).recv == RecvState::AwaitingData,
            },
            !(old(self).recv == RecvState::AwaitingData
                && event is Received) ==> final(self).in_addr == old(self).in_addr,
    {
        match self.recv {
            RecvState::Ended => RecvAction::End,
            RecvState::Decoding => match event {
                RecvEvent::Decoded => RecvAction::Deliver(self.in_addr),
                RecvEvent::Incomplete => {
                    self.recv = RecvState::AwaitingData;
                    RecvAction::Receive
                },
                RecvEvent::DecodeFailed => {
                    self.recv = RecvState::Ended;
                    RecvAction::End
                },
                _ => RecvAction::Decode,
            },
            RecvState::AwaitingData => match event {
                RecvEvent::Received(_, addr) => {
                    self.in_addr = addr;
                    self.recv = RecvState::Decoding;
                    RecvAction::Decode
                },
                RecvEvent::ReceiveFailed => {
                    self.recv = RecvState::Ended;
                    RecvAction::End
                },
                _ => RecvAction::Receive,
            },
        }
    }

    /// Whether a frame waits to be flushed before another can be accepted.
    pub fn needs_flush(&self) -> (r: bool)
        ensures
            r == !self.flushed,
    {
        !self.flushed
    }

    /// Accepts an encoded frame for `addr`, only when nothing waits to be
    /// flushed; otherwise refuses it and changes nothing.
    pub fn start_send(&mut self, frame: Vec<u8>, addr: SocketAddress) -> (r: Result<(), SendError>)
        ensures
            r is Ok <==> old(self).flushed,
            r is Ok ==> final(self).writer@ == frame@ && final(self).out_addr == addr
                && !final(self).flushed,
            r is Err ==> r->Err_0 == SendError::NotReady && final(self).writer == old(self).writer
                && final(self).out_addr == old(self).out_addr && final(self).flushed
                    == old(self).flushed,
            final(self).recv == old(self).recv,
            final(self).in_addr == old(self).in_addr,
    {
        if !self.flushed {
            return Err(SendError::NotReady);
        }
        self.writer = frame;
        self.out_addr = addr;
        self.flushed = false;
        Ok(())
    }

    /// The frame to send and its destination, when one waits.
    pub fn pending_frame(&self) -> (r: Option<(&[u8], SocketAddress)>)
        ensures
            r is Some <==> !self.flushed,
            r is Some ==> r->Some_0.0@ == self.writer@ && r->Some_0.1 == self.out_addr,
    {
        if self.flushed {
            None
        } else {
            Some((self.writer.as_slice(), self.out_addr))
        }
    }

    /// Records that one send of the pending frame accepted `written` bytes.
    /// The frame is dropped either way, never resent in part; the flush
    /// succeeds only when the whole frame went out in that one send. With
    /// nothing pending this succeeds and changes nothing.
    pub fn complete_flush(&mut self, written: usize) -> (r: Result<(), SendError>)
        ensures
            final(self).flushed,
            old(self).flushed ==> r is Ok && final(self).writer == old(self).writer,
            !old(self).flushed ==> final(self).writer@.len() == 0 && (r is Ok <==> written
                == old(self).writer@.len()),
            r is Err ==> r->Err_0 == SendError::ShortWrite,
            final(self).recv == old(self).recv,
            final(self).in_addr == old(self).in_addr,
            final(self).out_addr == old(self).out_addr,
    {
        if self.flushed {
            return Ok(());
        }
        let wrote_all = written == self.writer.len();
        self.writer.clear();
        self.flushed = true;
        if wrote_all {
            Ok(())
        } else {
            Err(SendError::ShortWrite)
        }
    }
}

impl SocketAddress {
    pub open spec fn new_spec(port_number: u32, multicast_groups: u32) -> SocketAddress {
        SocketAddress { port_number, multicast_groups }
    }
}

} // verus!
