//! Non-blocking TCP: the futures that connect a socket and write to it.

use vstd::prelude::*;

use crate::addr::SockAddr;

verus! {

/// A connected socket.
pub struct TcpStream<S> {
    pub sock: S,
}

/// The future that connects a socket.
pub struct TcpStreamConnect<S> {
    /// The socket, until it is handed over connected.
    pub sock: Option<S>,
    pub addr: SockAddr,
    /// Whether connecting has begun.
    pub connecting: bool,
}

/// What to do for a poll of a connecting future.
pub enum ConnectAction<S> {
    /// Register the task's waker for the socket, then begin to connect to the
    /// address whatever that call returns; the poll is pending.
    Begin(SockAddr),
    /// The poll is ready with the connected socket.
    Done(TcpStream<S>),
}

/// The future that writes to a connected socket.
pub struct TcpStreamWrite<'a, S> {
    pub sock: &'a S,
    pub data: &'a [u8],
    /// Whether a failed send is to leave the registration as it is.
    pub registered: bool,
}

impl<S> ConnectAction<S> {
    /// The line that tells of this action.
    pub fn line(&self) -> (line: &'static str)
        ensures
            line == match *self {
                ConnectAction::Begin(_) => "tcp stream: connecting...",
                ConnectAction::Done(_) => "tcp stream: connected",
            },
    {
        match self {
            ConnectAction::Begin(_) => "tcp stream: connecting...",
            ConnectAction::Done(_) => "tcp stream: connected",
        }
    }
}

/// What to do for a poll of a writing future, once the data was offered to the
/// socket.
pub enum WriteAction {
    /// The poll is ready: so many bytes were taken.
    Done(usize),
    /// Register the task's waker for the socket; the poll is pending.
    Register,
    /// The poll is pending.
    Wait,
}

impl WriteAction {
    /// The action for a send that took that many bytes, or that failed.
    pub open spec fn after(sent: Option<usize>, registered: bool) -> Self {
        match sent {
            Some(n) => WriteAction::Done(n),
            None => if registered {
                WriteAction::Wait
            } else {
                WriteAction::Register
            },
        }
    }

    /// A poll is ready exactly if the send succeeded, with the number of bytes
    /// that the socket took, whether or not the task had registered.
    pub proof fn a_write_is_ready_with_what_was_sent(sent: Option<usize>, registered: bool)
        ensures
            Self::after(sent, registered) is Done <==> sent is Some,
            sent is Some ==> Self::after(sent, registered)->Done_0 == sent->0,
            sent is Some ==> Self::after(sent, registered) == Self::after(sent, !registered),
    {
    }

    /// A failed send registers exactly if the task had not registered.
    pub proof fn a_failed_send_registers_once(registered: bool)
        ensures
            Self::after(None, registered) is Register <==> !registered,
            Self::after(None, registered) is Wait <==> registered,
    {
    }

    /// The line that tells of this action: none for a send that succeeded.
    pub fn line(&self) -> (line: Option<&'static str>)
        ensures
            line == match *self {
                WriteAction::Done(_) => None,
                _ => Some("tcp stream: not ready for send..."),
            },
    {
        match self {
            WriteAction::Done(_) => None,
            WriteAction::Register => Some("tcp stream: not ready for send..."),
            WriteAction::Wait => Some("tcp stream: not ready for send..."),
        }
    }
}

impl<S> TcpStream<S> {
    /// Begins with a fresh non-blocking socket and the text of the address to
    /// connect to. There is no future if the address cannot be read.
    pub fn connect(sock: S, addr: &str) -> (connect: Option<TcpStreamConnect<S>>)
        ensures
            connect == match SockAddr::of(crate::addr::sockaddr_in_from_str(addr@)) {
                Some(addr) => Some(TcpStreamConnect::<S>::fresh(sock, addr)),
                None => None,
            },
            forall|octets: (u8, u8, u8, u8), port: u16|
                addr@ == #[trigger] crate::addr::dotted(octets, port) ==> connect == Some(
                    TcpStreamConnect::<S>::fresh(sock, SockAddr { octets, port }),
                ),
            connect is Some <==> crate::addr::sockaddr_in_from_str(addr@) is Some,
            connect is Some ==> connect->0.sock == Some(sock) && !connect->0.connecting,
            crate::addr::sockaddr_in_from_str(addr@) matches Some((octets, port))
                ==> connect->0.addr.octets == octets && connect->0.addr.port == port,
    {
        match SockAddr::parse(addr) {
            Some(addr) => Some(TcpStreamConnect::new(sock, addr)),
            None => None,
        }
    }

    /// A future that writes some of `data` to this stream's socket.
    pub fn write<'a>(&'a self, data: &'a [u8]) -> (write: TcpStreamWrite<'a, S>)
        ensures
            *write.sock == self.sock,
            write.data@ == data@,
            !write.registered,
    {
        TcpStreamWrite { sock: &self.sock, data, registered: false }
    }
}

impl<S> TcpStreamConnect<S> {
    /// The future before its first poll.
    pub open spec fn fresh(sock: S, addr: SockAddr) -> Self {
        TcpStreamConnect { sock: Some(sock), addr, connecting: false }
    }

    /// A future that is to connect `sock` to `addr`.
    pub fn new(sock: S, addr: SockAddr) -> (connect: Self)
        ensures
            connect == Self::fresh(sock, addr),
            connect.sock == Some(sock),
            connect.addr == addr,
            !connect.connecting,
    {
        TcpStreamConnect { sock: Some(sock), addr, connecting: false }
    }

    /// The future and the action that follow a poll.
    pub open spec fn step(self) -> (Self, ConnectAction<S>) {
        if self.connecting {
            (
                TcpStreamConnect { sock: None, ..self },
                ConnectAction::Done(TcpStream { sock: self.sock->0 }),
            )
        } else {
            (TcpStreamConnect { connecting: true, ..self }, ConnectAction::Begin(self.addr))
        }
    }

    /// Polls the future, which must not have been ready before. The first poll
    /// begins to connect; the next one takes the wake-up for success.
    pub fn poll(&mut self) -> (action: ConnectAction<S>)
        requires
            old(self).sock is Some,
        ensures
            (*final(self), action) == old(self).step(),
            final(self).addr == old(self).addr,
            final(self).connecting,
            old(self).connecting ==> action == ConnectAction::Done(
                TcpStream { sock: old(self).sock->0 },
            ) && final(self).sock is None,
            !old(self).connecting ==> action == ConnectAction::<S>::Begin(old(self).addr)
                && final(self).sock == old(self).sock,
    {
        if self.connecting {
            let sock = self.sock.take().unwrap();
            ConnectAction::Done(TcpStream { sock })
        } else {
            self.connecting = true;
            ConnectAction::Begin(self.addr)
        }
    }

    /// Whatever state a connecting future is in, a poll of it either begins to
    /// connect to its own address and keeps the socket, or hands its own socket
    /// over and keeps none; its address never changes.
    pub proof fn a_poll_begins_or_hands_over(self)
        requires
            self.sock is Some,
        ensures
            self.step().0.addr == self.addr,
            self.step().0.connecting,
            !self.connecting ==> self.step().1 == ConnectAction::<S>::Begin(self.addr)
                && self.step().0.sock == self.sock,
            self.connecting ==> self.step().1 == ConnectAction::Done(
                TcpStream { sock: self.sock->0 },
            ) && self.step().0.sock is None,
    {
    }

    /// A connecting future is pending once, connecting to the address it was
    /// made with, and is then ready with the socket it was made with; after
    /// that it holds no socket to be polled for.
    pub proof fn connects_once_and_hands_the_socket_over(sock: S, addr: SockAddr)
        ensures
            ({
                let (first, begun) = Self::fresh(sock, addr).step();
                let (second, done) = first.step();
                &&& begun == ConnectAction::<S>::Begin(addr)
                &&& first.sock == Some(sock)
                &&& done == ConnectAction::Done(TcpStream { sock })
                &&& second.sock is None
            }),
    {
    }
}

impl<'a, S> TcpStreamWrite<'a, S> {
    /// Polls the future: `sent` is how many bytes the socket took, or `None`
    /// where the send failed.
    pub fn poll(&self, sent: Option<usize>) -> (action: WriteAction)
        ensures
            action == WriteAction::after(sent, self.registered),
            action is Done <==> sent is Some,
            sent is Some ==> action->Done_0 == sent->0,
            action is Register <==> sent is None && !self.registered,
            action is Wait <==> sent is None && self.registered,
    {
        match sent {
            Some(n) => WriteAction::Done(n),
            None => {
                if !self.registered {
                    WriteAction::Register
                } else {
                    WriteAction::Wait
                }
            },
        }
    }
}

} // verus!
