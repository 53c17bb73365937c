//! Socket state machines and the readiness selector.
//!
//! The transport itself (the system calls that move bytes) lives outside this
//! crate: every socket here is the verified decision layer above it. The
//! embedding performs the transport operation, then hands its outcome in as
//! plain values — the raw status code, the number of bytes moved, the granted
//! port, the peer's endpoint — and each method states exactly what it decides
//! and records for every such outcome.

use crate::error::{
    code_to_err, status_result, Error, STATUS_DONE, STATUS_ERROR, STATUS_NOT_READY, STATUS_PARTIAL,
};
use crate::ip_address::IpAddress;
use crate::packet::{comb_4, le_bytes_4, lemma_le_4_roundtrip, Packet};
use crate::time::Time;
use vstd::prelude::*;
use vstd::slice::{slice_subrange, slice_to_vec};

verus! {

broadcast use vstd::seq_lib::lemma_seq_contains_after_push;

/// An endpoint: an IP address together with a port.
#[derive(Debug, Clone, Copy, PartialEq, Eq)]
pub struct IpAndPort {
    pub ip: IpAddress,
    pub port: u16,
}

/// A raw datagram together with the endpoint that sent it.
#[derive(Debug, Clone)]
pub struct ReceivedRaw {
    pub data: Vec<u8>,
    pub sender: IpAndPort,
}

/// The capability a socket needs to take part in a selector: registering,
/// unregistering, and answering a readiness query, all keyed by the socket's
/// transport handle.
pub trait Socket {
    /// The transport handle this socket stands for in a selector.
    spec fn sel_handle(&self) -> u64;

    /// Registers this socket's handle with the selector.
    fn add_to_selector(&self, selector: &mut SocketSelector)
        requires
            old(selector).wf(),
        ensures
            final(selector).wf(),
            forall|h: u64|
                final(selector).is_member(h) == (old(selector).is_member(h)
                    || h == self.sel_handle()),
            forall|h: u64|
                final(selector).is_marked_ready(h) == (old(selector).is_marked_ready(h) && h
                    != self.sel_handle()),
    ;

    /// Removes this socket's handle from the selector.
    fn remove_from_selector(&self, selector: &mut SocketSelector)
        requires
            old(selector).wf(),
        ensures
            final(selector).wf(),
            forall|h: u64|
                final(selector).is_member(h) == (old(selector).is_member(h) && h
                    != self.sel_handle()),
            forall|h: u64|
                final(selector).is_marked_ready(h) == (old(selector).is_marked_ready(h) && h
                    != self.sel_handle()),
    ;

    /// Whether the selector's last wait marked this socket ready.
    fn is_ready(&self, selector: &SocketSelector) -> (r: bool)
        ensures
            r == selector.is_marked_ready(self.sel_handle()),
    ;
}

/// A readiness-multiplexing registry over socket handles.
///
/// Membership is the selector's own bookkeeping; which registered sockets
/// actually have data is what the transport's poll reports, and `wait`
/// records that report restricted to the registered handles.
#[derive(Debug)]
pub struct SocketSelector {
    members: Vec<u64>,
    ready: Vec<u64>,
}

impl SocketSelector {
    /// Whether `h` is registered.
    pub closed spec fn is_member(&self, h: u64) -> bool {
        self.members@.contains(h)
    }

    /// Whether the last wait marked `h` ready.
    pub closed spec fn is_marked_ready(&self, h: u64) -> bool {
        self.ready@.contains(h)
    }

    /// Only registered handles are ever marked ready.
    pub closed spec fn wf(&self) -> bool {
        forall|h: u64| self.is_marked_ready(h) ==> self.is_member(h)
    }

    /// Creates an empty selector.
    pub fn create() -> (r: Result<Self, Error>)
        ensures
            r is Ok,
            r matches Ok(s) ==> s.wf() && (forall|h: u64| !s.is_member(h)) && (forall|h: u64|
                !s.is_marked_ready(h)),
    {
        Ok(Self { members: Vec::new(), ready: Vec::new() })
    }

    /// Duplicates the selector's membership (and its last readiness marks);
    /// the sockets themselves stay where they are.
    pub fn copy(&self) -> (r: Result<Self, Error>)
        requires
            self.wf(),
        ensures
            r is Ok,
            r matches Ok(s) ==> s.wf() && (forall|h: u64| s.is_member(h) == self.is_member(h))
                && (forall|h: u64| s.is_marked_ready(h) == self.is_marked_ready(h)),
    {
        let twin = Self {
            members: slice_to_vec(self.members.as_slice()),
            ready: slice_to_vec(self.ready.as_slice()),
        };
        proof {
            assert(twin.members@ == self.members@);
            assert(twin.ready@ == self.ready@);
            assert forall|h: u64| twin.is_member(h) == self.is_member(h) by {}
            assert forall|h: u64| twin.is_marked_ready(h) == self.is_marked_ready(h) by {}
            assert forall|h: u64| twin.is_marked_ready(h) implies twin.is_member(h) by {
                assert(self.is_marked_ready(h));
                assert(self.is_member(h));
            }
        }
        Ok(twin)
    }

    /// Registers a socket.
    pub fn add_socket<T: Socket>(&mut self, socket: &mut T)
        requires
            old(self).wf(),
        ensures
            final(self).wf(),
            *final(socket) == *old(socket),
            forall|h: u64|
                final(self).is_member(h) == (old(self).is_member(h) || h == old(
                    socket,
                ).sel_handle()),
            forall|h: u64|
                final(self).is_marked_ready(h) == (old(self).is_marked_ready(h) && h != old(
                    socket,
                ).sel_handle()),
    {
        socket.add_to_selector(self);
    }

    /// Unregisters a socket.
    pub fn remove_socket<T: Socket>(&mut self, socket: &T)
        requires
            old(self).wf(),
        ensures
            final(self).wf(),
            forall|h: u64|
                final(self).is_member(h) == (old(self).is_member(h) && h != socket.sel_handle()),
            forall|h: u64|
                final(self).is_marked_ready(h) == (old(self).is_marked_ready(h) && h
                    != socket.sel_handle()),
    {
        socket.remove_from_selector(self);
    }

    /// Unregisters every socket.
    pub fn clear(&mut self)
        ensures
            final(self).wf(),
            forall|h: u64| !final(self).is_member(h),
            forall|h: u64| !final(self).is_marked_ready(h),
    {
        self.members.clear();
        self.ready.clear();
    }

    /// Records the outcome of one blocking poll, up to `timeout` (no timeout:
    /// wait forever). `ready_report` is the set of handles the transport's
    /// poll found readable; the selector keeps the registered ones among them
    /// and answers whether there were any.
    pub fn wait(&mut self, timeout: Option<Time>, ready_report: &Vec<u64>) -> (r: bool)
        requires
            old(self).wf(),
        ensures
            final(self).wf(),
            forall|h: u64| final(self).is_member(h) == old(self).is_member(h),
            forall|h: u64|
                final(self).is_marked_ready(h) == (old(self).is_member(h)
                    && ready_report@.contains(h)),
            r == exists|h: u64| final(self).is_marked_ready(h),
    {
        let mut marked: Vec<u64> = Vec::new();
        let mut i: usize = 0;
        while i < self.members.len()
            invariant
                i <= self.members@.len(),
                self == old(self),
                forall|h: u64|
                    marked@.contains(h) == (self.members@.subrange(0, i as int).contains(h)
                        && ready_report@.contains(h)),
            decreases self.members@.len() - i,
        {
            let h: u64 = self.members[i];
            proof {
                let prefix = self.members@.subrange(0, i as int);
                let prefix1 = self.members@.subrange(0, i + 1);
                assert(prefix.push(self.members@[i as int]) =~= prefix1);
            }
            if vec_contains(ready_report, h) && !vec_contains(&marked, h) {
                let ghost marked0 = marked@;
                marked.push(h);
                proof {
                    assert(marked@ == marked0.push(h));
                }
            }
            i = i + 1;
        }
        proof {
            assert(self.members@.subrange(0, self.members@.len() as int) =~= self.members@);
        }
        let any_ready: bool = marked.len() > 0;
        self.ready = marked;
        proof {
            if self.ready@.len() > 0 {
                assert(self.ready@.contains(self.ready@[0]));
                assert(self.is_marked_ready(self.ready@[0]));
            } else {
                assert forall|h: u64| !self.is_marked_ready(h) by {}
            }
        }
        any_ready
    }

    /// Queries whether a socket was marked ready by the last `wait`. An
    /// unregistered socket is never ready.
    pub fn is_socket_ready<T: Socket>(&self, socket: &T) -> (r: bool)
        ensures
            r == self.is_marked_ready(socket.sel_handle()),
            self.wf() && !self.is_member(socket.sel_handle()) ==> !r,
    {
        socket.is_ready(self)
    }
}

/// An unregistered socket is never reported ready by a selector.
pub proof fn lemma_unregistered_never_ready(s: &SocketSelector, h: u64)
    requires
        s.wf(),
        !s.is_member(h),
    ensures
        !s.is_marked_ready(h),
{
}

/// Whether `v@` holds `x`.
fn vec_contains(v: &Vec<u64>, x: u64) -> (r: bool)
    ensures
        r == v@.contains(x),
{
    let mut i: usize = 0;
    while i < v.len()
        invariant
            i <= v@.len(),
            forall|j: int| 0 <= j < i ==> v@[j] != x,
        decreases v@.len() - i,
    {
        if v[i] == x {
            return true;
        }
        i = i + 1;
    }
    false
}

/// Whether `frame` is a whole length-delimited message: a 32-bit length
/// prefix followed by exactly that many payload bytes.
pub open spec fn well_framed(frame: Seq<u8>) -> bool {
    frame.len() >= 4 && comb_4(frame[0], frame[1], frame[2], frame[3]) == frame.len() - 4
}

/// The one logical message a packet's buffer makes on a stream: a 32-bit
/// length header followed by the buffer.
pub fn packet_frame(packet: &Packet) -> (r: Vec<u8>)
    requires
        packet.wf(),
        packet.contents().len() <= u32::MAX,
    ensures
        r@ == le_bytes_4(packet.contents().len() as u32) + packet.contents(),
        well_framed(r@),
{
    let data: Vec<u8> = packet.get_data();
    let n: u32 = data.len() as u32;
    let mut framed: Vec<u8> = Vec::new();
    framed.push((n % 256) as u8);
    framed.push((n / 256 % 256) as u8);
    framed.push((n / 65536 % 256) as u8);
    framed.push((n / 16777216) as u8);
    let mut body: Vec<u8> = data;
    framed.append(&mut body);
    proof {
        assert(framed@ =~= le_bytes_4(n) + packet.contents());
        lemma_le_4_roundtrip(n);
    }
    framed
}

/// A connection-oriented stream socket.
///
/// Models the connection bookkeeping above the transport: the blocking flag,
/// the local port once bound, and the remote endpoint once connected.
#[derive(Debug)]
pub struct TcpSocket {
    handle: u64,
    blocking: bool,
    local_port: Option<u16>,
    remote: Option<IpAndPort>,
}

impl TcpSocket {
    /// Whether calls on this socket wait for completion.
    pub closed spec fn blocking_mode(&self) -> bool {
        self.blocking
    }

    /// The local port, where the socket is bound.
    pub closed spec fn bound_port(&self) -> Option<u16> {
        self.local_port
    }

    /// The remote endpoint, where the socket is connected.
    pub closed spec fn remote_endpoint(&self) -> Option<IpAndPort> {
        self.remote
    }

    /// Creates a fresh, unconnected socket for the given transport handle:
    /// blocking, unbound.
    pub fn create(handle: u64) -> (r: Result<Self, Error>)
        ensures
            r is Ok,
            r matches Ok(s) ==> s.blocking_mode() && s.bound_port() is None
                && s.remote_endpoint() is None && s.sel_handle() == handle,
    {
        Ok(Self { handle, blocking: true, local_port: None, remote: None })
    }

    /// Enables or disables blocking mode (true for blocking).
    pub fn set_blocking(&mut self, blocking: bool)
        ensures
            final(self).blocking_mode() == blocking,
            final(self).bound_port() == old(self).bound_port(),
            final(self).remote_endpoint() == old(self).remote_endpoint(),
            final(self).sel_handle() == old(self).sel_handle(),
    {
        self.blocking = blocking;
    }

    /// Whether the socket is in blocking mode.
    pub fn is_blocking(&self) -> (r: bool)
        ensures
            r == self.blocking_mode(),
    {
        self.blocking
    }

    /// The port this socket is bound to, `None` while unbound.
    pub fn get_local_port(&self) -> (r: Option<u16>)
        ensures
            r == self.bound_port(),
    {
        self.local_port
    }

    /// The endpoint of the connected peer; fails while not connected.
    pub fn get_remote(&self) -> (r: Result<IpAndPort, Error>)
        ensures
            r is Ok <==> self.remote_endpoint() is Some,
            r matches Ok(e) ==> self.remote_endpoint() == Some(e),
            r matches Err(e) ==> e == Error::OtherError,
    {
        match self.remote {
            Some(endpoint) => Ok(endpoint),
            None => Err(Error::OtherError),
        }
    }

    /// Records the outcome of a connection attempt to `remote` within
    /// `timeout`: on success the socket is connected to `remote` on the local
    /// port the transport granted; on failure it is left as it was.
    pub fn connect(
        &mut self,
        remote: IpAndPort,
        timeout: Time,
        status: u32,
        granted_port: u16,
    ) -> (r: Result<(), Error>)
        requires
            status <= STATUS_ERROR,
        ensures
            r == status_result(status),
            final(self).blocking_mode() == old(self).blocking_mode(),
            final(self).sel_handle() == old(self).sel_handle(),
            status == STATUS_DONE ==> final(self).remote_endpoint() == Some(remote)
                && final(self).bound_port() == Some(granted_port),
            status != STATUS_DONE ==> final(self).remote_endpoint() == old(self).remote_endpoint()
                && final(self).bound_port() == old(self).bound_port(),
    {
        if status == STATUS_DONE {
            self.remote = Some(remote);
            self.local_port = Some(granted_port);
        }
        crate::error::code_to_err(status)
    }

    /// Tears the connection down; always succeeds.
    pub fn disconnect(&mut self)
        ensures
            final(self).blocking_mode() == old(self).blocking_mode(),
            final(self).sel_handle() == old(self).sel_handle(),
            final(self).remote_endpoint() is None,
            final(self).bound_port() is None,
    {
        self.remote = None;
        self.local_port = None;
    }

    /// Records the outcome of sending the whole of `data`: the transport's
    /// status, mapped to the error taxonomy. `Partial` and `NotReady` are
    /// possible outcomes distinct from full success.
    pub fn send(&mut self, data: &[u8], status: u32) -> (r: Result<(), Error>)
        requires
            status <= STATUS_ERROR,
        ensures
            r == status_result(status),
            *final(self) == *old(self),
    {
        crate::error::code_to_err(status)
    }

    /// Records the outcome of sending as much of `data` as the transport
    /// took without requiring completion: `sent` is how many leading bytes
    /// went out, and the returned slice is the unsent suffix the caller
    /// resumes with. The suffix and the sent count always add up to the whole
    /// of `data`.
    pub fn send_partial<'a>(&mut self, data: &'a [u8], sent: usize, status: u32) -> (r: Result<
        &'a [u8],
        Error,
    >)
        requires
            status <= STATUS_ERROR,
            sent <= data@.len(),
        ensures
            *final(self) == *old(self),
            r is Ok <==> (status == STATUS_DONE || status == STATUS_PARTIAL),
            r matches Ok(rest) ==> rest@ == data@.subrange(sent as int, data@.len() as int)
                && rest@.len() + sent == data@.len(),
            r matches Err(e) ==> Err::<(), Error>(e) == status_result(status),
    {
        if status == STATUS_DONE || status == STATUS_PARTIAL {
            Ok(slice_subrange(data, sent, data.len()))
        } else {
            match crate::error::code_to_err(status) {
                Ok(_) => Err(Error::OtherError),  // unreachable: status is not DONE here
                Err(e) => Err(e),
            }
        }
    }

    /// Records the outcome of sending a packet as one length-delimited
    /// message (the frame [`packet_frame`] builds).
    pub fn send_packet(&mut self, packet: Packet, status: u32) -> (r: Result<(), Error>)
        requires
            status <= STATUS_ERROR,
        ensures
            r == status_result(status),
            *final(self) == *old(self),
    {
        crate::error::code_to_err(status)
    }

    /// Records the outcome of an unstructured receive: the transport filled
    /// the first `size` bytes of `buf`, and that prefix is handed back. A
    /// would-block condition yields an empty prefix, not an error — the
    /// lenient contract for raw stream reads.
    pub fn receive(&mut self, buf: Vec<u8>, size: usize, status: u32) -> (r: Result<Vec<u8>, Error>)
        requires
            status <= STATUS_ERROR,
            size <= buf@.len(),
        ensures
            *final(self) == *old(self),
            r is Ok,
            r matches Ok(filled) ==> filled@ == buf@.subrange(0, size as int),
    {
        let mut filled: Vec<u8> = buf;
        filled.truncate(size);
        Ok(filled)
    }

    /// Records the outcome of receiving one length-delimited message:
    /// on success `frame` (header plus payload, as framed by the sender) must
    /// be whole, and the packet's buffer is replaced by the payload with the
    /// read cursor reset to 0. On any failure the packet is left as it was.
    pub fn receive_packet(&mut self, packet: &mut Packet, frame: &Vec<u8>, status: u32) -> (r:
        Result<(), Error>)
        requires
            status <= STATUS_ERROR,
            old(packet).wf(),
        ensures
            *final(self) == *old(self),
            final(packet).wf(),
            r is Ok <==> (status == STATUS_DONE && well_framed(frame@)),
            r is Ok ==> final(packet).contents() == frame@.subrange(4, frame@.len() as int)
                && final(packet).cursor() == 0,
            r is Err ==> *final(packet) == *old(packet),
            status != STATUS_DONE ==> r == status_result(status),
            status == STATUS_DONE && !well_framed(frame@) ==> r == Err::<(), Error>(
                Error::OtherError,
            ),
    {
        if status != STATUS_DONE {
            return crate::error::code_to_err(status);
        }
        if frame.len() < 4 {
            return Err(Error::OtherError);
        }
        let n: u32 = frame_header(frame);
        let body_len: usize = frame.len() - 4;
        if !(n as u64 == body_len as u64) {
            return Err(Error::OtherError);
        }
        packet.clear();
        let body: &[u8] = slice_subrange(frame.as_slice(), 4, frame.len());
        let _ = packet.append(body);
        Ok(())
    }
}

/// The 32-bit length a frame's header announces.
fn frame_header(frame: &Vec<u8>) -> (r: u32)
    requires
        frame@.len() >= 4,
    ensures
        r == comb_4(frame@[0], frame@[1], frame@[2], frame@[3]),
{
    let b0: u8 = frame[0];
    let b1: u8 = frame[1];
    let b2: u8 = frame[2];
    let b3: u8 = frame[3];
    b0 as u32 + 256 * (b1 as u32) + 65536 * (b2 as u32) + 16777216 * (b3 as u32)
}

/// A socket listening for incoming stream connections.
#[derive(Debug)]
pub struct TcpListener {
    handle: u64,
    blocking: bool,
    local_port: Option<u16>,
}

impl TcpListener {
    /// Whether `accept` waits for a connection.
    pub closed spec fn blocking_mode(&self) -> bool {
        self.blocking
    }

    /// The port the listener listens on, once listening.
    pub closed spec fn listening_port(&self) -> Option<u16> {
        self.local_port
    }

    /// Creates a fresh listener for the given transport handle: blocking,
    /// not listening yet.
    pub fn create(handle: u64) -> (r: Result<Self, Error>)
        ensures
            r is Ok,
            r matches Ok(s) ==> s.blocking_mode() && s.listening_port() is None && s.sel_handle()
                == handle,
    {
        Ok(Self { handle, blocking: true, local_port: None })
    }

    /// Enables or disables blocking mode (true for blocking).
    pub fn set_blocking(&mut self, blocking: bool)
        ensures
            final(self).blocking_mode() == blocking,
            final(self).listening_port() == old(self).listening_port(),
            final(self).sel_handle() == old(self).sel_handle(),
    {
        self.blocking = blocking;
    }

    /// Whether the listener is in blocking mode.
    pub fn is_blocking(&self) -> (r: bool)
        ensures
            r == self.blocking_mode(),
    {
        self.blocking
    }

    /// The port the listener is listening on; fails while not listening.
    pub fn get_local_port(&self) -> (r: Result<u16, Error>)
        ensures
            r is Ok <==> self.listening_port() is Some,
            r matches Ok(p) ==> self.listening_port() == Some(p),
            r matches Err(e) ==> e == Error::OtherError,
    {
        match self.local_port {
            Some(p) => Ok(p),
            None => Err(Error::OtherError),
        }
    }

    /// Records the outcome of binding to `port` on `address` (no address:
    /// any local address; port 0: an ephemeral port) and starting to listen:
    /// on success the listener listens on the port the transport granted; on
    /// failure it is left as it was.
    pub fn listen(
        &mut self,
        port: u16,
        address: Option<IpAddress>,
        status: u32,
        granted_port: u16,
    ) -> (r: Result<(), Error>)
        requires
            status <= STATUS_ERROR,
        ensures
            r == status_result(status),
            final(self).blocking_mode() == old(self).blocking_mode(),
            final(self).sel_handle() == old(self).sel_handle(),
            status == STATUS_DONE ==> final(self).listening_port() == Some(granted_port),
            status != STATUS_DONE ==> final(self).listening_port() == old(self).listening_port(),
    {
        if status == STATUS_DONE {
            self.local_port = Some(granted_port);
        }
        code_to_err(status)
    }

    /// Records the outcome of accepting one connection. On success the new,
    /// independently owned stream socket is returned: blocking, connected to
    /// `peer` on this listener's port, under the transport handle the accept
    /// produced. In non-blocking mode a pending-connection shortage is not an
    /// error: it yields `Ok(None)`. Every other failure surfaces as
    /// `OtherError`.
    pub fn accept(&mut self, status: u32, peer: IpAndPort, accepted_handle: u64) -> (r: Result<
        Option<TcpSocket>,
        Option<Error>,
    >)
        requires
            status <= STATUS_ERROR,
        ensures
            *final(self) == *old(self),
            r is Ok <==> (status == STATUS_DONE || (status == STATUS_NOT_READY
                && !old(self).blocking_mode())),
            r matches Ok(Some(s)) ==> status == STATUS_DONE && s.blocking_mode()
                && s.remote_endpoint() == Some(peer)
                && s.bound_port() == old(self).listening_port()
                && s.sel_handle() == accepted_handle,
            status == STATUS_DONE ==> r matches Ok(Some(_)),
            status == STATUS_NOT_READY && !old(self).blocking_mode() ==> r == Ok::<
                Option<TcpSocket>,
                Option<Error>,
            >(None),
            r matches Err(e) ==> e == Some(Error::OtherError),
    {
        if !self.is_blocking() && status == STATUS_NOT_READY {
            return Ok(None);
        }
        if status != STATUS_DONE {
            return Err(Some(Error::OtherError));
        }
        Ok(
            Some(
                TcpSocket {
                    handle: accepted_handle,
                    blocking: true,
                    local_port: self.local_port,
                    remote: Some(peer),
                },
            ),
        )
    }
}

/// A connectionless datagram socket.
#[derive(Debug)]
pub struct UdpSocket {
    handle: u64,
    blocking: bool,
    local_port: Option<u16>,
}

impl UdpSocket {
    /// Whether calls on this socket wait for completion.
    pub closed spec fn blocking_mode(&self) -> bool {
        self.blocking
    }

    /// The local port, where the socket is bound.
    pub closed spec fn bound_port(&self) -> Option<u16> {
        self.local_port
    }

    /// Creates a fresh socket for the given transport handle: blocking,
    /// unbound.
    pub fn create(handle: u64) -> (r: Result<Self, Error>)
        ensures
            r is Ok,
            r matches Ok(s) ==> s.blocking_mode() && s.bound_port() is None && s.sel_handle()
                == handle,
    {
        Ok(Self { handle, blocking: true, local_port: None })
    }

    /// Enables or disables blocking mode (true for blocking).
    pub fn set_blocking(&mut self, blocking: bool)
        ensures
            final(self).blocking_mode() == blocking,
            final(self).bound_port() == old(self).bound_port(),
            final(self).sel_handle() == old(self).sel_handle(),
    {
        self.blocking = blocking;
    }

    /// Whether the socket is in blocking mode.
    pub fn is_blocking(&self) -> (r: bool)
        ensures
            r == self.blocking_mode(),
    {
        self.blocking
    }

    /// The port this socket is bound to, `None` while unbound.
    pub fn get_local_port(&self) -> (r: Option<u16>)
        ensures
            r == self.bound_port(),
    {
        self.local_port
    }

    /// Records the outcome of binding to `port` (`None` or 0: an ephemeral
    /// port) on `ip` (`None`: any local address): on success the socket is
    /// bound to the port the transport granted; on failure it is left as it
    /// was.
    pub fn bind(
        &mut self,
        port: Option<u16>,
        ip: Option<IpAddress>,
        status: u32,
        granted_port: u16,
    ) -> (r: Result<(), Error>)
        requires
            status <= STATUS_ERROR,
        ensures
            r == status_result(status),
            final(self).blocking_mode() == old(self).blocking_mode(),
            final(self).sel_handle() == old(self).sel_handle(),
            status == STATUS_DONE ==> final(self).bound_port() == Some(granted_port),
            status != STATUS_DONE ==> final(self).bound_port() == old(self).bound_port(),
    {
        if status == STATUS_DONE {
            self.local_port = Some(granted_port);
        }
        code_to_err(status)
    }

    /// Releases the binding: the socket has no local port afterwards.
    pub fn unbind(&mut self)
        ensures
            final(self).blocking_mode() == old(self).blocking_mode(),
            final(self).sel_handle() == old(self).sel_handle(),
            final(self).bound_port() is None,
    {
        self.local_port = None;
    }

    /// Records the outcome of sending `data` as one datagram to `remote`.
    pub fn send(&mut self, data: &[u8], remote: &IpAndPort, status: u32) -> (r: Result<(), Error>)
        requires
            status <= STATUS_ERROR,
        ensures
            r == status_result(status),
            *final(self) == *old(self),
    {
        code_to_err(status)
    }

    /// Records the outcome of sending a packet's buffer as one datagram to
    /// `remote`.
    pub fn send_packet(&mut self, packet: &Packet, remote: &IpAndPort, status: u32) -> (r: Result<
        (),
        Error,
    >)
        requires
            status <= STATUS_ERROR,
        ensures
            r == status_result(status),
            *final(self) == *old(self),
    {
        code_to_err(status)
    }

    /// Records the outcome of receiving one raw datagram: the transport
    /// filled the first `size` bytes of `buf` and named the sender. On
    /// success that prefix and the sender's endpoint are handed back
    /// together; on any failure the error alone.
    pub fn receive(&mut self, buf: Vec<u8>, size: usize, sender: IpAndPort, status: u32) -> (r:
        Result<ReceivedRaw, Error>)
        requires
            status <= STATUS_ERROR,
            size <= buf@.len(),
        ensures
            *final(self) == *old(self),
            r is Ok <==> status == STATUS_DONE,
            r matches Ok(received) ==> received.data@ == buf@.subrange(0, size as int)
                && received.sender == sender,
            r matches Err(e) ==> Err::<(), Error>(e) == status_result(status),
    {
        match code_to_err(status) {
            Ok(_) => {
                let mut data: Vec<u8> = buf;
                data.truncate(size);
                Ok(ReceivedRaw { data, sender })
            },
            Err(e) => Err(e),
        }
    }

    /// Records the outcome of receiving one structured datagram: on success
    /// the packet's buffer is replaced by the delivered payload with the read
    /// cursor reset to 0, and the sender's endpoint is returned; on any
    /// failure the packet is left as it was.
    pub fn receive_packet(
        &mut self,
        packet: &mut Packet,
        payload: &Vec<u8>,
        sender: IpAndPort,
        status: u32,
    ) -> (r: Result<IpAndPort, Error>)
        requires
            status <= STATUS_ERROR,
            old(packet).wf(),
    ensures
            *final(self) == *old(self),
            final(packet).wf(),
            r is Ok <==> status == STATUS_DONE,
            r matches Ok(from) ==> from == sender && final(packet).contents() == payload@
                && final(packet).cursor() == 0,
            r is Err ==> *final(packet) == *old(packet),
            r matches Err(e) ==> Err::<(), Error>(e) == status_result(status),
    {
        match code_to_err(status) {
            Ok(_) => {
                packet.clear();
                let _ = packet.append(payload.as_slice());
                proof {
                    assert(final(packet).contents() =~= payload@);
                }
                Ok(sender)
            },
            Err(e) => Err(e),
        }
    }

    /// The most bytes one datagram can carry: the UDP payload limit the
    /// transport exposes as a static property.
    pub fn get_max_datagram_size() -> (r: u32)
        ensures
            r == 65507,
    {
        65507
    }
}

impl Socket for UdpSocket {
    closed spec fn sel_handle(&self) -> u64 {
        self.handle
    }

    fn add_to_selector(&self, selector: &mut SocketSelector) {
        selector_add(selector, self.handle);
    }

    fn remove_from_selector(&self, selector: &mut SocketSelector) {
        selector_remove(selector, self.handle);
    }

    fn is_ready(&self, selector: &SocketSelector) -> (r: bool) {
        vec_contains(&selector.ready, self.handle)
    }
}

impl Socket for TcpSocket {
    closed spec fn sel_handle(&self) -> u64 {
        self.handle
    }

    fn add_to_selector(&self, selector: &mut SocketSelector) {
        selector_add(selector, self.handle);
    }

    fn remove_from_selector(&self, selector: &mut SocketSelector) {
        selector_remove(selector, self.handle);
    }

    fn is_ready(&self, selector: &SocketSelector) -> (r: bool) {
        vec_contains(&selector.ready, self.handle)
    }
}

impl Socket for TcpListener {
    closed spec fn sel_handle(&self) -> u64 {
        self.handle
    }

    fn add_to_selector(&self, selector: &mut SocketSelector) {
        selector_add(selector, self.handle);
    }

    fn remove_from_selector(&self, selector: &mut SocketSelector) {
        selector_remove(selector, self.handle);
    }

    fn is_ready(&self, selector: &SocketSelector) -> (r: bool) {
        vec_contains(&selector.ready, self.handle)
    }
}

/// Registers `handle` with the selector; its readiness mark, if any, is
/// dropped until the next wait.
fn selector_add(selector: &mut SocketSelector, handle: u64)
    requires
        old(selector).wf(),
    ensures
        final(selector).wf(),
        forall|h: u64|
            final(selector).is_member(h) == (old(selector).is_member(h) || h == handle),
        forall|h: u64|
            final(selector).is_marked_ready(h) == (old(selector).is_marked_ready(h) && h != handle),
{
    selector.members.push(handle);
    let kept: Vec<u64> = remove_all(&selector.ready, handle);
    selector.ready = kept;
    proof {
        assert forall|h: u64| selector.is_marked_ready(h) implies selector.is_member(h) by {
            assert(old(selector).is_marked_ready(h));
            assert(old(selector).is_member(h));
        }
    }
}

/// Unregisters `handle` from the selector and drops its readiness mark.
fn selector_remove(selector: &mut SocketSelector, handle: u64)
    requires
        old(selector).wf(),
    ensures
        final(selector).wf(),
        forall|h: u64|
            final(selector).is_member(h) == (old(selector).is_member(h) && h != handle),
        forall|h: u64|
            final(selector).is_marked_ready(h) == (old(selector).is_marked_ready(h) && h != handle),
{
    let kept_members: Vec<u64> = remove_all(&selector.members, handle);
    let kept_ready: Vec<u64> = remove_all(&selector.ready, handle);
    selector.members = kept_members;
    selector.ready = kept_ready;
    proof {
        assert forall|h: u64| selector.is_marked_ready(h) implies selector.is_member(h) by {
            assert(old(selector).is_marked_ready(h));
            assert(old(selector).is_member(h));
        }
    }
}

/// A copy of `v` without every occurrence of `x`.
fn remove_all(v: &Vec<u64>, x: u64) -> (r: Vec<u64>)
    ensures
        forall|h: u64| r@.contains(h) == (v@.contains(h) && h != x),
{
    let mut kept: Vec<u64> = Vec::new();
    let mut i: usize = 0;
    while i < v.len()
        invariant
            i <= v@.len(),
            forall|h: u64|
                kept@.contains(h) == (v@.subrange(0, i as int).contains(h) && h != x),
        decreases v@.len() - i,
    {
        let e: u64 = v[i];
        proof {
            let prefix = v@.subrange(0, i as int);
            let prefix1 = v@.subrange(0, i + 1);
            assert(prefix.push(v@[i as int]) =~= prefix1);
            assert forall|h: u64| prefix1.contains(h) implies (prefix.contains(h) || h
                == v@[i as int]) by {
                let j = choose|j: int| 0 <= j < prefix1.len() && prefix1[j] == h;
                if j < prefix.len() {
                    assert(prefix[j] == h);
                }
            }
            assert forall|h: u64| prefix.contains(h) implies prefix1.contains(h) by {
                let j = choose|j: int| 0 <= j < prefix.len() && prefix[j] == h;
                assert(prefix1[j] == h);
            }
            assert(prefix1.contains(v@[i as int])) by {
                assert(prefix1[i as int] == v@[i as int]);
            }
        }
        if e != x {
            let ghost kept0 = kept@;
            kept.push(e);
            proof {
                assert forall|h: u64| kept@.contains(h) == (kept0.contains(h) || h
                    == v@[i as int]) by {
                    if kept@.contains(h) {
                        let j = choose|j: int| 0 <= j < kept@.len() && kept@[j] == h;
                        if j < kept0.len() {
                            assert(kept0[j] == h);
                        }
                    }
                    if kept0.contains(h) {
                        let j = choose|j: int| 0 <= j < kept0.len() && kept0[j] == h;
                        assert(kept@[j] == h);
                    }
                    if h == v@[i as int] {
                        assert(kept@[kept@.len() - 1] == h);
                    }
                }
            }
        }
        i = i + 1;
    }
    proof {
        assert(v@.subrange(0, v@.len() as int) =~= v@);
    }
    kept
}

} // verus!
