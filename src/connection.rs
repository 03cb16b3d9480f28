//! The shared connection to the bus and the per-slave proxy over it.
//!
//! The transport itself lives outside the library: these types decide what
//! to send and what an observed outcome means, and the caller performs the
//! I/O and hands each outcome back.

use vstd::prelude::*;

verus! {

/// The fixed broadcast address that every sensor answers, used only to
/// assign slave addresses.
pub const BROADCAST_SLAVE_ADDR: u8 = 0x6f;

/// The control register that a broadcast write assigns the slave address
/// through.
pub const BROADCAST_REG_ADDR: u16 = 0x0138;

/// Failures of the link or of a request over it.
#[derive(Clone, Copy, Debug, PartialEq, Eq, Structural)]
pub enum ConnectionError {
    /// No connection was established.
    NotConnected,
    /// The response did not come within the timeout.
    TimedOut,
    /// The transport reported an error.
    TransportFailure,
}

/// State of the shared link. A connected link carries the identifier of the
/// transport handle that the caller holds for it.
#[derive(Clone, Copy, Debug, PartialEq, Eq, Structural)]
pub enum LinkState {
    Disconnected,
    Connecting,
    Connected(u64),
}

/// What the caller observed of one read request.
#[derive(Clone, Debug)]
pub enum ReadEvent {
    /// The slave answered with these words.
    Response(Vec<u16>),
    /// The timeout ran out before the answer.
    Elapsed,
    /// The transport failed.
    Failed,
}

/// A holding-register read to perform on the handle `handle`.
#[derive(Clone, Copy, Debug, PartialEq, Eq, Structural)]
pub struct ReadCommand {
    pub handle: u64,
    pub slave: u8,
    pub address: u16,
    pub count: u16,
    pub timeout_ms: Option<u64>,
}

/// A single-register write to perform on the handle `handle`, addressed to
/// `slave`; afterwards the caller addresses `restore_slave` again.
#[derive(Clone, Copy, Debug, PartialEq, Eq, Structural)]
pub struct WriteCommand {
    pub handle: u64,
    pub slave: u8,
    pub register: u16,
    pub value: u16,
    pub restore_slave: u8,
}

/// The link state after a read ends with `event`: a transport failure drops
/// the link; an answer or a timeout leaves it as it was.
pub open spec fn state_after_read(s: LinkState, event: ReadEvent) -> LinkState {
    match event {
        ReadEvent::Failed => LinkState::Disconnected,
        _ => s,
    }
}

/// What a read that ends with `event` yields.
pub open spec fn read_result(event: ReadEvent) -> Result<Seq<u16>, ConnectionError> {
    match event {
        ReadEvent::Response(w) => Ok(w@),
        ReadEvent::Elapsed => Err(ConnectionError::TimedOut),
        ReadEvent::Failed => Err(ConnectionError::TransportFailure),
    }
}

pub open spec fn result_view(r: Result<Vec<u16>, ConnectionError>) -> Result<
    Seq<u16>,
    ConnectionError,
> {
    match r {
        Ok(w) => Ok(w@),
        Err(e) => Err(e),
    }
}

/// The handle that a request may use in state `s`.
pub open spec fn usable_handle(s: LinkState) -> Result<u64, ConnectionError> {
    match s {
        LinkState::Connected(h) => Ok(h),
        _ => Err(ConnectionError::NotConnected),
    }
}

/// The state after asking for a reconnect in state `s`, and what the request
/// gives: nothing while one is under way, else the handle to release first.
pub open spec fn reconnect_step(s: LinkState) -> (LinkState, Option<Option<u64>>) {
    match s {
        LinkState::Connecting => (s, None),
        LinkState::Connected(h) => (LinkState::Connecting, Some(Some(h))),
        LinkState::Disconnected => (LinkState::Connecting, Some(None)),
    }
}

/// The single logical link to the bus, shared by every slave proxy.
#[derive(Clone, Copy, Debug, PartialEq, Eq, Structural)]
pub struct SharedConnection {
    pub state: LinkState,
}

impl SharedConnection {
    /// A link that is not connected yet.
    pub fn new() -> (r: Self)
        ensures
            r.state == LinkState::Disconnected,
    {
        SharedConnection { state: LinkState::Disconnected }
    }

    pub fn is_connected(&self) -> (r: bool)
        ensures
            r == self.state is Connected,
    {
        match self.state {
            LinkState::Connected(_) => true,
            _ => false,
        }
    }

    /// The handle for the next request, or `NotConnected`.
    pub fn handle(&self) -> (r: Result<u64, ConnectionError>)
        ensures
            r == usable_handle(self.state),
    {
        match self.state {
            LinkState::Connected(h) => Ok(h),
            _ => Err(ConnectionError::NotConnected),
        }
    }

    /// Starts a reconnect. While one is under way this does nothing and
    /// returns `None`. Otherwise the link is `Connecting` and the result holds
    /// the handle to release first, if there was one.
    pub fn begin_reconnect(&mut self) -> (r: Option<Option<u64>>)
        ensures
            (final(self).state, r) == reconnect_step(old(self).state),
            old(self).state is Connecting ==> r is None && *final(self) == *old(self),
            !(old(self).state is Connecting) ==> final(self).state == LinkState::Connecting
                && r == Some(
                match old(self).state {
                    LinkState::Connected(h) => Some(h),
                    _ => None::<u64>,
                },
            ),
    {
        match self.state {
            LinkState::Connecting => None,
            LinkState::Connected(h) => {
                self.state = LinkState::Connecting;
                Some(Some(h))
            },
            LinkState::Disconnected => {
                self.state = LinkState::Connecting;
                Some(None)
            },
        }
    }

    /// Ends a reconnect with what establishing the link gave: the new handle
    /// replaces the state, and a failure leaves the link disconnected.
    pub fn finish_reconnect(&mut self, outcome: Result<u64, ConnectionError>) -> (r: Result<
        (),
        ConnectionError,
    >)
        ensures
            outcome matches Ok(h) ==> final(self).state == LinkState::Connected(h) && r is Ok,
            outcome matches Err(e) ==> final(self).state == LinkState::Disconnected && r == Err::<
                (),
                ConnectionError,
            >(e),
    {
        match outcome {
            Ok(h) => {
                self.state = LinkState::Connected(h);
                Ok(())
            },
            Err(e) => {
                self.state = LinkState::Disconnected;
                Err(e)
            },
        }
    }

    /// Ends a read with what the caller observed.
    pub fn complete_read(&mut self, event: ReadEvent) -> (r: Result<Vec<u16>, ConnectionError>)
        ensures
            final(self).state == state_after_read(old(self).state, event),
            result_view(r) == read_result(event),
    {
        match event {
            ReadEvent::Response(words) => Ok(words),
            ReadEvent::Elapsed => Err(ConnectionError::TimedOut),
            ReadEvent::Failed => {
                self.state = LinkState::Disconnected;
                Err(ConnectionError::TransportFailure)
            },
        }
    }
}

/// A timed-out read leaves the link as it was, so the next read on it is
/// issued on the same handle and succeeds once the answer comes in time.
pub proof fn lemma_timeout_keeps_link(s: LinkState, words: Vec<u16>)
    requires
        s is Connected,
    ensures
        read_result(ReadEvent::Elapsed) == Err::<Seq<u16>, ConnectionError>(
            ConnectionError::TimedOut,
        ),
        state_after_read(s, ReadEvent::Elapsed) == s,
        usable_handle(state_after_read(s, ReadEvent::Elapsed)) == usable_handle(s),
        usable_handle(s) is Ok,
        read_result(ReadEvent::Response(words)) == Ok::<Seq<u16>, ConnectionError>(words@),
{
}

/// The addressing façade for one slave over the shared link.
#[derive(Clone, Copy, Debug, PartialEq, Eq, Structural)]
pub struct SlaveProxy {
    pub slave: u8,
}

impl SlaveProxy {
    pub fn new(slave: u8) -> (r: Self)
        ensures
            r.slave == slave,
    {
        SlaveProxy { slave }
    }

    pub fn slave(&self) -> (r: u8)
        ensures
            r == self.slave,
    {
        self.slave
    }

    /// Starts a reconnect of the shared link; see
    /// [`SharedConnection::begin_reconnect`].
    pub fn reconnect(&self, link: &mut SharedConnection) -> (r: Option<Option<u64>>)
        ensures
            old(link).state is Connecting ==> r is None && *final(link) == *old(link),
            !(old(link).state is Connecting) ==> final(link).state == LinkState::Connecting
                && r == Some(
                match old(link).state {
                    LinkState::Connected(h) => Some(h),
                    _ => None::<u64>,
                },
            ),
    {
        link.begin_reconnect()
    }

    /// The read of `reg_count` holding registers from `reg_start` of this
    /// slave; `NotConnected` without any I/O where the link is down.
    pub fn read_generic(
        &self,
        link: &SharedConnection,
        timeout_ms: Option<u64>,
        reg_start: u16,
        reg_count: u16,
    ) -> (r: Result<ReadCommand, ConnectionError>)
        ensures
            match usable_handle(link.state) {
                Ok(h) => r == Ok::<ReadCommand, ConnectionError>(
                    ReadCommand {
                        handle: h,
                        slave: self.slave,
                        address: reg_start,
                        count: reg_count,
                        timeout_ms,
                    },
                ),
                Err(e) => r == Err::<ReadCommand, ConnectionError>(e),
            },
    {
        let h = match link.handle() {
            Ok(h) => h,
            Err(e) => return Err(e),
        };
        Ok(ReadCommand { handle: h, slave: self.slave, address: reg_start, count: reg_count, timeout_ms })
    }

    /// The broadcast write that assigns this proxy's slave address to every
    /// connected device.
    pub fn broadcast_slave(&self, link: &SharedConnection) -> (r: Result<
        WriteCommand,
        ConnectionError,
    >)
        ensures
            match usable_handle(link.state) {
                Ok(h) => r == Ok::<WriteCommand, ConnectionError>(
                    WriteCommand {
                        handle: h,
                        slave: BROADCAST_SLAVE_ADDR,
                        register: BROADCAST_REG_ADDR,
                        value: self.slave as u16,
                        restore_slave: self.slave,
                    },
                ),
                Err(e) => r == Err::<WriteCommand, ConnectionError>(e),
            },
    {
        let h = match link.handle() {
            Ok(h) => h,
            Err(e) => return Err(e),
        };
        Ok(
            WriteCommand {
                handle: h,
                slave: BROADCAST_SLAVE_ADDR,
                register: BROADCAST_REG_ADDR,
                value: self.slave as u16,
                restore_slave: self.slave,
            },
        )
    }
}

} // verus!
