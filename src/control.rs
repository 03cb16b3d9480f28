//! The polling loop: on each tick it reads the register under the cursor,
//! decodes it by the type the register map gives, keeps the latest value of
//! each type family, and recovers from failures without stopping.
//!
//! Each tick is split in two steps around the read itself, which the caller
//! performs: [`ControlLoop::start_tick`] says what to read, and
//! [`ControlLoop::finish_tick`] takes what the read gave.

use vstd::prelude::*;
use crate::connection::{
    ConnectionError, LinkState, ReadCommand, ReadEvent, SharedConnection, SlaveProxy,
    reconnect_step, state_after_read, usable_handle,
};
use crate::decode::{DecodeError, Reading, decode_reading, decoded_as};
use crate::regmap::{ConfigError, RegisterMap, TypeTag};
use crate::units::{Float, Generic, RawCounts, Register};

verus! {

/// The cursor position after `c` in a list of `len` addresses.
pub open spec fn advance(c: int, len: int) -> int {
    (c + 1) % len
}

/// The cursor position after `n` steps from `c`.
pub open spec fn advance_n(c: int, len: int, n: nat) -> int
    decreases n,
{
    if n == 0 {
        c
    } else {
        advance(advance_n(c, len, (n - 1) as nat), len)
    }
}

/// The slave to poll, its timing, the addresses to poll in turn and the
/// cursor into them.
#[derive(Clone, Debug)]
pub struct SlaveConfig {
    pub slave: u8,
    pub cycle_time_ms: u64,
    pub timeout_ms: u64,
    pub read_index: usize,
    pub regs: Vec<u16>,
}

impl SlaveConfig {
    /// There is an address to poll and the cursor points at one.
    pub open spec fn wf(&self) -> bool {
        0 < self.regs@.len() && self.read_index < self.regs@.len()
    }

    /// The configuration with the cursor on the first address; `None` where
    /// there is no address to poll.
    pub fn new(slave: u8, cycle_time_ms: u64, timeout_ms: u64, regs: Vec<u16>) -> (r: Option<Self>)
        ensures
            regs@.len() == 0 ==> r is None,
            regs@.len() > 0 ==> (r matches Some(c) && c.wf() && c.slave == slave && c.cycle_time_ms
                == cycle_time_ms && c.timeout_ms == timeout_ms && c.read_index == 0 && c.regs@
                == regs@),
    {
        if regs.len() == 0 {
            None
        } else {
            Some(SlaveConfig { slave, cycle_time_ms, timeout_ms, read_index: 0, regs })
        }
    }

    /// The address under the cursor.
    pub fn current(&self) -> (r: u16)
        requires
            self.wf(),
        ensures
            r == self.regs@[self.read_index as int],
    {
        self.regs[self.read_index]
    }

    /// Moves the cursor one address on, from the last back to the first.
    pub fn next(&mut self)
        requires
            old(self).wf(),
        ensures
            final(self).wf(),
            final(self).read_index == advance(
                old(self).read_index as int,
                old(self).regs@.len() as int,
            ),
            final(self).regs@ == old(self).regs@,
            final(self).slave == old(self).slave,
            final(self).cycle_time_ms == old(self).cycle_time_ms,
            final(self).timeout_ms == old(self).timeout_ms,
    {
        let len = self.regs.len();
        self.read_index = (self.read_index + 1) % len;
    }

    /// Appends addresses to poll after those already there.
    pub fn add_regs(&mut self, regs: Vec<u16>)
        ensures
            final(self).regs@ == old(self).regs@ + regs@,
            final(self).read_index == old(self).read_index,
            final(self).slave == old(self).slave,
            final(self).cycle_time_ms == old(self).cycle_time_ms,
            final(self).timeout_ms == old(self).timeout_ms,
    {
        let mut i: usize = 0;
        while i < regs.len()
            invariant
                i <= regs@.len(),
                self.regs@ == old(self).regs@ + regs@.subrange(0, i as int),
                self.read_index == old(self).read_index,
                self.slave == old(self).slave,
                self.cycle_time_ms == old(self).cycle_time_ms,
                self.timeout_ms == old(self).timeout_ms,
            decreases regs@.len() - i,
        {
            self.regs.push(regs[i]);
            assert(regs@.subrange(0, i + 1) =~= regs@.subrange(0, i as int).push(regs@[i as int]));
            i = i + 1;
        }
        assert(regs@.subrange(0, i as int) =~= regs@);
    }
}

/// A decoded value with the time it was taken (milliseconds since the
/// epoch) and the address it came from.
#[derive(Clone, Debug, PartialEq)]
pub struct Measurement<T> {
    pub ts_ms: i64,
    pub val: T,
    pub reg: u16,
}

impl<T> Measurement<T> {
    pub fn new(val: T, reg: u16, ts_ms: i64) -> (r: Self)
        ensures
            r == (Measurement { ts_ms, val, reg }),
    {
        Measurement { ts_ms, val, reg }
    }
}

/// The latest measurement of each type family.
#[derive(Clone, Debug, PartialEq)]
pub struct Measurements {
    pub generic: Option<Measurement<Generic>>,
    pub register: Option<Measurement<Register>>,
    pub float: Option<Measurement<Float>>,
    pub raw: Option<Measurement<RawCounts>>,
}

impl Measurements {
    pub fn new() -> (r: Self)
        ensures
            r.generic is None && r.register is None && r.float is None && r.raw is None,
    {
        Measurements { generic: None, register: None, float: None, raw: None }
    }

    /// The cache after `reading` from `reg` at `ts_ms`: only its family's
    /// slot changes.
    pub open spec fn recorded(self, reading: Reading, reg: u16, ts_ms: i64) -> Self {
        match reading {
            Reading::Text(v) => Measurements {
                generic: Some(Measurement { ts_ms, val: v, reg }),
                ..self
            },
            Reading::Words(v) => Measurements {
                register: Some(Measurement { ts_ms, val: v, reg }),
                ..self
            },
            Reading::Float(v) => Measurements {
                float: Some(Measurement { ts_ms, val: v, reg }),
                ..self
            },
            Reading::Raw(v) => Measurements { raw: Some(Measurement { ts_ms, val: v, reg }), ..self },
        }
    }

    /// Stores a reading in its family's slot.
    pub fn record(&mut self, reading: Reading, reg: u16, ts_ms: i64)
        ensures
            *final(self) == old(self).recorded(reading, reg, ts_ms),
    {
        match reading {
            Reading::Text(v) => self.generic = Some(Measurement::new(v, reg, ts_ms)),
            Reading::Words(v) => self.register = Some(Measurement::new(v, reg, ts_ms)),
            Reading::Float(v) => self.float = Some(Measurement::new(v, reg, ts_ms)),
            Reading::Raw(v) => self.raw = Some(Measurement::new(v, reg, ts_ms)),
        }
    }
}

/// What the caller does for the tick that [`ControlLoop::start_tick`] began.
#[derive(Clone, Copy, Debug, PartialEq, Eq, Structural)]
pub enum TickStart {
    /// Perform this read and hand its outcome to
    /// [`ControlLoop::finish_tick`].
    Read(ReadCommand),
    /// No read could be issued; the tick is over. Where `reconnect` is
    /// `Some`, release the handle it holds, if any, establish a new link and
    /// hand the outcome to [`ControlLoop::connection_established`].
    Failed { error: ConnectionError, reconnect: Option<Option<u64>> },
}

/// How a tick ended.
#[derive(Clone, Copy, Debug, PartialEq, Eq, Structural)]
pub enum TickReport {
    /// A value of this type was decoded and stored.
    Recorded(TypeTag),
    /// The words came but could not be decoded; the link is left alone.
    DecodeFailed(DecodeError),
    /// The read failed. Where `reconnect` is `Some`, release the handle it
    /// holds, if any, establish a new link and hand the outcome to
    /// [`ControlLoop::connection_established`].
    ReadFailed { error: ConnectionError, reconnect: Option<Option<u64>> },
}

/// The polling loop of one slave over the shared link.
pub struct ControlLoop {
    pub config: SlaveConfig,
    pub map: RegisterMap,
    pub proxy: SlaveProxy,
    pub link: SharedConnection,
    pub measurements: Measurements,
}

impl ControlLoop {
    pub open spec fn wf(&self) -> bool {
        self.config.wf()
    }

    /// The address under the cursor.
    pub open spec fn spec_current(&self) -> u16 {
        self.config.regs@[self.config.read_index as int]
    }

    /// A loop with a disconnected link and no measurement yet.
    pub fn new(config: SlaveConfig, map: RegisterMap) -> (r: Self)
        requires
            config.wf(),
        ensures
            r.wf(),
            r.config.regs@ == config.regs@,
            r.config.read_index == config.read_index,
            r.config.slave == config.slave,
            r.config.timeout_ms == config.timeout_ms,
            r.map@ == map@,
            r.proxy.slave == config.slave,
            r.link.state == LinkState::Disconnected,
            r.measurements.generic is None && r.measurements.register is None
                && r.measurements.float is None && r.measurements.raw is None,
    {
        let proxy = SlaveProxy::new(config.slave);
        ControlLoop {
            config,
            map,
            proxy,
            link: SharedConnection::new(),
            measurements: Measurements::new(),
        }
    }

    /// Starts a reconnect of the link; see
    /// [`SharedConnection::begin_reconnect`].
    pub fn reconnect(&mut self) -> (r: Option<Option<u64>>)
        ensures
            (final(self).link.state, r) == reconnect_step(old(self).link.state),
            final(self).config == old(self).config,
            final(self).map == old(self).map,
            final(self).proxy == old(self).proxy,
            final(self).measurements == old(self).measurements,
    {
        self.proxy.reconnect(&mut self.link)
    }

    /// Ends a reconnect with what establishing the link gave; a failure is
    /// returned for the caller to log, and the next tick tries again.
    pub fn connection_established(&mut self, outcome: Result<u64, ConnectionError>) -> (r: Result<
        (),
        ConnectionError,
    >)
        ensures
            outcome matches Ok(h) ==> final(self).link.state == LinkState::Connected(h) && r is Ok,
            outcome matches Err(e) ==> final(self).link.state == LinkState::Disconnected && r
                == Err::<(), ConnectionError>(e),
            final(self).config == old(self).config,
            final(self).map == old(self).map,
            final(self).proxy == old(self).proxy,
            final(self).measurements == old(self).measurements,
    {
        self.link.finish_reconnect(outcome)
    }

    /// Begins a tick on the address under the cursor. An address that the
    /// map lacks is fatal: `MissingMapEntry`, before any I/O and with nothing
    /// changed. Over a live link the tick reads the entry's words; over a
    /// dead one it ends at once with `NotConnected`, a reconnect and the
    /// cursor moved on.
    pub fn start_tick(&mut self) -> (r: Result<TickStart, ConfigError>)
        requires
            old(self).wf(),
        ensures
            final(self).wf(),
            ({
                let addr = old(self).spec_current();
                if !old(self).map@.contains_key(addr) {
                    r == Err::<TickStart, ConfigError>(ConfigError::MissingMapEntry) && *final(self)
                        == *old(self)
                } else {
                    let e = old(self).map@[addr];
                    match usable_handle(old(self).link.state) {
                        Ok(h) => r == Ok::<TickStart, ConfigError>(
                            TickStart::Read(
                                ReadCommand {
                                    handle: h,
                                    slave: old(self).proxy.slave,
                                    address: addr,
                                    count: e.count,
                                    timeout_ms: Some(old(self).config.timeout_ms),
                                },
                            ),
                        ) && *final(self) == *old(self),
                        Err(err) => {
                            &&& r == Ok::<TickStart, ConfigError>(
                                TickStart::Failed {
                                    error: err,
                                    reconnect: reconnect_step(old(self).link.state).1,
                                },
                            )
                            &&& final(self).link.state == reconnect_step(old(self).link.state).0
                            &&& final(self).config.read_index == advance(
                                old(self).config.read_index as int,
                                old(self).config.regs@.len() as int,
                            )
                            &&& final(self).config.regs@ == old(self).config.regs@
                            &&& final(self).config.timeout_ms == old(self).config.timeout_ms
                            &&& final(self).map == old(self).map
                            &&& final(self).proxy == old(self).proxy
                            &&& final(self).measurements == old(self).measurements
                        },
                    }
                }
            }),
    {
        let addr = self.config.current();
        let entry = match self.map.lookup(addr) {
            Ok(e) => e,
            Err(e) => return Err(e),
        };
        match self.proxy.read_generic(&self.link, Some(self.config.timeout_ms), addr, entry.count) {
            Ok(cmd) => Ok(TickStart::Read(cmd)),
            Err(err) => {
                let rc = self.proxy.reconnect(&mut self.link);
                self.config.next();
                Ok(TickStart::Failed { error: err, reconnect: rc })
            },
        }
    }

    /// Ends the tick that [`ControlLoop::start_tick`] began with the outcome
    /// of its read. Words are decoded by the entry's type and a value is
    /// stored in its family's slot, the others kept; a failed read asks for a
    /// reconnect. Whatever happened, the cursor moves on.
    pub fn finish_tick(&mut self, event: ReadEvent, now_ms: i64) -> (r: Result<
        TickReport,
        ConfigError,
    >)
        requires
            old(self).wf(),
        ensures
            final(self).wf(),
            ({
                let addr = old(self).spec_current();
                if !old(self).map@.contains_key(addr) {
                    r == Err::<TickReport, ConfigError>(ConfigError::MissingMapEntry) && *final(self)
                        == *old(self)
                } else {
                    let e = old(self).map@[addr];
                    &&& final(self).config.read_index == advance(
                        old(self).config.read_index as int,
                        old(self).config.regs@.len() as int,
                    )
                    &&& final(self).config.regs@ == old(self).config.regs@
                    &&& final(self).config.timeout_ms == old(self).config.timeout_ms
                    &&& final(self).map == old(self).map
                    &&& final(self).proxy == old(self).proxy
                    &&& match event {
                        ReadEvent::Response(w) => {
                            &&& final(self).link == old(self).link
                            &&& exists|d|
                                #[trigger] decoded_as(e, w@, d) && match d {
                                    Ok(reading) => r == Ok::<TickReport, ConfigError>(
                                        TickReport::Recorded(e.tag),
                                    ) && final(self).measurements == old(
                                        self,
                                    ).measurements.recorded(reading, addr, now_ms),
                                    Err(de) => r == Ok::<TickReport, ConfigError>(
                                        TickReport::DecodeFailed(de),
                                    ) && final(self).measurements == old(self).measurements,
                                }
                        },
                        _ => {
                            let after = state_after_read(old(self).link.state, event);
                            let err = if event is Elapsed {
                                ConnectionError::TimedOut
                            } else {
                                ConnectionError::TransportFailure
                            };
                            &&& r == Ok::<TickReport, ConfigError>(
                                TickReport::ReadFailed {
                                    error: err,
                                    reconnect: reconnect_step(after).1,
                                },
                            )
                            &&& final(self).link.state == reconnect_step(after).0
                            &&& final(self).measurements == old(self).measurements
                        },
                    }
                }
            }),
    {
        let addr = self.config.current();
        let entry = match self.map.lookup(addr) {
            Ok(e) => e,
            Err(e) => return Err(e),
        };
        let report = match self.link.complete_read(event) {
            Ok(words) => match decode_reading(entry, words) {
                Ok(reading) => {
                    self.measurements.record(reading, addr, now_ms);
                    TickReport::Recorded(entry.tag)
                },
                Err(de) => TickReport::DecodeFailed(de),
            },
            Err(err) => {
                let rc = self.proxy.reconnect(&mut self.link);
                TickReport::ReadFailed { error: err, reconnect: rc }
            },
        };
        self.config.next();
        Ok(report)
    }
}

/// Round-robin closure: from any cursor position, as many steps as there are
/// addresses bring the cursor back where it started.
pub proof fn lemma_round_robin_closure(c: int, len: int)
    requires
        0 <= c < len,
    ensures
        advance_n(c, len, len as nat) == c,
{
    assert forall|k: nat| #[trigger] advance_n(c, len, k) == (c + k) % len by {
        lemma_advance_n(c, len, k);
    }
    vstd::arithmetic::div_mod::lemma_mod_add_multiples_vanish(c, len);
    vstd::arithmetic::div_mod::lemma_small_mod(c as nat, len as nat);
}

proof fn lemma_advance_n(c: int, len: int, k: nat)
    requires
        0 <= c < len,
    ensures
        advance_n(c, len, k) == (c + k) % len,
    decreases k,
{
    if k == 0 {
        vstd::arithmetic::div_mod::lemma_small_mod(c as nat, len as nat);
    } else {
        lemma_advance_n(c, len, (k - 1) as nat);
        vstd::arithmetic::div_mod::lemma_add_mod_noop(c + k - 1, 1, len);
        if len > 1 {
            vstd::arithmetic::div_mod::lemma_small_mod(1, len as nat);
        } else {
            assert((c + k - 1) % 1 == 0);
        }
    }
}

} // verus!
