//! The embedded controller's transaction engine.
//!
//! The controller is reached through two I/O ports, a data port and a
//! command port. A register of the controller is written in three port
//! writes, each made only after the controller has cleared its busy bit; a
//! command is a handful of register writes, the command register last, and a
//! fixed delay in which the controller carries it out.
//!
//! The engine does no input or output itself. It says what it needs next (a
//! reading of the clock, a port read, a port write, a sleep) as an
//! [`EcAction`], and is told what came of it as an [`EcEvent`].

use crate::error::{outcome, Error, ErrorView, IoFailure, IoFailureView, IoKind};
use vstd::prelude::*;

verus! {

/// The device through which the I/O ports are reached.
pub const PORT_DEVICE: &'static str = "/dev/port";

/// The port through which register numbers and values are handed over.
pub const EC_DATA_PORT: u64 = 0x62;

/// The port that takes command bytes and shows the controller's status.
pub const EC_CMD_PORT: u64 = 0x66;

/// The register that takes the command code; writing it starts the command.
pub const EC_FCMD: u8 = 0xF8;

/// The register that takes the data flag of a command.
pub const EC_FDAT: u8 = 0xF9;

/// The first buffer register.
pub const EC_FBUF: u8 = 0xFA;

/// The second buffer register.
pub const EC_FBF1: u8 = 0xFB;

/// The third buffer register.
pub const EC_FBF2: u8 = 0xFC;

/// The busy bit of the status byte: set while the controller has not yet
/// taken the last byte written to it.
pub const EC_IBF: u8 = 0x02;

/// The command byte that announces a register write.
pub const EC_WRITE: u8 = 0x81;

/// The command code that sets the colour.
pub const EC_SET_COLOR: u8 = 0xCA;

/// The command code that sets the brightness.
pub const EC_SET_BRIGHTNESS: u8 = 0xC4;

/// How long the engine waits for the busy bit to clear, in milliseconds.
pub const READY_TIMEOUT_MS: u64 = 200;

/// How long the engine sleeps between two looks at the busy bit, in
/// milliseconds.
pub const POLL_INTERVAL_MS: u64 = 1;

/// How long the controller is given to carry out a command, in milliseconds.
pub const SETTLE_MS: u64 = 50;

/// The highest brightness level.
pub const MAX_BRIGHTNESS: u8 = 9;

/// One byte written to one port.
#[derive(Debug, Clone, Copy, PartialEq, Eq, Structural)]
pub struct PortWrite {
    pub port: u64,
    pub value: u8,
}

/// What the engine needs from its host.
#[derive(Debug, Clone, Copy, PartialEq, Eq, Structural)]
pub enum EcAction {
    /// Read a clock that never runs backwards, in milliseconds.
    Clock,
    /// Read one byte from a port.
    Read { port: u64 },
    /// Write one byte to a port.
    Write { port: u64, value: u8 },
    /// Sleep for so many milliseconds.
    Sleep { millis: u64 },
}

/// What the host tells the engine.
#[derive(Debug, Clone, PartialEq, Eq)]
pub enum EcEvent {
    /// The clock's reading.
    Time { millis: u64 },
    /// The byte that was read from the port.
    Byte { value: u8 },
    /// The byte was written to the port.
    Written,
    /// The sleep is over.
    Slept,
    /// The port could not be read or written.
    Failed(IoFailure),
}

/// An `EcEvent` with the text of a failure as a sequence of characters.
pub enum EcEventView {
    Time { millis: u64 },
    Byte { value: u8 },
    Written,
    Slept,
    Failed(IoFailureView),
}

impl View for EcEvent {
    type V = EcEventView;

    open spec fn view(&self) -> EcEventView {
        match self {
            EcEvent::Time { millis } => EcEventView::Time { millis: *millis },
            EcEvent::Byte { value } => EcEventView::Byte { value: *value },
            EcEvent::Written => EcEventView::Written,
            EcEvent::Slept => EcEventView::Slept,
            EcEvent::Failed(failure) => EcEventView::Failed(failure@),
        }
    }
}

/// How far a transaction has come after an event.
#[derive(Debug, PartialEq, Eq)]
pub enum Progress {
    /// The transaction goes on, and the engine needs this next.
    Pending(EcAction),
    /// The transaction is over: every write was made and the delay has
    /// passed, or it was given up.
    Finished(Result<(), Error>),
    /// No transaction was in progress.
    Idle,
}

/// A `Progress` with the failure, if there is one, taken by its view.
pub enum ProgressView {
    Pending(EcAction),
    Finished(Result<(), ErrorView>),
    Idle,
}

impl View for Progress {
    type V = ProgressView;

    open spec fn view(&self) -> ProgressView {
        match self {
            Progress::Pending(action) => ProgressView::Pending(*action),
            Progress::Finished(Ok(())) => ProgressView::Finished(Ok(())),
            Progress::Finished(Err(e)) => ProgressView::Finished(Err(e@)),
            Progress::Idle => ProgressView::Idle,
        }
    }
}

/// Where the engine stands in a transaction.
#[derive(Debug, Clone, Copy, PartialEq, Eq, Structural)]
pub enum Phase {
    /// No transaction is in progress.
    Idle,
    /// The clock was asked for, to start the wait before a port write.
    Starting,
    /// The status byte was asked for.
    Polling,
    /// The controller was busy; the sleep before the next look was asked for.
    Pausing,
    /// The clock was asked for, to hold it against the deadline.
    Checking,
    /// The controller was ready; the port write was asked for.
    Writing,
    /// Every write was made; the delay after the command was asked for.
    Settling,
}

/// The three port writes that put `value` into the register `register`.
pub open spec fn register_write(register: u8, value: u8) -> Seq<PortWrite> {
    seq![
        PortWrite { port: EC_CMD_PORT, value: EC_WRITE },
        PortWrite { port: EC_DATA_PORT, value: register },
        PortWrite { port: EC_DATA_PORT, value },
    ]
}

/// The port writes for a register that a command may leave alone.
pub open spec fn optional_write(register: u8, value: Option<u8>) -> Seq<PortWrite> {
    match value {
        Some(v) => register_write(register, v),
        None => Seq::empty(),
    }
}

/// The port writes of a command: the data flag and the three buffer
/// registers, as far as they are given, then the command register.
pub open spec fn command_script(
    fcmd: u8,
    fdat: Option<u8>,
    fbuf: Option<u8>,
    fbf1: Option<u8>,
    fbf2: Option<u8>,
) -> Seq<PortWrite> {
    optional_write(EC_FDAT, fdat) + optional_write(EC_FBUF, fbuf) + optional_write(EC_FBF1, fbf1)
        + optional_write(EC_FBF2, fbf2) + register_write(EC_FCMD, fcmd)
}

/// The port writes that set the colour: blue goes to the first buffer
/// register, red to the second, green to the third.
pub open spec fn color_script(r: u8, g: u8, b: u8) -> Seq<PortWrite> {
    command_script(EC_SET_COLOR, Some(0x03u8), Some(b), Some(r), Some(g))
}

/// The byte that the controller takes for a brightness level: 0 for level 0,
/// else the level times 255/9, rounded to the nearest.
pub open spec fn brightness_byte(level: u8) -> u8 {
    if level == 0 {
        0
    } else {
        ((level * 255 + 4) / 9) as u8
    }
}

/// The port writes that set the brightness to the byte `value`.
pub open spec fn brightness_script(value: u8) -> Seq<PortWrite> {
    command_script(EC_SET_BRIGHTNESS, Some(0x02u8), Some(value), None, None)
}

/// Whether the status byte shows the controller ready for the next byte.
pub open spec fn ready(status: u8) -> bool {
    status & EC_IBF == 0
}

/// Whether a wait that began at `start` has run out at `now`.
pub open spec fn timed_out(start: u64, now: u64) -> bool {
    now - start >= READY_TIMEOUT_MS
}

/// The state of the engine: the port writes of the transaction, how many of
/// them were made, where the engine stands, and when its wait began.
pub struct EcView {
    pub script: Seq<PortWrite>,
    pub written: nat,
    pub phase: Phase,
    pub wait_start: u64,
}

impl EcView {
    /// While a transaction is in progress a write is still to be made,
    /// until the delay at its end.
    pub open spec fn wf(self) -> bool {
        match self.phase {
            Phase::Idle => self.written <= self.script.len(),
            Phase::Settling => self.written == self.script.len(),
            _ => self.written < self.script.len(),
        }
    }

    /// An engine that has nothing to do.
    pub open spec fn idle() -> EcView {
        EcView { script: Seq::empty(), written: 0, phase: Phase::Idle, wait_start: 0 }
    }

    /// A transaction at its start.
    pub open spec fn begun(script: Seq<PortWrite>) -> EcView {
        EcView { script, written: 0, phase: Phase::Starting, wait_start: 0 }
    }

    /// The state with the transaction over.
    pub open spec fn ended(self) -> EcView {
        EcView { phase: Phase::Idle, ..self }
    }

    /// Whether a transaction is in progress.
    pub open spec fn busy(self) -> bool {
        self.phase != Phase::Idle
    }

    /// What the engine is waiting for.
    pub open spec fn pending(self) -> Option<EcAction> {
        match self.phase {
            Phase::Idle => None,
            Phase::Starting => Some(EcAction::Clock),
            Phase::Polling => Some(EcAction::Read { port: EC_CMD_PORT }),
            Phase::Pausing => Some(EcAction::Sleep { millis: POLL_INTERVAL_MS }),
            Phase::Checking => Some(EcAction::Clock),
            Phase::Writing => Some(
                EcAction::Write {
                    port: self.script[self.written as int].port,
                    value: self.script[self.written as int].value,
                },
            ),
            Phase::Settling => Some(EcAction::Sleep { millis: SETTLE_MS }),
        }
    }

    /// The state in the phase `phase`.
    pub open spec fn at(self, phase: Phase) -> EcView {
        EcView { phase, ..self }
    }

    /// The state in the phase `phase`, with what the engine then waits for.
    pub open spec fn go(self, phase: Phase) -> (EcView, ProgressView) {
        (self.at(phase), ProgressView::Pending(self.at(phase).pending().unwrap()))
    }

    /// The state after a transaction has ended with `result`.
    pub open spec fn finish(self, result: Result<(), ErrorView>) -> (EcView, ProgressView) {
        (self.ended(), ProgressView::Finished(result))
    }

    /// What an event does to the engine.
    ///
    /// Before each port write the engine waits for the controller: it takes
    /// the time, then looks at the status byte, sleeps and looks again, until
    /// the busy bit is clear or the time is up. After the last write it
    /// sleeps once more and is done. A failure of the port ends the
    /// transaction. An event that answers nothing leaves the engine as it
    /// is, waiting for what it waited for.
    pub open spec fn next(self, event: EcEventView) -> (EcView, ProgressView) {
        match (self.phase, event) {
            (Phase::Idle, _) => (self, ProgressView::Idle),
            (_, EcEventView::Failed(failure)) => self.finish(Err(ErrorView::Io(failure.message))),
            (Phase::Starting, EcEventView::Time { millis }) => EcView {
                wait_start: millis,
                ..self
            }.go(Phase::Polling),
            (Phase::Polling, EcEventView::Byte { value }) => if ready(value) {
                self.go(Phase::Writing)
            } else {
                self.go(Phase::Pausing)
            },
            (Phase::Pausing, EcEventView::Slept) => self.go(Phase::Checking),
            (Phase::Checking, EcEventView::Time { millis }) => if timed_out(
                self.wait_start,
                millis,
            ) {
                self.finish(Err(ErrorView::EcTimeout))
            } else {
                self.go(Phase::Polling)
            },
            (Phase::Writing, EcEventView::Written) => {
                let after: EcView = EcView { written: self.written + 1, ..self };
                if after.written < after.script.len() {
                    after.go(Phase::Starting)
                } else {
                    after.go(Phase::Settling)
                }
            },
            (Phase::Settling, EcEventView::Slept) => self.finish(Ok(())),
            _ => (self, ProgressView::Pending(self.pending().unwrap())),
        }
    }
}

/// The engine that talks to the embedded controller.
pub struct EcPort {
    script: Vec<PortWrite>,
    written: usize,
    phase: Phase,
    wait_start: u64,
}

impl View for EcPort {
    type V = EcView;

    closed spec fn view(&self) -> EcView {
        EcView {
            script: self.script@,
            written: self.written as nat,
            phase: self.phase,
            wait_start: self.wait_start,
        }
    }
}

/// What comes of opening the port device: an idle engine, or the failure.
/// A refusal by the operating system is told apart from other failures.
pub open spec fn opened(outcome: Result<(), IoFailureView>) -> Result<EcView, ErrorView> {
    match outcome {
        Ok(()) => Ok(EcView::idle()),
        Err(failure) => if failure.kind == IoKind::PermissionDenied {
            Err(ErrorView::Permission)
        } else {
            Err(ErrorView::Io(failure.message))
        },
    }
}

/// What an attempt at input or output came to, a failure taken by its view.
pub open spec fn failure_view(attempt: Result<(), IoFailure>) -> Result<(), IoFailureView> {
    match attempt {
        Ok(()) => Ok(()),
        Err(failure) => Err(failure@),
    }
}

/// What opening the port device gave, engine and failure taken by their views.
pub open spec fn opening(r: Result<EcPort, Error>) -> Result<EcView, ErrorView> {
    match r {
        Ok(ec) => Ok(ec@),
        Err(e) => Err(e@),
    }
}

impl EcPort {
    /// An engine is well formed at all times.
    #[verifier::type_invariant]
    pub open spec fn well_formed(self) -> bool {
        self@.wf()
    }

    /// The engine for a port device that the host has opened, or the
    /// failure with which opening it ended.
    pub fn open(attempt: Result<(), IoFailure>) -> (r: Result<EcPort, Error>)
        ensures
            opening(r) == opened(failure_view(attempt)),
    {
        match attempt {
            Ok(()) => Ok(Self::idle()),
            Err(failure) => {
                if failure.kind == IoKind::PermissionDenied {
                    Err(Error::Permission)
                } else {
                    Err(Error::Io(failure.message))
                }
            },
        }
    }

    /// An engine that has nothing to do.
    pub(crate) fn idle() -> (ec: EcPort)
        ensures
            ec@ == EcView::idle(),
    {
        EcPort { script: Vec::new(), written: 0, phase: Phase::Idle, wait_start: 0 }
    }

    /// Whether a transaction is in progress.
    pub fn busy(&self) -> (b: bool)
        ensures
            b == self@.busy(),
    {
        self.phase != Phase::Idle
    }

    /// How many port writes of the transaction were made.
    pub fn written(&self) -> (n: usize)
        ensures
            n == self@.written,
    {
        self.written
    }

    /// What the engine is waiting for, if a transaction is in progress.
    pub fn pending(&self) -> (action: Option<EcAction>)
        ensures
            action == self@.pending(),
            self@.wf(),
    {
        proof {
            use_type_invariant(self);
        }
        match self.phase {
            Phase::Idle => None,
            Phase::Starting => Some(EcAction::Clock),
            Phase::Polling => Some(EcAction::Read { port: EC_CMD_PORT }),
            Phase::Pausing => Some(EcAction::Sleep { millis: POLL_INTERVAL_MS }),
            Phase::Checking => Some(EcAction::Clock),
            Phase::Writing => {
                let write: PortWrite = self.script[self.written];
                Some(EcAction::Write { port: write.port, value: write.value })
            },
            Phase::Settling => Some(EcAction::Sleep { millis: SETTLE_MS }),
        }
    }

    /// Adds to `script` the three port writes that put `value` into the
    /// register `register`.
    fn ec_write(script: &mut Vec<PortWrite>, register: u8, value: u8)
        ensures
            final(script)@ == old(script)@ + register_write(register, value),
    {
        script.push(PortWrite { port: EC_CMD_PORT, value: EC_WRITE });
        script.push(PortWrite { port: EC_DATA_PORT, value: register });
        script.push(PortWrite { port: EC_DATA_PORT, value });
        assert(script@ =~= old(script)@ + register_write(register, value));
    }

    /// Adds to `script` the port writes for a register that may be left
    /// alone.
    fn ec_write_optional(script: &mut Vec<PortWrite>, register: u8, value: Option<u8>)
        ensures
            final(script)@ == old(script)@ + optional_write(register, value),
    {
        match value {
            Some(v) => {
                Self::ec_write(script, register, v);
            },
            None => {
                assert(script@ =~= old(script)@ + optional_write(register, value));
            },
        }
    }

    /// Begins the command `fcmd` with the registers given. A transaction
    /// that was in progress is dropped.
    fn ec_cmd(
        &mut self,
        fcmd: u8,
        fdat: Option<u8>,
        fbuf: Option<u8>,
        fbf1: Option<u8>,
        fbf2: Option<u8>,
    ) -> (first: EcAction)
        ensures
            final(self)@ == EcView::begun(command_script(fcmd, fdat, fbuf, fbf1, fbf2)),
            first == EcAction::Clock,
    {
        let mut script: Vec<PortWrite> = Vec::new();
        assert(script@ =~= Seq::<PortWrite>::empty());
        Self::ec_write_optional(&mut script, EC_FDAT, fdat);
        Self::ec_write_optional(&mut script, EC_FBUF, fbuf);
        Self::ec_write_optional(&mut script, EC_FBF1, fbf1);
        Self::ec_write_optional(&mut script, EC_FBF2, fbf2);
        Self::ec_write(&mut script, EC_FCMD, fcmd);
        assert(script@ =~= command_script(fcmd, fdat, fbuf, fbf1, fbf2));
        *self = EcPort { script, written: 0, phase: Phase::Starting, wait_start: 0 };
        EcAction::Clock
    }

    /// Begins setting the colour, and says what the engine needs first. A
    /// transaction that was in progress is dropped.
    pub fn set_color(&mut self, r: u8, g: u8, b: u8) -> (first: EcAction)
        ensures
            final(self)@ == EcView::begun(color_script(r, g, b)),
            final(self)@.wf(),
            first == EcAction::Clock,
    {
        self.ec_cmd(EC_SET_COLOR, Some(0x03), Some(b), Some(r), Some(g))
    }

    /// Begins setting the brightness to `level`, and says what the engine
    /// needs first. A level above 9 is refused, and the engine is left as it
    /// was; else a transaction that was in progress is dropped.
    pub fn set_brightness(&mut self, level: u8) -> (r: Result<EcAction, Error>)
        ensures
            level > MAX_BRIGHTNESS ==> final(self)@ == old(self)@ && outcome(r) == Err::<
                EcAction,
                ErrorView,
            >(ErrorView::InvalidBrightness(level)),
            level <= MAX_BRIGHTNESS ==> final(self)@ == EcView::begun(
                brightness_script(brightness_byte(level)),
            ) && outcome(r) == Ok::<EcAction, ErrorView>(EcAction::Clock),
            final(self)@.wf(),
    {
        proof {
            use_type_invariant(&*self);
        }
        if level > MAX_BRIGHTNESS {
            return Err(Error::InvalidBrightness(level));
        }
        let value: u8 = if level == 0 {
            0
        } else {
            ((level as u16 * 255 + 4) / 9) as u8
        };
        Ok(self.ec_cmd(EC_SET_BRIGHTNESS, Some(0x02), Some(value), None, None))
    }

    /// Begins turning the backlight on at full brightness.
    pub fn turn_on(&mut self) -> (first: EcAction)
        ensures
            final(self)@ == EcView::begun(brightness_script(0xFF)),
            final(self)@.wf(),
            first == EcAction::Clock,
    {
        self.ec_cmd(EC_SET_BRIGHTNESS, Some(0x02), Some(0xFF), None, None)
    }

    /// Begins turning the backlight off.
    pub fn turn_off(&mut self) -> (first: EcAction)
        ensures
            final(self)@ == EcView::begun(brightness_script(0x00)),
            final(self)@.wf(),
            first == EcAction::Clock,
    {
        self.ec_cmd(EC_SET_BRIGHTNESS, Some(0x02), Some(0x00), None, None)
    }

    /// Moves to `phase` and says what the engine then waits for.
    fn go(&mut self, phase: Phase) -> (progress: Progress)
        requires
            phase != Phase::Idle,
            old(self)@.at(phase).wf(),
        ensures
            (final(self)@, progress@) == old(self)@.go(phase),
    {
        self.phase = phase;
        match self.pending() {
            Some(action) => Progress::Pending(action),
            None => Progress::Idle,
        }
    }

    /// Ends the transaction with `result`.
    fn finish(&mut self, result: Result<(), Error>) -> (progress: Progress)
        ensures
            (final(self)@, progress@) == old(self)@.finish(outcome(result)),
    {
        proof {
            use_type_invariant(&*self);
        }
        self.phase = Phase::Idle;
        Progress::Finished(result)
    }

    /// The wait for the controller: what an event does while the engine
    /// waits for the busy bit to clear.
    fn ec_wait_ibf(&mut self, event: EcEvent) -> (progress: Progress)
        requires
            old(self)@.phase == Phase::Starting || old(self)@.phase == Phase::Polling || old(
                self,
            )@.phase == Phase::Pausing || old(self)@.phase == Phase::Checking,
            !(event is Failed),
        ensures
            (final(self)@, progress@) == old(self)@.next(event@),
    {
        proof {
            use_type_invariant(&*self);
        }
        match (self.phase, event) {
            (Phase::Starting, EcEvent::Time { millis }) => {
                self.wait_start = millis;
                self.go(Phase::Polling)
            },
            (Phase::Polling, EcEvent::Byte { value }) => {
                if value & EC_IBF == 0 {
                    self.go(Phase::Writing)
                } else {
                    self.go(Phase::Pausing)
                }
            },
            (Phase::Pausing, EcEvent::Slept) => self.go(Phase::Checking),
            (Phase::Checking, EcEvent::Time { millis }) => {
                if millis >= self.wait_start && millis - self.wait_start >= READY_TIMEOUT_MS {
                    self.finish(Err(Error::EcTimeout))
                } else {
                    self.go(Phase::Polling)
                }
            },
            _ => self.go(self.phase),
        }
    }

    /// Takes an event and says how far the transaction has come.
    pub fn step(&mut self, event: EcEvent) -> (progress: Progress)
        ensures
            (final(self)@, progress@) == old(self)@.next(event@),
            final(self)@.wf(),
    {
        proof {
            use_type_invariant(&*self);
        }
        match (self.phase, event) {
            (Phase::Idle, _) => Progress::Idle,
            (_, EcEvent::Failed(failure)) => self.finish(Err(Error::from(failure))),
            (Phase::Writing, EcEvent::Written) => {
                let length: usize = self.script.len();
                self.phase = Phase::Idle;
                self.written = self.written + 1;
                if self.written < length {
                    self.go(Phase::Starting)
                } else {
                    self.go(Phase::Settling)
                }
            },
            (Phase::Settling, EcEvent::Slept) => self.finish(Ok(())),
            (Phase::Writing, _) => self.go(Phase::Writing),
            (Phase::Settling, _) => self.go(Phase::Settling),
            (_, event) => self.ec_wait_ibf(event),
        }
    }
}

/// The byte for a brightness level is the level times 255/9, rounded to the
/// nearest whole number: the two differ by less than a half. Level 0 gives
/// 0, level 9 gives 255.
pub proof fn lemma_brightness_byte_is_rounded(level: u8)
    requires
        level <= MAX_BRIGHTNESS,
    ensures
        -9 < 2 * (9 * brightness_byte(level) - 255 * level) < 9,
        level == 0 ==> brightness_byte(level) == 0,
        level == MAX_BRIGHTNESS ==> brightness_byte(level) == 255,
{
}

/// To turn the backlight on is to set level 9, and to turn it off is to set
/// level 0: the port writes are the same.
pub proof fn lemma_on_and_off_are_levels()
    ensures
        brightness_script(0xFF) == brightness_script(brightness_byte(MAX_BRIGHTNESS)),
        brightness_script(0x00) == brightness_script(brightness_byte(0)),
{
}

/// A brighter level never gets a smaller byte.
pub proof fn lemma_brightness_byte_grows(low: u8, high: u8)
    requires
        low <= high <= MAX_BRIGHTNESS,
    ensures
        brightness_byte(low) <= brightness_byte(high),
{
}

/// An event leaves the engine well formed.
pub proof fn lemma_next_keeps_wf(v: EcView, event: EcEventView)
    requires
        v.wf(),
    ensures
        v.next(event).0.wf(),
        v.next(event).1 is Idle <==> !v.busy(),
        v.next(event).1 is Finished ==> !v.next(event).0.busy(),
        v.next(event).1 is Pending ==> v.next(event).0.busy(),
        v.next(event).0.script == v.script,
{
}

/// A port write is asked for only when the controller has shown itself
/// ready: in answer to a status byte without the busy bit, or again while
/// the same write is still to be done. It is the write that is due, and a
/// write counts as made only when the host reports it done.
pub proof fn lemma_writes_wait_for_the_controller(v: EcView, event: EcEventView)
    requires
        v.wf(),
        v.next(event).1 is Pending,
        v.next(event).1->Pending_0 is Write,
    ensures
        v.phase == Phase::Writing || (v.phase == Phase::Polling && event is Byte && ready(
            event->Byte_value,
        )),
        v.next(event).0.written == v.written,
        v.next(event).1->Pending_0 == (EcAction::Write {
            port: v.script[v.written as int].port,
            value: v.script[v.written as int].value,
        }),
{
}

/// The count of the writes made goes up by one with each write that the
/// host reports done, and with nothing else.
pub proof fn lemma_writes_are_counted(v: EcView, event: EcEventView)
    requires
        v.wf(),
    ensures
        v.phase == Phase::Writing && event is Written ==> v.next(event).0.written == v.written + 1,
        !(v.phase == Phase::Writing && event is Written) ==> v.next(event).0.written == v.written,
{
}

/// A wait that finds the controller ready at the first look is over at
/// once: the engine takes the time, reads the status once, and asks for the
/// port write that is due.
pub proof fn lemma_ready_at_first_look(v: EcView, now: u64, status: u8)
    requires
        v.wf(),
        v.phase == Phase::Starting,
        ready(status),
    ensures
        v.next(EcEventView::Time { millis: now }).1 == ProgressView::Pending(
            EcAction::Read { port: EC_CMD_PORT },
        ),
        v.next(EcEventView::Time { millis: now }).0.next(EcEventView::Byte { value: status }).1
            == ProgressView::Pending(
            EcAction::Write {
                port: v.script[v.written as int].port,
                value: v.script[v.written as int].value,
            },
        ),
{
}

/// A look that finds the controller busy: the engine sleeps and takes the
/// time. If the wait has then lasted its 200 ms, the transaction ends with a
/// timeout and no further port write; else the engine looks again, and is
/// where it was before the look.
pub proof fn lemma_busy_look(v: EcView, status: u8, now: u64)
    requires
        v.wf(),
        v.phase == Phase::Polling,
        !ready(status),
    ensures
        ({
            let looked: (EcView, ProgressView) = v.next(EcEventView::Byte { value: status });
            let slept: (EcView, ProgressView) = looked.0.next(EcEventView::Slept);
            let checked: (EcView, ProgressView) = slept.0.next(EcEventView::Time { millis: now });
            &&& looked.1 == ProgressView::Pending(EcAction::Sleep { millis: POLL_INTERVAL_MS })
            &&& slept.1 == ProgressView::Pending(EcAction::Clock)
            &&& timed_out(v.wait_start, now) ==> checked == (
                v.ended(),
                ProgressView::Finished(Err(ErrorView::EcTimeout)),
            )
            &&& !timed_out(v.wait_start, now) ==> checked == (
                v,
                ProgressView::Pending(EcAction::Read { port: EC_CMD_PORT }),
            )
        }),
{
}

/// The state after a run of events.
pub open spec fn after(v: EcView, events: Seq<EcEventView>) -> EcView
    decreases events.len(),
{
    if events.len() == 0 {
        v
    } else {
        after(v.next(events[0]).0, events.drop_first())
    }
}

/// What the engine answers to a run of events, one answer for each.
pub open spec fn answers(v: EcView, events: Seq<EcEventView>) -> Seq<ProgressView>
    decreases events.len(),
{
    if events.len() == 0 {
        Seq::empty()
    } else {
        seq![v.next(events[0]).1] + answers(v.next(events[0]).0, events.drop_first())
    }
}

/// The events of a transaction that finds the controller ready at every
/// first look, for `writes` port writes that are still to be made: for each
/// the time, a status byte without the busy bit, and the write done; at the
/// end, the sleep done.
pub open spec fn prompt_events(writes: nat) -> Seq<EcEventView>
    decreases writes,
{
    if writes == 0 {
        seq![EcEventView::Slept]
    } else {
        seq![
            EcEventView::Time { millis: 0 },
            EcEventView::Byte { value: 0 },
            EcEventView::Written,
        ] + prompt_events((writes - 1) as nat)
    }
}

/// What the engine is to answer to `prompt_events` when the port writes of
/// `script` from place `from` on are still to be made: for each write a look
/// at the status, the write itself, and what starts the next, the clock for
/// another write or the delay after the last; at the end, success.
pub open spec fn prompt_answers(script: Seq<PortWrite>, from: nat) -> Seq<ProgressView>
    decreases script.len() - from,
{
    if from >= script.len() {
        seq![ProgressView::Finished(Ok(()))]
    } else {
        seq![
            ProgressView::Pending(EcAction::Read { port: EC_CMD_PORT }),
            ProgressView::Pending(
                EcAction::Write { port: script[from as int].port, value: script[from as int].value },
            ),
            ProgressView::Pending(
                if from + 1 < script.len() {
                    EcAction::Clock
                } else {
                    EcAction::Sleep { millis: SETTLE_MS }
                },
            ),
        ] + prompt_answers(script, from + 1)
    }
}

/// A transaction that finds the controller ready at every first look makes
/// the port writes of its script, each once and in order, each after one
/// look at the status; then it waits out the delay and ends with success,
/// every write made.
pub proof fn lemma_prompt_transaction(v: EcView)
    requires
        v.wf(),
        v.phase == Phase::Starting || v.phase == Phase::Settling,
    ensures
        answers(v, prompt_events((v.script.len() - v.written) as nat)) == prompt_answers(
            v.script,
            v.written,
        ),
        after(v, prompt_events((v.script.len() - v.written) as nat)).phase == Phase::Idle,
        after(v, prompt_events((v.script.len() - v.written) as nat)).written == v.script.len(),
        after(v, prompt_events((v.script.len() - v.written) as nat)).script == v.script,
    decreases v.script.len() - v.written,
{
    let left: nat = (v.script.len() - v.written) as nat;
    let events: Seq<EcEventView> = prompt_events(left);
    if v.phase == Phase::Settling {
        assert(left == 0);
        let done: EcView = v.next(EcEventView::Slept).0;
        let none: Seq<EcEventView> = events.drop_first();
        assert(events[0] == EcEventView::Slept);
        assert(none.len() == 0);
        assert(answers(done, none) =~= Seq::<ProgressView>::empty());
        assert(after(done, none) == done);
        assert(answers(v, events) == seq![v.next(events[0]).1] + answers(done, none));
        assert(answers(v, events) =~= prompt_answers(v.script, v.written));
        assert(after(v, events) == after(done, none));
    } else {
        let rest: Seq<EcEventView> = prompt_events((left - 1) as nat);
        let e0: EcEventView = EcEventView::Time { millis: 0 };
        let e1: EcEventView = EcEventView::Byte { value: 0 };
        let e2: EcEventView = EcEventView::Written;
        assert(ready(0u8)) by (bit_vector);
        let v1: EcView = v.next(e0).0;
        let v2: EcView = v1.next(e1).0;
        let v3: EcView = v2.next(e2).0;
        assert(events[0] == e0);
        let tail1: Seq<EcEventView> = events.drop_first();
        assert(tail1 =~= seq![e1, e2] + rest);
        assert(tail1[0] == e1);
        let tail2: Seq<EcEventView> = tail1.drop_first();
        assert(tail2 =~= seq![e2] + rest);
        assert(tail2[0] == e2);
        assert(tail2.drop_first() =~= rest);
        lemma_prompt_transaction(v3);
        assert(answers(v2, tail2) == seq![v2.next(e2).1] + answers(v3, rest));
        assert(answers(v1, tail1) == seq![v1.next(e1).1] + answers(v2, tail2));
        assert(answers(v, events) == seq![v.next(e0).1] + answers(v1, tail1));
        assert(answers(v, events) =~= prompt_answers(v.script, v.written));
        assert(after(v2, tail2) == after(v3, rest));
        assert(after(v1, tail1) == after(v2, tail2));
        assert(after(v, events) == after(v1, tail1));
    }
}

/// The events of a wait that finds the controller busy at every look, one
/// look for each reading of the clock in `times`: the status byte `status`,
/// the sleep done, and the reading.
pub open spec fn busy_looks(status: u8, times: Seq<u64>) -> Seq<EcEventView>
    decreases times.len(),
{
    if times.len() == 0 {
        Seq::empty()
    } else {
        seq![
            EcEventView::Byte { value: status },
            EcEventView::Slept,
            EcEventView::Time { millis: times[0] },
        ] + busy_looks(status, times.drop_first())
    }
}

/// A controller that stays busy: the engine looks, sleeps and takes the
/// time, again and again, and asks for no port write; with the first
/// reading of the clock that lies 200 ms or more behind the start of the
/// wait, the transaction ends with a timeout.
pub proof fn lemma_stuck_controller_times_out(v: EcView, status: u8, times: Seq<u64>)
    requires
        v.wf(),
        v.phase == Phase::Polling,
        !ready(status),
        times.len() > 0,
        forall|j: int| 0 <= j < times.len() - 1 ==> !timed_out(v.wait_start, #[trigger] times[j]),
        timed_out(v.wait_start, times.last()),
    ensures
        after(v, busy_looks(status, times)) == v.ended(),
        answers(v, busy_looks(status, times)).len() == 3 * times.len(),
        answers(v, busy_looks(status, times)).last() == ProgressView::Finished(
            Err(ErrorView::EcTimeout),
        ),
        forall|i: int|
            0 <= i < 3 * times.len() ==> !((#[trigger] answers(
                v,
                busy_looks(status, times),
            )[i]) matches ProgressView::Pending(EcAction::Write { .. })),
    decreases times.len(),
{
    let events: Seq<EcEventView> = busy_looks(status, times);
    let later: Seq<u64> = times.drop_first();
    let rest: Seq<EcEventView> = busy_looks(status, later);
    let e0: EcEventView = EcEventView::Byte { value: status };
    let e1: EcEventView = EcEventView::Slept;
    let e2: EcEventView = EcEventView::Time { millis: times[0] };
    let v1: EcView = v.next(e0).0;
    let v2: EcView = v1.next(e1).0;
    let v3: EcView = v2.next(e2).0;
    lemma_busy_look(v, status, times[0]);
    assert(events[0] == e0);
    let tail1: Seq<EcEventView> = events.drop_first();
    assert(tail1 =~= seq![e1, e2] + rest);
    assert(tail1[0] == e1);
    let tail2: Seq<EcEventView> = tail1.drop_first();
    assert(tail2 =~= seq![e2] + rest);
    assert(tail2[0] == e2);
    assert(tail2.drop_first() =~= rest);
    assert(answers(v2, tail2) == seq![v2.next(e2).1] + answers(v3, rest));
    assert(answers(v1, tail1) == seq![v1.next(e1).1] + answers(v2, tail2));
    assert(answers(v, events) == seq![v.next(e0).1] + answers(v1, tail1));
    assert(after(v2, tail2) == after(v3, rest));
    assert(after(v1, tail1) == after(v2, tail2));
    assert(after(v, events) == after(v1, tail1));
    if times.len() == 1 {
        assert(times.last() == times[0]);
        assert(later.len() == 0);
        assert(rest.len() == 0);
        assert(answers(v3, rest) =~= Seq::<ProgressView>::empty());
        assert(after(v3, rest) == v3);
        assert(answers(v, events) =~= seq![v.next(e0).1, v1.next(e1).1, v2.next(e2).1]);
    } else {
        assert(!timed_out(v.wait_start, times[0]));
        assert(v3 == v);
        assert(later.last() == times.last());
        assert forall|j: int| 0 <= j < later.len() - 1 implies !timed_out(
            v.wait_start,
            #[trigger] later[j],
        ) by {
            assert(later[j] == times[j + 1]);
        }
        lemma_stuck_controller_times_out(v, status, later);
        let front: Seq<ProgressView> = seq![v.next(e0).1, v1.next(e1).1, v2.next(e2).1];
        assert(answers(v, events) =~= front + answers(v, rest));
        assert forall|i: int| 0 <= i < 3 * times.len() implies !((#[trigger] answers(v, events)[i])
            matches ProgressView::Pending(EcAction::Write { .. })) by {
            if i >= 3 {
                assert(answers(v, events)[i] == answers(v, rest)[i - 3]);
            }
        }
    }
}

} // verus!
