//! The daemon: the one owner of the controller's engine and of the
//! brightness level, serving one client at a time.
//!
//! The daemon does no input or output itself. It says what it needs next as
//! an [`Action`] (look for a client, an operation of the engine, the
//! response to hand to the client) and is told what came of it as an
//! [`Event`]. A request that a client sends is decoded, carried out on the
//! controller by the engine, and answered; the brightness level changes only
//! when the controller has taken the command.

use crate::client::lemma_sent_line_is_read_back;
use crate::ec::{
    brightness_byte, brightness_script, color_script, lemma_next_keeps_wf, ready, EcAction,
    EcEvent, EcEventView, EcPort, EcView, Phase, PortWrite, Progress, ProgressView, MAX_BRIGHTNESS,
};
use crate::error::{Error, ErrorView, IoFailure, IoFailureView, IoKind};
use crate::number::{hex_byte_text, push_hex_byte, push_u8, u8_text};
use crate::protocol::{err_line, err_response, ok_info_response, ok_line, Request};
use vstd::prelude::*;
use vstd::string::StringExecFns;

verus! {

/// How long the daemon rests when no client is waiting, in milliseconds.
pub const ACCEPT_PAUSE_MS: u64 = 50;

/// What the daemon needs from its host.
#[derive(Debug, Clone, PartialEq, Eq)]
pub enum Action {
    /// Look at the shutdown flag, then for a waiting client, and read the
    /// client's line.
    Accept,
    /// Rest for so many milliseconds.
    Pause { millis: u64 },
    /// Do this for the engine.
    Port(EcAction),
    /// Hand this line to the client and close the connection.
    Respond(String),
    /// Stop serving.
    Exit,
}

/// An `Action` with the response as a sequence of characters.
pub enum ActionView {
    Accept,
    Pause { millis: u64 },
    Port(EcAction),
    Respond(Seq<char>),
    Exit,
}

impl View for Action {
    type V = ActionView;

    open spec fn view(&self) -> ActionView {
        match self {
            Action::Accept => ActionView::Accept,
            Action::Pause { millis } => ActionView::Pause { millis: *millis },
            Action::Port(action) => ActionView::Port(*action),
            Action::Respond(line) => ActionView::Respond(line@),
            Action::Exit => ActionView::Exit,
        }
    }
}

/// What the host tells the daemon.
#[derive(Debug, Clone, PartialEq, Eq)]
pub enum Event {
    /// The shutdown flag is set.
    Shutdown,
    /// No client could be taken: none is waiting, or the listener failed.
    AcceptFailed(IoFailure),
    /// The connection broke before the line was read or the response written.
    ClientFailed,
    /// A client has sent this line.
    Line(String),
    /// The rest is over.
    Paused,
    /// What came of the engine's last action.
    Port(EcEvent),
    /// The response is with the client.
    Responded,
}

/// An `Event` with its texts as sequences of characters.
pub enum EventView {
    Shutdown,
    AcceptFailed(IoFailureView),
    ClientFailed,
    Line(Seq<char>),
    Paused,
    Port(EcEventView),
    Responded,
}

impl View for Event {
    type V = EventView;

    open spec fn view(&self) -> EventView {
        match self {
            Event::Shutdown => EventView::Shutdown,
            Event::AcceptFailed(failure) => EventView::AcceptFailed(failure@),
            Event::ClientFailed => EventView::ClientFailed,
            Event::Line(line) => EventView::Line(line@),
            Event::Paused => EventView::Paused,
            Event::Port(event) => EventView::Port(event@),
            Event::Responded => EventView::Responded,
        }
    }
}

/// Where the daemon stands.
#[derive(Debug, Clone, Copy, PartialEq, Eq, Structural)]
pub enum Stage {
    /// Looking for a client.
    Listening,
    /// Resting, since no client was waiting.
    Waiting,
    /// Carrying out a client's request on the controller.
    Serving,
    /// Handing the response to the client.
    Responding,
    /// Shut down.
    Stopped,
}

/// Where the daemon stands, with the request it serves or the response it
/// hands out.
pub enum StageView {
    Listening,
    Waiting,
    Serving(Request),
    Responding(Seq<char>),
    Stopped,
}

/// The level that a change by `delta` leads to from `brightness`: their sum,
/// held within 0 and 9.
pub open spec fn adjusted(brightness: u8, delta: i8) -> u8 {
    let sum: int = brightness + delta;
    if sum < 0 {
        0
    } else if sum > MAX_BRIGHTNESS {
        MAX_BRIGHTNESS
    } else {
        sum as u8
    }
}

/// The level after `request` has been carried out at the level `brightness`.
pub open spec fn brightness_after(request: Request, brightness: u8) -> u8 {
    match request {
        Request::On => MAX_BRIGHTNESS,
        Request::Off => 0,
        Request::SetColor { .. } => brightness,
        Request::Brightness(level) => level,
        Request::AdjustBrightness(delta) => adjusted(brightness, delta),
    }
}

/// The port writes that carry out `request` at the level `brightness`.
pub open spec fn script_for(request: Request, brightness: u8) -> Seq<PortWrite> {
    match request {
        Request::On => brightness_script(0xFF),
        Request::Off => brightness_script(0x00),
        Request::SetColor { r, g, b } => color_script(r, g, b),
        Request::Brightness(level) => brightness_script(brightness_byte(level)),
        Request::AdjustBrightness(delta) => brightness_script(
            brightness_byte(adjusted(brightness, delta)),
        ),
    }
}

/// What the daemon reports when `request` has been carried out and the level
/// is `brightness`.
pub open spec fn success_text(request: Request, brightness: u8) -> Seq<char> {
    match request {
        Request::On => "backlight on"@,
        Request::Off => "backlight off"@,
        Request::SetColor { r, g, b } => "color #"@ + hex_byte_text(r) + hex_byte_text(g)
            + hex_byte_text(b),
        _ => "brightness "@ + u8_text(brightness) + "/9"@,
    }
}

/// Whether `request` asks for a level that does not exist.
pub open spec fn out_of_range(request: Request) -> bool {
    request matches Request::Brightness(level) && level > MAX_BRIGHTNESS
}

/// The state of the daemon: the engine, the brightness level, and where the
/// daemon stands.
pub struct DaemonView {
    pub ec: EcView,
    pub brightness: u8,
    pub stage: StageView,
}

impl DaemonView {
    /// The level is within 0 and 9; and while a request is served, it is
    /// one that asks for a level that exists, and the engine has a
    /// transaction in progress.
    pub open spec fn wf(self) -> bool {
        &&& self.brightness <= MAX_BRIGHTNESS
        &&& self.ec.wf()
        &&& self.stage matches StageView::Serving(request) ==> self.ec.busy() && !out_of_range(
            request,
        )
    }

    /// The daemon as it starts: at full brightness, looking for a client.
    pub open spec fn started(ec: EcView) -> DaemonView {
        DaemonView { ec, brightness: MAX_BRIGHTNESS, stage: StageView::Listening }
    }

    /// The state at the stage `stage`.
    pub open spec fn at(self, stage: StageView) -> DaemonView {
        DaemonView { stage, ..self }
    }

    /// What the daemon is waiting for.
    pub open spec fn pending(self) -> ActionView {
        match self.stage {
            StageView::Listening => ActionView::Accept,
            StageView::Waiting => ActionView::Pause { millis: ACCEPT_PAUSE_MS },
            StageView::Serving(_) => ActionView::Port(self.ec.pending().unwrap()),
            StageView::Responding(line) => ActionView::Respond(line),
            StageView::Stopped => ActionView::Exit,
        }
    }

    /// Back to looking for a client.
    pub open spec fn listen(self) -> (DaemonView, ActionView) {
        (self.at(StageView::Listening), ActionView::Accept)
    }

    /// The response `line` goes to the client.
    pub open spec fn respond(self, line: Seq<char>) -> (DaemonView, ActionView) {
        (self.at(StageView::Responding(line)), ActionView::Respond(line))
    }

    /// The client is told of the failure `e`.
    pub open spec fn refuse(self, e: ErrorView) -> (DaemonView, ActionView) {
        self.respond(err_line(e.description()))
    }

    /// The first step of carrying out `request`: a level that does not exist
    /// is refused, and nothing is touched; else the engine begins the
    /// transaction.
    pub open spec fn execute(self, request: Request) -> (DaemonView, ActionView) {
        if out_of_range(request) {
            self.refuse(ErrorView::InvalidBrightness(request->Brightness_0))
        } else {
            (
                DaemonView {
                    ec: EcView::begun(script_for(request, self.brightness)),
                    stage: StageView::Serving(request),
                    ..self
                },
                ActionView::Port(EcAction::Clock),
            )
        }
    }

    /// What a client's line leads to: a line that is no request is refused,
    /// and the controller is not touched.
    pub open spec fn handle_client(self, line: Seq<char>) -> (DaemonView, ActionView) {
        match Request::decode(line) {
            Ok(request) => self.execute(request),
            Err(e) => self.refuse(e),
        }
    }

    /// The controller has taken the command: the level follows the request,
    /// and the client is told.
    pub open spec fn complete(self, request: Request) -> (DaemonView, ActionView) {
        let level: u8 = brightness_after(request, self.brightness);
        DaemonView { brightness: level, ..self }.respond(ok_line(success_text(request, level)))
    }

    /// What an event of the engine leads to while `request` is served.
    pub open spec fn serve(self, request: Request, event: EcEventView) -> (DaemonView, ActionView) {
        let moved: DaemonView = DaemonView { ec: self.ec.next(event).0, ..self };
        match self.ec.next(event).1 {
            ProgressView::Pending(action) => (moved, ActionView::Port(action)),
            ProgressView::Finished(Ok(())) => moved.complete(request),
            ProgressView::Finished(Err(e)) => moved.refuse(e),
            ProgressView::Idle => moved.listen(),
        }
    }

    /// What an event does to the daemon.
    ///
    /// While it looks for a client, the daemon stops when the shutdown flag
    /// is set, rests when no client waits, and takes a client's line. While
    /// it serves a request, the events of the engine move the transaction
    /// on. An event that answers nothing leaves the daemon as it is, waiting
    /// for what it waited for.
    pub open spec fn next(self, event: EventView) -> (DaemonView, ActionView) {
        match (self.stage, event) {
            (StageView::Listening, EventView::Shutdown) => (
                self.at(StageView::Stopped),
                ActionView::Exit,
            ),
            (StageView::Listening, EventView::AcceptFailed(failure)) => if failure.kind
                == IoKind::WouldBlock {
                (self.at(StageView::Waiting), ActionView::Pause { millis: ACCEPT_PAUSE_MS })
            } else {
                self.listen()
            },
            (StageView::Listening, EventView::ClientFailed) => self.listen(),
            (StageView::Listening, EventView::Line(line)) => self.handle_client(line),
            (StageView::Waiting, EventView::Paused) => self.listen(),
            (StageView::Serving(request), EventView::Port(event)) => self.serve(request, event),
            (StageView::Responding(_), EventView::Responded) => self.listen(),
            (StageView::Responding(_), EventView::ClientFailed) => self.listen(),
            _ => (self, self.pending()),
        }
    }
}

/// The level that a change by `delta` leads to from `brightness`.
pub fn adjust(brightness: u8, delta: i8) -> (level: u8)
    ensures
        level == adjusted(brightness, delta),
{
    let sum: i16 = brightness as i16 + delta as i16;
    if sum < 0 {
        0
    } else if sum > MAX_BRIGHTNESS as i16 {
        MAX_BRIGHTNESS
    } else {
        sum as u8
    }
}

/// The response that reports that `request` has been carried out and the
/// level is `brightness`.
pub fn success_response(request: &Request, brightness: u8) -> (line: String)
    ensures
        line@ == ok_line(success_text(*request, brightness)),
{
    let message: String = match request {
        Request::On => String::from_str("backlight on"),
        Request::Off => String::from_str("backlight off"),
        Request::SetColor { r, g, b } => {
            let mut text: String = String::from_str("color #");
            push_hex_byte(&mut text, *r);
            push_hex_byte(&mut text, *g);
            push_hex_byte(&mut text, *b);
            text
        },
        _ => {
            let mut text: String = String::from_str("brightness ");
            push_u8(&mut text, brightness);
            text.append("/9");
            text
        },
    };
    ok_info_response(message.as_str())
}

/// The daemon.
pub struct Daemon {
    ec: EcPort,
    brightness: u8,
    stage: Stage,
    request: Request,
    response: String,
}

impl View for Daemon {
    type V = DaemonView;

    closed spec fn view(&self) -> DaemonView {
        DaemonView {
            ec: self.ec@,
            brightness: self.brightness,
            stage: match self.stage {
                Stage::Listening => StageView::Listening,
                Stage::Waiting => StageView::Waiting,
                Stage::Serving => StageView::Serving(self.request),
                Stage::Responding => StageView::Responding(self.response@),
                Stage::Stopped => StageView::Stopped,
            },
        }
    }
}

impl Daemon {
    /// A daemon is well formed at all times.
    #[verifier::type_invariant]
    pub open spec fn well_formed(self) -> bool {
        self@.wf()
    }

    /// The daemon as it starts, with the engine it is to own: at full
    /// brightness, looking for a client.
    pub fn new(ec: EcPort) -> (daemon: Daemon)
        ensures
            daemon@ == DaemonView::started(ec@),
            daemon@.wf(),
    {
        proof {
            use_type_invariant(&ec);
        }
        Daemon {
            ec,
            brightness: MAX_BRIGHTNESS,
            stage: Stage::Listening,
            request: Request::On,
            response: String::new(),
        }
    }

    /// The brightness level that the daemon holds, 0 to 9.
    pub fn brightness(&self) -> (level: u8)
        ensures
            level == self@.brightness,
            level <= MAX_BRIGHTNESS,
    {
        proof {
            use_type_invariant(self);
        }
        self.brightness
    }

    /// Where the daemon stands.
    pub fn stage(&self) -> (stage: Stage)
        ensures
            stage == Stage::Listening <==> self@.stage is Listening,
            stage == Stage::Waiting <==> self@.stage is Waiting,
            stage == Stage::Serving <==> self@.stage is Serving,
            stage == Stage::Responding <==> self@.stage is Responding,
            stage == Stage::Stopped <==> self@.stage is Stopped,
    {
        self.stage
    }

    /// What the daemon is waiting for.
    pub fn pending(&self) -> (action: Action)
        ensures
            action@ == self@.pending(),
            self@.wf(),
    {
        proof {
            use_type_invariant(self);
        }
        match self.stage {
            Stage::Listening => Action::Accept,
            Stage::Waiting => Action::Pause { millis: ACCEPT_PAUSE_MS },
            Stage::Serving => match self.ec.pending() {
                Some(action) => Action::Port(action),
                None => Action::Accept,
            },
            Stage::Responding => Action::Respond(self.response.clone()),
            Stage::Stopped => Action::Exit,
        }
    }

    /// Goes back to looking for a client.
    fn listen(&mut self) -> (action: Action)
        ensures
            (final(self)@, action@) == old(self)@.listen(),
    {
        proof {
            use_type_invariant(&*self);
        }
        self.stage = Stage::Listening;
        Action::Accept
    }

    /// Hands `line` to the client.
    fn respond(&mut self, line: String) -> (action: Action)
        ensures
            (final(self)@, action@) == old(self)@.respond(line@),
    {
        proof {
            use_type_invariant(&*self);
        }
        self.response = line.clone();
        self.stage = Stage::Responding;
        Action::Respond(line)
    }

    /// Tells the client of the failure `e`.
    fn refuse(&mut self, e: &Error) -> (action: Action)
        ensures
            (final(self)@, action@) == old(self)@.refuse(e@),
    {
        let text: String = e.description();
        self.respond(err_response(text.as_str()))
    }

    /// Takes the first step of carrying out `request`.
    fn execute(&mut self, request: &Request) -> (action: Action)
        ensures
            (final(self)@, action@) == old(self)@.execute(*request),
    {
        proof {
            use_type_invariant(&*self);
        }
        let mut ec: EcPort = EcPort::idle();
        let first: EcAction = match request {
            Request::On => ec.turn_on(),
            Request::Off => ec.turn_off(),
            Request::SetColor { r, g, b } => ec.set_color(*r, *g, *b),
            Request::Brightness(level) => {
                if *level > MAX_BRIGHTNESS {
                    return self.refuse(&Error::InvalidBrightness(*level));
                }
                match ec.set_brightness(*level) {
                    Ok(first) => first,
                    Err(e) => {
                        return self.refuse(&e);
                    },
                }
            },
            Request::AdjustBrightness(delta) => {
                let level: u8 = adjust(self.brightness, *delta);
                match ec.set_brightness(level) {
                    Ok(first) => first,
                    Err(e) => {
                        return self.refuse(&e);
                    },
                }
            },
        };
        self.ec = ec;
        self.request = *request;
        self.stage = Stage::Serving;
        Action::Port(first)
    }

    /// Takes a client's line.
    fn handle_client(&mut self, line: &str) -> (action: Action)
        ensures
            (final(self)@, action@) == old(self)@.handle_client(line@),
    {
        match Request::parse(line) {
            Ok(request) => self.execute(&request),
            Err(e) => self.refuse(&e),
        }
    }

    /// Takes an event of the engine while a request is served.
    fn serve(&mut self, event: EcEvent) -> (action: Action)
        requires
            old(self)@.stage is Serving,
        ensures
            (final(self)@, action@) == old(self)@.serve(old(self)@.stage->Serving_0, event@),
    {
        proof {
            use_type_invariant(&*self);
        }
        let request: Request = self.request;
        self.stage = Stage::Listening;
        let mut ec: EcPort = EcPort::idle();
        core::mem::swap(&mut self.ec, &mut ec);
        let progress: Progress = ec.step(event);
        self.ec = ec;
        match progress {
            Progress::Pending(action) => {
                self.stage = Stage::Serving;
                Action::Port(action)
            },
            Progress::Finished(Ok(())) => {
                let level: u8 = match request {
                    Request::On => MAX_BRIGHTNESS,
                    Request::Off => 0,
                    Request::SetColor { .. } => self.brightness,
                    Request::Brightness(level) => level,
                    Request::AdjustBrightness(delta) => adjust(self.brightness, delta),
                };
                self.brightness = level;
                self.respond(success_response(&request, level))
            },
            Progress::Finished(Err(e)) => self.refuse(&e),
            Progress::Idle => self.listen(),
        }
    }

    /// Takes an event and says what the daemon needs next.
    pub fn step(&mut self, event: Event) -> (action: Action)
        ensures
            (final(self)@, action@) == old(self)@.next(event@),
            final(self)@.wf(),
    {
        proof {
            use_type_invariant(&*self);
        }
        let action: Action = match (self.stage, event) {
            (Stage::Listening, Event::Shutdown) => {
                self.stage = Stage::Stopped;
                Action::Exit
            },
            (Stage::Listening, Event::AcceptFailed(failure)) => {
                if failure.kind == IoKind::WouldBlock {
                    self.stage = Stage::Waiting;
                    Action::Pause { millis: ACCEPT_PAUSE_MS }
                } else {
                    self.listen()
                }
            },
            (Stage::Listening, Event::ClientFailed) => self.listen(),
            (Stage::Listening, Event::Line(line)) => self.handle_client(line.as_str()),
            (Stage::Waiting, Event::Paused) => self.listen(),
            (Stage::Serving, Event::Port(event)) => self.serve(event),
            (Stage::Responding, Event::Responded) => self.listen(),
            (Stage::Responding, Event::ClientFailed) => self.listen(),
            _ => self.pending(),
        };
        proof {
            use_type_invariant(&*self);
        }
        action
    }
}

/// A change of the level leads to the sum of level and change where that
/// lies within 0 and 9, to 0 where it lies below, and to 9 where it lies
/// above.
pub proof fn lemma_adjusted_is_clamped(brightness: u8, delta: i8)
    ensures
        adjusted(brightness, delta) <= MAX_BRIGHTNESS,
        0 <= brightness + delta <= MAX_BRIGHTNESS ==> adjusted(brightness, delta) == brightness
            + delta,
        brightness + delta < 0 ==> adjusted(brightness, delta) == 0,
        brightness + delta > MAX_BRIGHTNESS ==> adjusted(brightness, delta) == MAX_BRIGHTNESS,
{
}

/// A change by 0 leaves a level as it is, however often it is made.
pub proof fn lemma_adjust_by_zero(brightness: u8)
    requires
        brightness <= MAX_BRIGHTNESS,
    ensures
        adjusted(brightness, 0) == brightness,
        adjusted(adjusted(brightness, 0), 0) == brightness,
{
}

/// Whatever the event, the daemon stays well formed: the level stays
/// within 0 and 9.
pub proof fn lemma_level_stays_in_range(d: DaemonView, event: EventView)
    requires
        d.wf(),
    ensures
        d.next(event).0.wf(),
        d.next(event).0.brightness <= MAX_BRIGHTNESS,
{
    if let EventView::Port(e) = event {
        lemma_next_keeps_wf(d.ec, e);
    }
}

/// The level changes only when the controller has taken a command, and
/// then to the level that the request served asks for.
pub proof fn lemma_level_follows_the_controller(d: DaemonView, event: EventView)
    requires
        d.wf(),
        d.next(event).0.brightness != d.brightness,
    ensures
        d.stage is Serving,
        event is Port,
        d.ec.next(event->Port_0).1 == ProgressView::Finished(Ok(())),
        d.next(event).0.brightness == brightness_after(d.stage->Serving_0, d.brightness),
{
}

/// Nothing but the shutdown flag stops the daemon: no request, no failure
/// of the controller and no failure of a client does.
pub proof fn lemma_only_shutdown_stops_the_daemon(d: DaemonView, event: EventView)
    requires
        d.wf(),
        !(d.stage is Stopped),
        d.next(event).0.stage is Stopped || d.next(event).1 is Exit,
    ensures
        d.stage is Listening,
        event is Shutdown,
{
    if let EventView::Port(e) = event {
        lemma_next_keeps_wf(d.ec, e);
    }
}

/// A line that is no request, or that asks for a level that does not exist,
/// is answered with the failure, and neither the engine nor the level is
/// touched.
pub proof fn lemma_refused_line_touches_nothing(d: DaemonView, line: Seq<char>)
    requires
        d.stage is Listening,
        match Request::decode(line) {
            Ok(request) => out_of_range(request),
            Err(_) => true,
        },
    ensures
        d.next(EventView::Line(line)).0.ec == d.ec,
        d.next(EventView::Line(line)).0.brightness == d.brightness,
        d.next(EventView::Line(line)).1 == ActionView::Respond(
            err_line(
                match Request::decode(line) {
                    Ok(request) => ErrorView::InvalidBrightness(request->Brightness_0).message(),
                    Err(e) => e.description(),
                },
            ),
        ),
{
}

/// While a client is served or answered, nothing that the listener reports
/// is taken up: no second client, and no shutdown, before the first is done.
pub proof fn lemma_one_client_at_a_time(d: DaemonView, event: EventView)
    requires
        d.stage is Serving || d.stage is Responding,
        event is Shutdown || event is Line || event is AcceptFailed || event is Paused,
    ensures
        d.next(event) == (d, d.pending()),
{
}

/// What the daemon asks for with an event is what it is waiting for
/// afterwards.
pub proof fn lemma_asks_for_what_is_pending(d: DaemonView, event: EventView)
    requires
        d.wf(),
    ensures
        d.next(event).1 == d.next(event).0.pending(),
{
    if let EventView::Port(e) = event {
        lemma_next_keeps_wf(d.ec, e);
    }
}

/// The state after a run of events.
pub open spec fn after(d: DaemonView, events: Seq<EventView>) -> DaemonView
    decreases events.len(),
{
    if events.len() == 0 {
        d
    } else {
        after(d.next(events[0]).0, events.drop_first())
    }
}

/// What a host reports that finds the controller ready at every first look,
/// for `writes` port writes that are still to be made: for each the time, a
/// status byte without the busy bit, and the write done; at the end, the
/// sleep done.
pub open spec fn prompt_service(writes: nat) -> Seq<EventView>
    decreases writes,
{
    if writes == 0 {
        seq![EventView::Port(EcEventView::Slept)]
    } else {
        seq![
            EventView::Port(EcEventView::Time { millis: 0 }),
            EventView::Port(EcEventView::Byte { value: 0 }),
            EventView::Port(EcEventView::Written),
        ] + prompt_service((writes - 1) as nat)
    }
}

/// A request that is being served on a controller that is ready at every
/// first look comes to its end: every port write of the transaction is
/// made, the level is what the request asks for, and the client is told of
/// the success.
pub proof fn lemma_service_on_a_ready_controller(d: DaemonView, request: Request)
    requires
        d.wf(),
        d.stage == StageView::Serving(request),
        d.ec.phase == Phase::Starting || d.ec.phase == Phase::Settling,
    ensures
        ({
            let end: DaemonView = after(d, prompt_service((d.ec.script.len() - d.ec.written) as nat));
            let level: u8 = brightness_after(request, d.brightness);
            &&& end.brightness == level
            &&& end.stage == StageView::Responding(ok_line(success_text(request, level)))
            &&& end.ec.script == d.ec.script
            &&& end.ec.written == d.ec.script.len()
            &&& !end.ec.busy()
        }),
    decreases d.ec.script.len() - d.ec.written,
{
    let left: nat = (d.ec.script.len() - d.ec.written) as nat;
    let events: Seq<EventView> = prompt_service(left);
    if d.ec.phase == Phase::Settling {
        let done: DaemonView = d.next(events[0]).0;
        let none: Seq<EventView> = events.drop_first();
        assert(events[0] == EventView::Port(EcEventView::Slept));
        assert(none.len() == 0);
        assert(after(done, none) == done);
        assert(after(d, events) == after(done, none));
    } else {
        let rest: Seq<EventView> = prompt_service((left - 1) as nat);
        let e0: EventView = EventView::Port(EcEventView::Time { millis: 0 });
        let e1: EventView = EventView::Port(EcEventView::Byte { value: 0 });
        let e2: EventView = EventView::Port(EcEventView::Written);
        assert(ready(0u8)) by (bit_vector);
        let d1: DaemonView = d.next(e0).0;
        let d2: DaemonView = d1.next(e1).0;
        let d3: DaemonView = d2.next(e2).0;
        assert(events[0] == e0);
        let tail1: Seq<EventView> = events.drop_first();
        assert(tail1 =~= seq![e1, e2] + rest);
        assert(tail1[0] == e1);
        let tail2: Seq<EventView> = tail1.drop_first();
        assert(tail2 =~= seq![e2] + rest);
        assert(tail2[0] == e2);
        assert(tail2.drop_first() =~= rest);
        lemma_service_on_a_ready_controller(d3, request);
        assert(after(d2, tail2) == after(d3, rest));
        assert(after(d1, tail1) == after(d2, tail2));
        assert(after(d, events) == after(d1, tail1));
    }
}

/// A client's request on a controller that is ready at every first look:
/// the line that the client sends for a request within range is read as
/// that request, the port writes of its transaction are all made, the
/// level is what the request asks for, and the client is told of the
/// success.
pub proof fn lemma_exchange_on_a_ready_controller(d: DaemonView, request: Request)
    requires
        d.wf(),
        d.stage is Listening,
        !out_of_range(request),
    ensures
        ({
            let script: Seq<PortWrite> = script_for(request, d.brightness);
            let level: u8 = brightness_after(request, d.brightness);
            let end: DaemonView = after(
                d,
                seq![EventView::Line(request.wire() + "\n"@)] + prompt_service(script.len()),
            );
            &&& end.brightness == level
            &&& end.stage == StageView::Responding(ok_line(success_text(request, level)))
            &&& end.ec.script == script
            &&& end.ec.written == script.len()
            &&& !end.ec.busy()
            &&& level <= MAX_BRIGHTNESS
        }),
{
    let script: Seq<PortWrite> = script_for(request, d.brightness);
    let line: EventView = EventView::Line(request.wire() + "\n"@);
    let events: Seq<EventView> = seq![line] + prompt_service(script.len());
    lemma_sent_line_is_read_back(request);
    let serving: DaemonView = d.next(line).0;
    assert(events[0] == line);
    assert(events.drop_first() =~= prompt_service(script.len()));
    assert(serving.stage == StageView::Serving(request));
    assert(serving.ec == EcView::begun(script));
    assert(script.len() > 0);
    lemma_service_on_a_ready_controller(serving, request);
    assert(after(d, events) == after(serving, prompt_service(script.len())));
}

} // verus!
