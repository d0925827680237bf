//! The command and response protocol spoken with the rig's microcontroller.
//!
//! Nothing here touches a port. An [`Exchange`] says what to do with the port next, and
//! is told what came of it; the functions named `cmd_*` write command lines and those
//! named `reply_*` read the answers.

use crate::decimal::{
    bytes_eq, contains, has_subseq, int_text, parse_fields, parse_list, parse_milli,
    parse_milli_spec, parse_unsigned, parse_unsigned_spec, push_int, push_str, split_bytes,
    split_fields, to_vec, trim, trimmed,
};
use vstd::slice::slice_subrange;
use vstd::prelude::*;
use vstd::string::StringSliceAdditionalSpecFns;

verus! {

/// For how long a channel count that was read from the device is taken as still true.
pub const HX_N_TTL_MS: u64 = 300_000;

/// What can go wrong in talking to the device.
#[derive(Debug)]
pub enum SerialManagerError {
    /// The port failed, or answered something other than what was asked of it.
    IOError,
    /// The device answered with nothing but white space.
    Empty,
    /// The device reported an error; the answer is enclosed.
    DeviceError(Vec<u8>),
    /// The answer has not the shape that the command calls for.
    MalformedPayload,
    /// A number with decimals could not be read.
    ParseFloat,
    /// A whole number could not be read.
    ParseInt,
    /// An argument of a command is out of range.
    ArgumentError,
    /// Every attempt that the link allows has failed. The fault of the last attempt is
    /// enclosed; there is none where no attempt was allowed.
    RetriesExhausted(Option<Box<SerialManagerError>>),
}

/// A [`SerialManagerError`] as a plain value.
pub enum SerialFault {
    IOError,
    Empty,
    DeviceError(Seq<u8>),
    MalformedPayload,
    ParseFloat,
    ParseInt,
    ArgumentError,
    RetriesExhausted(Option<Box<SerialFault>>),
}

impl SerialFault {
    /// The fault with which an exchange ends when its last attempt failed with `last`.
    pub open spec fn exhausted(last: SerialFault) -> SerialFault {
        SerialFault::RetriesExhausted(Some(Box::new(last)))
    }
}

/// The fault that `e` stands for, with the text of an answer as plain bytes.
pub open spec fn fault_view(e: SerialManagerError) -> SerialFault
    decreases e,
{
    match e {
        SerialManagerError::IOError => SerialFault::IOError,
        SerialManagerError::Empty => SerialFault::Empty,
        SerialManagerError::DeviceError(t) => SerialFault::DeviceError(t@),
        SerialManagerError::MalformedPayload => SerialFault::MalformedPayload,
        SerialManagerError::ParseFloat => SerialFault::ParseFloat,
        SerialManagerError::ParseInt => SerialFault::ParseInt,
        SerialManagerError::ArgumentError => SerialFault::ArgumentError,
        SerialManagerError::RetriesExhausted(None) => SerialFault::RetriesExhausted(None),
        SerialManagerError::RetriesExhausted(Some(last)) => SerialFault::RetriesExhausted(
            Some(Box::new(fault_view(*last))),
        ),
    }
}

impl View for SerialManagerError {
    type V = SerialFault;

    open spec fn view(&self) -> SerialFault {
        fault_view(*self)
    }
}

impl Clone for SerialManagerError {
    fn clone(&self) -> (r: Self)
        ensures
            r@ == self@,
        decreases self,
    {
        match self {
            SerialManagerError::IOError => SerialManagerError::IOError,
            SerialManagerError::Empty => SerialManagerError::Empty,
            SerialManagerError::DeviceError(t) => SerialManagerError::DeviceError(
                to_vec(t.as_slice()),
            ),
            SerialManagerError::MalformedPayload => SerialManagerError::MalformedPayload,
            SerialManagerError::ParseFloat => SerialManagerError::ParseFloat,
            SerialManagerError::ParseInt => SerialManagerError::ParseInt,
            SerialManagerError::ArgumentError => SerialManagerError::ArgumentError,
            SerialManagerError::RetriesExhausted(None) => SerialManagerError::RetriesExhausted(
                None,
            ),
            SerialManagerError::RetriesExhausted(Some(last)) => {
                let copy = (**last).clone();
                SerialManagerError::RetriesExhausted(Some(Box::new(copy)))
            },
        }
    }
}

/// What a finished exchange gave, as a plain value.
pub open spec fn outcome_view(r: Result<Vec<u8>, SerialManagerError>) -> Result<
    Seq<u8>,
    SerialFault,
> {
    match r {
        Ok(t) => Ok(t@),
        Err(e) => Err(e@),
    }
}

/// A reading of the ambient sensor: relative humidity and temperature, in thousandths.
#[derive(Debug, Clone, Copy, PartialEq, Eq, Structural)]
pub struct DHTResult {
    pub hum: i64,
    pub temp: i64,
}

/// The settings of the link, and the channel count that was last read over it.
#[derive(Debug)]
pub struct SerialManager {
    n_retries: u8,
    delay: u64,
    timeout_long: u64,
    end_char: u8,
    rcv_str: Vec<u8>,
    last_hx_n: Option<usize>,
    last_hx_n_time: Option<u64>,
}

/// What a [`SerialManager`] holds, as plain values. Times are in milliseconds.
pub struct LinkConfig {
    pub n_retries: u8,
    pub delay: u64,
    pub timeout_long: u64,
    pub end_char: u8,
    pub rcv_str: Seq<u8>,
    pub last_hx_n: Option<usize>,
    pub last_hx_n_time: Option<u64>,
}

impl View for SerialManager {
    type V = LinkConfig;

    closed spec fn view(&self) -> LinkConfig {
        LinkConfig {
            n_retries: self.n_retries,
            delay: self.delay,
            timeout_long: self.timeout_long,
            end_char: self.end_char,
            rcv_str: self.rcv_str@,
            last_hx_n: self.last_hx_n,
            last_hx_n_time: self.last_hx_n_time,
        }
    }
}

impl LinkConfig {
    /// The channel count that is taken as true at time `now`: the one last stored, for
    /// [`HX_N_TTL_MS`] from the time it was stored.
    pub open spec fn cached_hx_n(self, now: u64) -> Option<usize> {
        match (self.last_hx_n, self.last_hx_n_time) {
            (Some(n), Some(t)) => if t <= now && now - t <= HX_N_TTL_MS {
                Some(n)
            } else {
                None
            },
            _ => None,
        }
    }
}

/// `cmd` with the terminator `end_char` after it, unless it ends with it already.
pub open spec fn framed(cmd: Seq<u8>, end_char: u8) -> Seq<u8> {
    if cmd.len() > 0 && cmd.last() == end_char {
        cmd
    } else {
        cmd.push(end_char)
    }
}

/// What an answer counts as: its text without the white space round it, unless
/// nothing is left or the text holds the word `ERROR`.
pub open spec fn classify_spec(raw: Seq<u8>) -> Result<Seq<u8>, SerialFault> {
    let text = trimmed(raw);
    if text.len() == 0 {
        Err(SerialFault::Empty)
    } else if has_subseq(text, "ERROR".spec_bytes()) {
        Err(SerialFault::DeviceError(text))
    } else {
        Ok(text)
    }
}

/// Where an exchange stands: which answer of the port it waits for.
#[derive(Debug, Clone, Copy, PartialEq, Eq, Structural)]
pub enum LinkPhase {
    Flush,
    Clear,
    Write,
    Settle,
    FirstRead,
    Poll,
    PollSleep,
    SecondRead,
    Finished,
}

/// What the caller is to do with the port next.
#[derive(Debug)]
pub enum LinkAction {
    /// Wait until everything written has left.
    Flush,
    /// Discard what waits in both buffers.
    ClearBuffers,
    /// Write these bytes.
    Write(Vec<u8>),
    /// Sleep for so many milliseconds.
    Sleep(u64),
    /// Read what the port holds.
    Read,
    /// Report the time since the first `Poll` of this attempt and the bytes that wait.
    Poll,
    /// Nothing more: the exchange is over, with this outcome.
    Done(Result<Vec<u8>, SerialManagerError>),
}

/// A [`LinkAction`] as a plain value.
pub enum LinkStep {
    Flush,
    ClearBuffers,
    Write(Seq<u8>),
    Sleep(u64),
    Read,
    Poll,
    Done(Result<Seq<u8>, SerialFault>),
}

impl View for LinkAction {
    type V = LinkStep;

    open spec fn view(&self) -> LinkStep {
        match self {
            LinkAction::Flush => LinkStep::Flush,
            LinkAction::ClearBuffers => LinkStep::ClearBuffers,
            LinkAction::Write(b) => LinkStep::Write(b@),
            LinkAction::Sleep(ms) => LinkStep::Sleep(*ms),
            LinkAction::Read => LinkStep::Read,
            LinkAction::Poll => LinkStep::Poll,
            LinkAction::Done(r) => LinkStep::Done(outcome_view(*r)),
        }
    }
}

/// What came of the last action.
#[derive(Debug)]
pub enum LinkEvent {
    /// The flush, the clearing, the write or the sleep is done.
    Done,
    /// The read gave these bytes.
    Data(Vec<u8>),
    /// `elapsed` milliseconds have passed since the first `Poll` of this attempt, and
    /// `waiting` bytes wait to be read.
    Pending { elapsed: u64, waiting: u32 },
    /// The port failed.
    Failed,
}

/// One command on its way: the framed command, the phase, the attempts that are left,
/// the running one included, and whether the exchange is one with retries.
#[derive(Debug)]
pub struct Exchange {
    framed: Vec<u8>,
    phase: LinkPhase,
    attempts_left: u8,
    retrying: bool,
}

/// What an [`Exchange`] holds, as plain values.
pub struct ExchangeState {
    pub framed: Seq<u8>,
    pub phase: LinkPhase,
    pub attempts_left: u8,
    pub retrying: bool,
}

impl View for Exchange {
    type V = ExchangeState;

    closed spec fn view(&self) -> ExchangeState {
        ExchangeState {
            framed: self.framed@,
            phase: self.phase,
            attempts_left: self.attempts_left,
            retrying: self.retrying,
        }
    }
}

impl ExchangeState {
    /// A single exchange of `cmd`: one attempt, whose fault is the fault of the exchange.
    pub open spec fn single(cfg: LinkConfig, cmd: Seq<u8>) -> (ExchangeState, LinkStep) {
        (
            ExchangeState {
                framed: framed(cmd, cfg.end_char),
                phase: LinkPhase::Flush,
                attempts_left: 1,
                retrying: false,
            },
            LinkStep::Flush,
        )
    }

    /// An exchange of `cmd` with as many attempts as the link allows, and its first
    /// action. Without an attempt it is over at once, with no last fault.
    pub open spec fn with_retries(cfg: LinkConfig, cmd: Seq<u8>) -> (ExchangeState, LinkStep) {
        if cfg.n_retries == 0 {
            (
                ExchangeState {
                    framed: framed(cmd, cfg.end_char),
                    phase: LinkPhase::Finished,
                    attempts_left: 0,
                    retrying: true,
                },
                LinkStep::Done(Err(SerialFault::RetriesExhausted(None))),
            )
        } else {
            (
                ExchangeState {
                    framed: framed(cmd, cfg.end_char),
                    phase: LinkPhase::Flush,
                    attempts_left: cfg.n_retries,
                    retrying: true,
                },
                LinkStep::Flush,
            )
        }
    }

    /// The fault with which the exchange ends when its last attempt failed with `last`:
    /// `last` itself for a single exchange, and for one with retries the fault that
    /// says that they are exhausted, with `last` enclosed.
    pub open spec fn final_fault(self, last: SerialFault) -> SerialFault {
        if self.retrying {
            SerialFault::exhausted(last)
        } else {
            last
        }
    }

    /// The same exchange in the phase `phase`.
    pub open spec fn goto(self, phase: LinkPhase) -> ExchangeState {
        ExchangeState { phase, ..self }
    }

    /// The running attempt failed with `fault`: it is made again from the start while
    /// an attempt is left, and else the exchange is over with its final fault.
    pub open spec fn attempt_failed(self, fault: SerialFault) -> (ExchangeState, LinkStep) {
        if self.attempts_left <= 1 {
            (
                ExchangeState { phase: LinkPhase::Finished, attempts_left: 0, ..self },
                LinkStep::Done(Err(self.final_fault(fault))),
            )
        } else {
            (
                ExchangeState {
                    phase: LinkPhase::Flush,
                    attempts_left: (self.attempts_left - 1) as u8,
                    ..self
                },
                LinkStep::Flush,
            )
        }
    }

    /// The answer `raw` is the device's last word in this attempt.
    pub open spec fn answered(self, raw: Seq<u8>) -> (ExchangeState, LinkStep) {
        match classify_spec(raw) {
            Ok(text) => (
                ExchangeState { phase: LinkPhase::Finished, attempts_left: 0, ..self },
                LinkStep::Done(Ok(text)),
            ),
            Err(fault) => self.attempt_failed(fault),
        }
    }

    /// The state and the action that follow when `event` comes in.
    ///
    /// An attempt flushes, clears the buffers, writes the framed command, sleeps for the
    /// delay unless it is zero, and reads. Where the answer is the sentinel `rcv_str`, the
    /// real answer comes later: the attempt polls, sleeping for the delay in between,
    /// until bytes wait or `timeout_long` has passed, and reads again. A failure of the
    /// port, and an event that does not answer the action, fail the attempt. An exchange
    /// that is over has no attempt left to take an event in.
    pub open spec fn step(self, cfg: LinkConfig, event: LinkEvent) -> (ExchangeState, LinkStep) {
        match (self.phase, event) {
            (LinkPhase::Finished, _) => (
                self,
                LinkStep::Done(Err(SerialFault::RetriesExhausted(None))),
            ),
            (LinkPhase::Flush, LinkEvent::Done) => (
                self.goto(LinkPhase::Clear),
                LinkStep::ClearBuffers,
            ),
            (LinkPhase::Clear, LinkEvent::Done) => (
                self.goto(LinkPhase::Write),
                LinkStep::Write(self.framed),
            ),
            (LinkPhase::Write, LinkEvent::Done) => if cfg.delay != 0 {
                (self.goto(LinkPhase::Settle), LinkStep::Sleep(cfg.delay))
            } else {
                (self.goto(LinkPhase::FirstRead), LinkStep::Read)
            },
            (LinkPhase::Settle, LinkEvent::Done) => (
                self.goto(LinkPhase::FirstRead),
                LinkStep::Read,
            ),
            (LinkPhase::FirstRead, LinkEvent::Data(raw)) => if raw@ == cfg.rcv_str {
                (self.goto(LinkPhase::Poll), LinkStep::Poll)
            } else {
                self.answered(raw@)
            },
            (LinkPhase::Poll, LinkEvent::Pending { elapsed, waiting }) => if elapsed
                < cfg.timeout_long && waiting == 0 {
                (self.goto(LinkPhase::PollSleep), LinkStep::Sleep(cfg.delay))
            } else {
                (self.goto(LinkPhase::SecondRead), LinkStep::Read)
            },
            (LinkPhase::PollSleep, LinkEvent::Done) => (self.goto(LinkPhase::Poll), LinkStep::Poll),
            (LinkPhase::SecondRead, LinkEvent::Data(raw)) => self.answered(raw@),
            (_, _) => self.attempt_failed(SerialFault::IOError),
        }
    }
}

/// An exchange ends well only with an answer that is not empty and does not hold the
/// word `ERROR`.
pub proof fn lemma_exchange_success_is_clean(s: ExchangeState, cfg: LinkConfig, event: LinkEvent)
    ensures
        s.step(cfg, event).1 matches LinkStep::Done(Ok(text)) ==> text.len() > 0 && !has_subseq(
            text,
            "ERROR".spec_bytes(),
        ),
{
}

/// No step gives an exchange more attempts than it had, and none changes the command.
pub proof fn lemma_exchange_attempts_never_grow(
    s: ExchangeState,
    cfg: LinkConfig,
    event: LinkEvent,
)
    ensures
        s.step(cfg, event).0.attempts_left <= s.attempts_left,
        s.step(cfg, event).0.framed == s.framed,
{
}

/// An exchange that stands in its last attempt is over as soon as that attempt fails:
/// a single exchange with the fault of the attempt, one with retries with
/// `RetriesExhausted` and that fault in it.
pub proof fn lemma_exchange_last_attempt(s: ExchangeState, fault: SerialFault)
    requires
        s.attempts_left <= 1,
    ensures
        s.attempt_failed(fault).0.phase == LinkPhase::Finished,
        !s.retrying ==> s.attempt_failed(fault).1 == LinkStep::Done(Err(fault)),
        s.retrying ==> s.attempt_failed(fault).1 == LinkStep::Done(
            Err(SerialFault::RetriesExhausted(Some(Box::new(fault)))),
        ),
{
}

impl ExchangeState {
    /// While the exchange runs, an attempt is left.
    pub open spec fn wf(self) -> bool {
        self.phase != LinkPhase::Finished ==> self.attempts_left >= 1
    }

    /// How often the command may still be written: once for each attempt that has not
    /// written it yet.
    pub open spec fn sends_left(self) -> int {
        match self.phase {
            LinkPhase::Finished => 0,
            LinkPhase::Flush | LinkPhase::Clear => self.attempts_left as int,
            _ => self.attempts_left - 1,
        }
    }

    /// How often the command is written while the events `events` come in.
    pub open spec fn sends_over(self, cfg: LinkConfig, events: Seq<LinkEvent>) -> nat
        decreases events.len(),
    {
        if events.len() == 0 {
            0
        } else {
            let next = self.step(cfg, events[0]);
            let sent: nat = if next.1 is Write {
                1
            } else {
                0
            };
            sent + next.0.sends_over(cfg, events.skip(1))
        }
    }
}

/// A step that has the command written uses up one of the writes that are left, and no
/// step adds one.
pub proof fn lemma_exchange_step_sends(s: ExchangeState, cfg: LinkConfig, event: LinkEvent)
    requires
        s.wf(),
    ensures
        s.step(cfg, event).0.wf(),
        s.step(cfg, event).0.retrying == s.retrying,
        s.step(cfg, event).0.sends_left() + (if s.step(cfg, event).1 is Write {
            1int
        } else {
            0int
        }) <= s.sends_left(),
{
}

/// Whatever comes in, the command is written no more often than attempts are left: an
/// exchange with retries sends it at most `n_retries` times, a single one at most once.
pub proof fn lemma_exchange_sends_are_bounded(
    s: ExchangeState,
    cfg: LinkConfig,
    events: Seq<LinkEvent>,
)
    requires
        s.wf(),
    ensures
        s.sends_over(cfg, events) <= s.sends_left(),
    decreases events.len(),
{
    if events.len() > 0 {
        lemma_exchange_step_sends(s, cfg, events[0]);
        lemma_exchange_sends_are_bounded(s.step(cfg, events[0]).0, cfg, events.skip(1));
    }
}

/// An exchange starts with as many writes left as it has attempts.
pub proof fn lemma_exchange_start(cfg: LinkConfig, cmd: Seq<u8>)
    ensures
        ExchangeState::single(cfg, cmd).0.wf(),
        ExchangeState::single(cfg, cmd).0.sends_left() == 1,
        ExchangeState::with_retries(cfg, cmd).0.wf(),
        ExchangeState::with_retries(cfg, cmd).0.sends_left() == cfg.n_retries,
{
}

/// Sorts an answer out: trims it, and refuses an empty one or one that holds `ERROR`.
pub fn classify(raw: &[u8]) -> (r: Result<Vec<u8>, SerialManagerError>)
    ensures
        outcome_view(r) == classify_spec(raw@),
{
    let text = trim(raw);
    if text.len() == 0 {
        return Err(SerialManagerError::Empty);
    }
    if contains(text.as_slice(), "ERROR".as_bytes()) {
        return Err(SerialManagerError::DeviceError(text));
    }
    Ok(text)
}

impl Exchange {
    /// The phase in which the exchange stands.
    pub fn phase(&self) -> (p: LinkPhase)
        ensures
            p == self@.phase,
    {
        self.phase
    }

    /// Tells whether the exchange is over.
    pub fn is_finished(&self) -> (r: bool)
        ensures
            r == (self@.phase == LinkPhase::Finished),
    {
        match self.phase {
            LinkPhase::Finished => true,
            _ => false,
        }
    }

    /// Starts the next attempt, or ends the exchange where none is left.
    fn attempt_failed(&mut self, error: SerialManagerError) -> (action: LinkAction)
        ensures
            (final(self)@, action@) == old(self)@.attempt_failed(error@),
    {
        if self.attempts_left <= 1 {
            self.phase = LinkPhase::Finished;
            self.attempts_left = 0;
            if self.retrying {
                LinkAction::Done(Err(SerialManagerError::RetriesExhausted(Some(Box::new(error)))))
            } else {
                LinkAction::Done(Err(error))
            }
        } else {
            self.phase = LinkPhase::Flush;
            self.attempts_left = self.attempts_left - 1;
            LinkAction::Flush
        }
    }

    /// Takes `raw` as the device's last word in this attempt.
    fn answered(&mut self, raw: &[u8]) -> (action: LinkAction)
        ensures
            (final(self)@, action@) == old(self)@.answered(raw@),
    {
        match classify(raw) {
            Ok(text) => {
                self.phase = LinkPhase::Finished;
                self.attempts_left = 0;
                LinkAction::Done(Ok(text))
            },
            Err(error) => self.attempt_failed(error),
        }
    }

    /// Takes in what came of the last action, and says what to do next.
    pub fn step(&mut self, link: &SerialManager, event: LinkEvent) -> (action: LinkAction)
        ensures
            (final(self)@, action@) == old(self)@.step(link@, event),
    {
        match (self.phase, event) {
            (LinkPhase::Finished, _) => LinkAction::Done(
                Err(SerialManagerError::RetriesExhausted(None)),
            ),
            (LinkPhase::Flush, LinkEvent::Done) => {
                self.phase = LinkPhase::Clear;
                LinkAction::ClearBuffers
            },
            (LinkPhase::Clear, LinkEvent::Done) => {
                self.phase = LinkPhase::Write;
                LinkAction::Write(to_vec(self.framed.as_slice()))
            },
            (LinkPhase::Write, LinkEvent::Done) => {
                if link.delay != 0 {
                    self.phase = LinkPhase::Settle;
                    LinkAction::Sleep(link.delay)
                } else {
                    self.phase = LinkPhase::FirstRead;
                    LinkAction::Read
                }
            },
            (LinkPhase::Settle, LinkEvent::Done) => {
                self.phase = LinkPhase::FirstRead;
                LinkAction::Read
            },
            (LinkPhase::FirstRead, LinkEvent::Data(raw)) => {
                if bytes_eq(raw.as_slice(), link.rcv_str.as_slice()) {
                    self.phase = LinkPhase::Poll;
                    LinkAction::Poll
                } else {
                    self.answered(raw.as_slice())
                }
            },
            (LinkPhase::Poll, LinkEvent::Pending { elapsed, waiting }) => {
                if elapsed < link.timeout_long && waiting == 0 {
                    self.phase = LinkPhase::PollSleep;
                    LinkAction::Sleep(link.delay)
                } else {
                    self.phase = LinkPhase::SecondRead;
                    LinkAction::Read
                }
            },
            (LinkPhase::PollSleep, LinkEvent::Done) => {
                self.phase = LinkPhase::Poll;
                LinkAction::Poll
            },
            (LinkPhase::SecondRead, LinkEvent::Data(raw)) => self.answered(raw.as_slice()),
            (_, _) => self.attempt_failed(SerialManagerError::IOError),
        }
    }
}

/// The answer is a list in square brackets.
pub open spec fn is_bracketed(reply: Seq<u8>) -> bool {
    reply.len() > 0 && reply[0] == 91 && reply.last() == 93
}

/// The readings that the answer `[v1,v2,...]` lists, in thousandths.
pub open spec fn reply_hx_spec(reply: Seq<u8>) -> Result<Seq<i64>, SerialFault> {
    if !is_bracketed(reply) {
        Err(SerialFault::MalformedPayload)
    } else {
        match parse_fields(split_fields(reply.subrange(1, reply.len() - 1), 44)) {
            Some(values) => Ok(values),
            None => Err(SerialFault::ParseFloat),
        }
    }
}

/// The line that asks for one reading of each channel, averaged over `n` conversions.
pub open spec fn cmd_hx_text(n: u8) -> Seq<u8> {
    "hx ".spec_bytes() + int_text(n as int)
}

/// The line that asks for one reading of the channel `index`.
pub open spec fn cmd_hx_single_text(index: u8, n: u8) -> Seq<u8> {
    "hx_single ".spec_bytes() + int_text(n as int) + " ".spec_bytes() + int_text(index as int)
}

/// The line that moves the stepper by `steps`, and releases it afterwards if `detach`.
pub open spec fn cmd_stepper_text(steps: i64, detach: bool) -> Seq<u8> {
    "stepper ".spec_bytes() + int_text(steps as int) + (if detach {
        " 1".spec_bytes()
    } else {
        Seq::<u8>::empty()
    })
}

/// The line that turns the servo to `angle`.
pub open spec fn cmd_servo_text(angle: u8) -> Seq<u8> {
    "servo ".spec_bytes() + int_text(angle as int)
}

/// The line that runs the pump for `time_ms` at `intensity` per cent.
pub open spec fn cmd_pump_text(time_ms: u32, intensity: u8) -> Seq<u8> {
    "pump ".spec_bytes() + int_text(time_ms as int) + " ".spec_bytes() + int_text(intensity as int)
}

/// `1` or `0` for attached or released.
pub open spec fn flag_text(on: bool) -> Seq<u8> {
    if on {
        "1".spec_bytes()
    } else {
        "0".spec_bytes()
    }
}

impl SerialManager {
    /// The settings of a link. What is not given is 3 attempts, a delay of half a second,
    /// a long timeout of 30 seconds, a line feed as terminator, and `rcv` as sentinel.
    /// A terminator outside ASCII is refused.
    pub fn new(
        n_retries: Option<u8>,
        delay: Option<u64>,
        timeout_long: Option<u64>,
        end_char: Option<u8>,
        rcv_str: Option<&[u8]>,
    ) -> (r: Result<SerialManager, SerialManagerError>)
        ensures
            r.is_err() <==> (end_char matches Some(c) && c > 127),
            r matches Err(e) ==> e@ == SerialFault::ArgumentError,
            r matches Ok(m) ==> m@ == (LinkConfig {
                n_retries: match n_retries {
                    Some(n) => n,
                    None => 3,
                },
                delay: match delay {
                    Some(d) => d,
                    None => 500,
                },
                timeout_long: match timeout_long {
                    Some(t) => t,
                    None => 30_000,
                },
                end_char: match end_char {
                    Some(c) => c,
                    None => 10,
                },
                rcv_str: match rcv_str {
                    Some(t) => t@,
                    None => "rcv".spec_bytes(),
                },
                last_hx_n: None,
                last_hx_n_time: None,
            }),
    {
        let end: u8 = match end_char {
            Some(c) => {
                if c > 127 {
                    return Err(SerialManagerError::ArgumentError);
                }
                c
            },
            None => 10,
        };
        Ok(
            SerialManager {
                n_retries: match n_retries {
                    Some(n) => n,
                    None => 3,
                },
                delay: match delay {
                    Some(d) => d,
                    None => 500,
                },
                timeout_long: match timeout_long {
                    Some(t) => t,
                    None => 30_000,
                },
                end_char: end,
                rcv_str: match rcv_str {
                    Some(t) => to_vec(t),
                    None => to_vec("rcv".as_bytes()),
                },
                last_hx_n: None,
                last_hx_n_time: None,
            },
        )
    }

    /// How many attempts a command gets.
    pub fn n_retries(&self) -> (r: u8)
        ensures
            r == self@.n_retries,
    {
        self.n_retries
    }

    /// The pause after a write and between polls, in milliseconds.
    pub fn delay(&self) -> (r: u64)
        ensures
            r == self@.delay,
    {
        self.delay
    }

    /// For how long a late answer is waited for, in milliseconds.
    pub fn timeout_long(&self) -> (r: u64)
        ensures
            r == self@.timeout_long,
    {
        self.timeout_long
    }

    /// The byte that ends a command.
    pub fn end_char(&self) -> (r: u8)
        ensures
            r == self@.end_char,
    {
        self.end_char
    }

    /// The answer that announces a later one.
    pub fn rcv_str(&self) -> (r: &Vec<u8>)
        ensures
            r@ == self@.rcv_str,
    {
        &self.rcv_str
    }

    /// `cmd` with the terminator after it, unless it ends with it already.
    fn frame(&self, cmd: &[u8]) -> (line: Vec<u8>)
        ensures
            line@ == framed(cmd@, self@.end_char),
    {
        let mut line = to_vec(cmd);
        let n = cmd.len();
        if n == 0 || cmd[n - 1] != self.end_char {
            line.push(self.end_char);
        }
        line
    }

    /// Starts the exchange of `cmd` with a single attempt. The exchange ends with the
    /// answer, or with the fault of that attempt.
    pub fn send_command_wait_response(&self, cmd: &[u8]) -> (r: (Exchange, LinkAction))
        ensures
            (r.0@, r.1@) == ExchangeState::single(self@, cmd@),
    {
        (
            Exchange {
                framed: self.frame(cmd),
                phase: LinkPhase::Flush,
                attempts_left: 1,
                retrying: false,
            },
            LinkAction::Flush,
        )
    }

    /// Starts the exchange of `cmd` with as many attempts as the link allows. The
    /// exchange ends with the first answer that is neither empty nor an error, or, when
    /// the last attempt has failed, with `RetriesExhausted` and the fault of that
    /// attempt in it.
    pub fn send_command_wait_response_retries(&self, cmd: &[u8]) -> (r: (Exchange, LinkAction))
        ensures
            (r.0@, r.1@) == ExchangeState::with_retries(self@, cmd@),
    {
        if self.n_retries == 0 {
            (
                Exchange {
                    framed: self.frame(cmd),
                    phase: LinkPhase::Finished,
                    attempts_left: 0,
                    retrying: true,
                },
                LinkAction::Done(Err(SerialManagerError::RetriesExhausted(None))),
            )
        } else {
            (
                Exchange {
                    framed: self.frame(cmd),
                    phase: LinkPhase::Flush,
                    attempts_left: self.n_retries,
                    retrying: true,
                },
                LinkAction::Flush,
            )
        }
    }

    /// The line that asks whether the device is idle.
    pub fn cmd_ok() -> (cmd: Vec<u8>)
        ensures
            cmd@ == "ok".spec_bytes(),
    {
        to_vec("ok".as_bytes())
    }

    /// Tells whether the device answered `OK`.
    pub fn reply_ok(reply: &[u8]) -> (r: bool)
        ensures
            r == (reply@ == "OK".spec_bytes()),
    {
        bytes_eq(reply, "OK".as_bytes())
    }

    /// The line that asks for one reading of each channel.
    pub fn cmd_hx(n: u8) -> (cmd: Vec<u8>)
        ensures
            cmd@ == cmd_hx_text(n),
    {
        let mut cmd: Vec<u8> = Vec::new();
        push_str(&mut cmd, "hx ");
        push_int(&mut cmd, n as i64);
        assert(cmd@ =~= cmd_hx_text(n));
        cmd
    }

    /// Reads the list of readings `[v1,v2,...]`.
    pub fn reply_hx(reply: &[u8]) -> (r: Result<Vec<i64>, SerialManagerError>)
        ensures
            match r {
                Ok(values) => reply_hx_spec(reply@) == Ok::<Seq<i64>, SerialFault>(values@),
                Err(e) => reply_hx_spec(reply@) == Err::<Seq<i64>, SerialFault>(e@),
            },
            r matches Ok(values) ==> forall|i: int|
                0 <= i < values@.len() ==> -crate::decimal::MAX_MILLI <= #[trigger] values@[i]
                    <= crate::decimal::MAX_MILLI,
    {
        let n: usize = reply.len();
        if n == 0 || reply[0] != 91 || reply[n - 1] != 93 {
            return Err(SerialManagerError::MalformedPayload);
        }
        let fields = split_bytes(slice_subrange(reply, 1, n - 1), 44);
        match parse_list(&fields) {
            Some(values) => Ok(values),
            None => Err(SerialManagerError::ParseFloat),
        }
    }

    /// The line that asks for one reading of the channel `index`.
    pub fn cmd_hx_single(index: u8, n: u8) -> (cmd: Vec<u8>)
        ensures
            cmd@ == cmd_hx_single_text(index, n),
    {
        let mut cmd: Vec<u8> = Vec::new();
        push_str(&mut cmd, "hx_single ");
        push_int(&mut cmd, n as i64);
        push_str(&mut cmd, " ");
        push_int(&mut cmd, index as i64);
        assert(cmd@ =~= cmd_hx_single_text(index, n));
        cmd
    }

    /// Reads a single reading.
    pub fn reply_hx_single(reply: &[u8]) -> (r: Result<i64, SerialManagerError>)
        ensures
            match r {
                Ok(v) => parse_milli_spec(trimmed(reply@)) == Some(v),
                Err(e) => e@ == SerialFault::ParseFloat && parse_milli_spec(trimmed(reply@)).is_none(),
            },
    {
        let text = trim(reply);
        match parse_milli(text.as_slice()) {
            Some(v) => Ok(v),
            None => Err(SerialManagerError::ParseFloat),
        }
    }

    /// The line that asks how many channels the device has.
    pub fn cmd_hx_n() -> (cmd: Vec<u8>)
        ensures
            cmd@ == "hx_n".spec_bytes(),
    {
        to_vec("hx_n".as_bytes())
    }

    /// The channel count that need not be asked for again at time `now`.
    pub fn cached_hx_n(&self, now: u64) -> (r: Option<usize>)
        ensures
            r == self@.cached_hx_n(now),
    {
        match (self.last_hx_n, self.last_hx_n_time) {
            (Some(n), Some(t)) => {
                if t <= now && now - t <= HX_N_TTL_MS {
                    Some(n)
                } else {
                    None
                }
            },
            _ => None,
        }
    }

    /// Reads the channel count that the device reported.
    pub fn reply_hx_n(reply: &[u8]) -> (r: Result<usize, SerialManagerError>)
        ensures
            match r {
                Ok(n) => parse_unsigned_spec(reply@, usize::MAX as u64) == Some(n as u64),
                Err(e) => e@ == SerialFault::ParseInt && parse_unsigned_spec(
                    reply@,
                    usize::MAX as u64,
                ).is_none(),
            },
    {
        match parse_unsigned(reply, usize::MAX as u64) {
            Some(n) => Ok(n as usize),
            None => Err(SerialManagerError::ParseInt),
        }
    }

    /// Keeps the channel count `n` that the device reported at time `now`.
    pub fn store_hx_n(&mut self, n: usize, now: u64)
        ensures
            final(self)@ == (LinkConfig {
                last_hx_n: Some(n),
                last_hx_n_time: Some(now),
                ..old(self)@
            }),
        no_unwind
    {
        self.last_hx_n = Some(n);
        self.last_hx_n_time = Some(now);
    }

    /// The line that asks for humidity and temperature.
    pub fn cmd_dht() -> (cmd: Vec<u8>)
        ensures
            cmd@ == "dht".spec_bytes(),
    {
        to_vec("dht".as_bytes())
    }

    /// The line that moves the stepper by `steps`.
    pub fn cmd_stepper(steps: i64, detach: bool) -> (cmd: Vec<u8>)
        ensures
            cmd@ == cmd_stepper_text(steps, detach),
    {
        let mut cmd: Vec<u8> = Vec::new();
        push_str(&mut cmd, "stepper ");
        push_int(&mut cmd, steps);
        if detach {
            push_str(&mut cmd, " 1");
        }
        assert(cmd@ =~= cmd_stepper_text(steps, detach));
        cmd
    }

    /// Checks the answer to a command that is acknowledged with `OK`.
    pub fn reply_done(reply: &[u8]) -> (r: Result<(), SerialManagerError>)
        ensures
            r.is_ok() <==> reply@ == "OK".spec_bytes(),
            r matches Err(e) ==> e@ == SerialFault::MalformedPayload,
    {
        if bytes_eq(reply, "OK".as_bytes()) {
            Ok(())
        } else {
            Err(SerialManagerError::MalformedPayload)
        }
    }

    /// The line that turns the servo to `angle`, which must lie between 1 and 179.
    pub fn cmd_servo(angle: u8) -> (r: Result<Vec<u8>, SerialManagerError>)
        ensures
            r.is_ok() <==> 1 <= angle <= 179,
            r matches Ok(cmd) ==> cmd@ == cmd_servo_text(angle),
            r matches Err(e) ==> e@ == SerialFault::ArgumentError,
    {
        if angle < 1 || angle > 179 {
            return Err(SerialManagerError::ArgumentError);
        }
        let mut cmd: Vec<u8> = Vec::new();
        push_str(&mut cmd, "servo ");
        push_int(&mut cmd, angle as i64);
        assert(cmd@ =~= cmd_servo_text(angle));
        Ok(cmd)
    }

    /// Checks that the device echoed the angle it was told.
    pub fn reply_servo(angle: u8, reply: &[u8]) -> (r: Result<(), SerialManagerError>)
        ensures
            r.is_ok() <==> parse_unsigned_spec(reply@, 255) == Some(angle as u64),
            r matches Err(e) ==> e@ == (if parse_unsigned_spec(reply@, 255).is_none() {
                SerialFault::ParseInt
            } else {
                SerialFault::DeviceError(reply@)
            }),
    {
        match parse_unsigned(reply, 255) {
            None => Err(SerialManagerError::ParseInt),
            Some(echo) => {
                if echo != angle as u64 {
                    Err(SerialManagerError::DeviceError(to_vec(reply)))
                } else {
                    Ok(())
                }
            },
        }
    }

    /// The line that runs the pump; the intensity must not exceed 100.
    pub fn cmd_pump(time_ms: u32, intensity: u8) -> (r: Result<Vec<u8>, SerialManagerError>)
        ensures
            r.is_ok() <==> intensity <= 100,
            r matches Ok(cmd) ==> cmd@ == cmd_pump_text(time_ms, intensity),
            r matches Err(e) ==> e@ == SerialFault::ArgumentError,
    {
        if intensity > 100 {
            return Err(SerialManagerError::ArgumentError);
        }
        let mut cmd: Vec<u8> = Vec::new();
        push_str(&mut cmd, "pump ");
        push_int(&mut cmd, time_ms as i64);
        push_str(&mut cmd, " ");
        push_int(&mut cmd, intensity as i64);
        assert(cmd@ =~= cmd_pump_text(time_ms, intensity));
        Ok(cmd)
    }

    /// The line that powers the stepper or releases it.
    pub fn stepper_attach(attach: bool) -> (cmd: Vec<u8>)
        ensures
            cmd@ == "stepper_attach ".spec_bytes() + flag_text(attach),
    {
        let mut cmd: Vec<u8> = Vec::new();
        push_str(&mut cmd, "stepper_attach ");
        push_str(
            &mut cmd,
            if attach {
                "1"
            } else {
                "0"
            },
        );
        cmd
    }

    /// The line that powers the servo or releases it.
    pub fn servo_attach(attach: bool) -> (cmd: Vec<u8>)
        ensures
            cmd@ == "servo_attach ".spec_bytes() + flag_text(attach),
    {
        let mut cmd: Vec<u8> = Vec::new();
        push_str(&mut cmd, "servo_attach ");
        push_str(
            &mut cmd,
            if attach {
                "1"
            } else {
                "0"
            },
        );
        cmd
    }
}

} // verus!
