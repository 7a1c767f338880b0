//! Session engine: drives one subprocess generation through its lifecycle.
//!
//! States run `Unstarted → Starting → Initializing → Ready → Serving → Ready`
//! around each exchange; any I/O failure, end of file, or deadline makes the
//! generation `Dead`, which is terminal until an explicit restart begins a new
//! generation.  The engine itself performs no I/O: the caller reads lines,
//! observes timeouts and end of file, and feeds them in; the engine decides.
//!
//! One exchange is: write one encoded user message, then absorb read outcomes
//! until a terminal `result` event is decoded, the per-exchange deadline
//! passes, or the stream fails.  Every decoded event may carry the session
//! identity, which is recorded whatever the outcome of the exchange.

use vstd::prelude::*;

use crate::codec::{
    decode_line, encode_user_message, spec_decode_line, spec_encode_user_message,
    spec_event_identity, ParsedEvent, ParsedEventV,
};

verus! {

// ---------------------------------------------------------------------------
// Errors and outcomes
// ---------------------------------------------------------------------------

/// Why a supervisor operation failed.
#[derive(Debug)]
pub enum SessionError {
    /// The subprocess could not be created, or never completed its startup
    /// handshake: the generation was never usable.
    SpawnFailure,
    /// The startup or per-response deadline passed.
    ProtocolTimeout,
    /// A read or write on the subprocess pipes failed, including end of file
    /// and any attempt to use a dead generation.
    ProtocolIo,
    /// The subprocess itself reported an error for this exchange.
    Semantic(String),
    /// The bounded request queue was full.
    QueueSaturated,
}

/// Specification-level error.
pub enum SessionErrorV {
    SpawnFailure,
    ProtocolTimeout,
    ProtocolIo,
    Semantic(Seq<char>),
    QueueSaturated,
}

/// The model of an error.
pub open spec fn err_view(e: SessionError) -> SessionErrorV {
    match e {
        SessionError::SpawnFailure => SessionErrorV::SpawnFailure,
        SessionError::ProtocolTimeout => SessionErrorV::ProtocolTimeout,
        SessionError::ProtocolIo => SessionErrorV::ProtocolIo,
        SessionError::Semantic(m) => SessionErrorV::Semantic(m@),
        SessionError::QueueSaturated => SessionErrorV::QueueSaturated,
    }
}

impl View for SessionError {
    type V = SessionErrorV;

    open spec fn view(&self) -> SessionErrorV {
        err_view(*self)
    }
}

impl DeepView for SessionError {
    type V = SessionErrorV;

    open spec fn deep_view(&self) -> SessionErrorV {
        err_view(*self)
    }
}

/// Lifecycle state of the current subprocess generation.
#[derive(PartialEq, Eq, Structural, Clone, Copy, Debug)]
pub enum EngineState {
    /// No subprocess has ever been started.
    Unstarted,
    /// A spawn has been requested and has not completed.
    Starting,
    /// The subprocess runs; the startup handshake is not complete.
    Initializing,
    /// The generation is usable and no exchange is in flight.
    Ready,
    /// One exchange is in flight.
    Serving,
    /// The generation is unusable; only a restart leaves this state.
    Dead,
}

/// What one read attempt on the subprocess output produced.
pub enum ReadOutcome {
    /// One full line.
    Line(String),
    /// No line within the per-read wait.
    Timeout,
    /// The subprocess closed its output: always fatal for the generation.
    Eof,
    /// The read itself failed.
    Failed,
}

/// Specification-level read outcome.
pub enum ReadOutcomeV {
    Line(Seq<char>),
    Timeout,
    Eof,
    Failed,
}

/// The model of a read outcome.
pub open spec fn read_outcome_view(o: ReadOutcome) -> ReadOutcomeV {
    match o {
        ReadOutcome::Line(l) => ReadOutcomeV::Line(l@),
        ReadOutcome::Timeout => ReadOutcomeV::Timeout,
        ReadOutcome::Eof => ReadOutcomeV::Eof,
        ReadOutcome::Failed => ReadOutcomeV::Failed,
    }
}

impl View for ReadOutcome {
    type V = ReadOutcomeV;

    open spec fn view(&self) -> ReadOutcomeV {
        read_outcome_view(*self)
    }
}

impl DeepView for ReadOutcome {
    type V = ReadOutcomeV;

    open spec fn deep_view(&self) -> ReadOutcomeV {
        read_outcome_view(*self)
    }
}

/// What the engine decided after absorbing one read outcome.
pub enum StepOutcome {
    /// Keep reading.
    Pending,
    /// The exchange finished with this response text.
    Done(String),
    /// The exchange failed.
    Failed(SessionError),
}

/// Specification-level step outcome.
pub enum StepOutcomeV {
    Pending,
    Done(Seq<char>),
    Failed(SessionErrorV),
}

/// The model of a step outcome.
pub open spec fn step_view(s: StepOutcome) -> StepOutcomeV {
    match s {
        StepOutcome::Pending => StepOutcomeV::Pending,
        StepOutcome::Done(t) => StepOutcomeV::Done(t@),
        StepOutcome::Failed(e) => StepOutcomeV::Failed(err_view(e)),
    }
}

impl View for StepOutcome {
    type V = StepOutcomeV;

    open spec fn view(&self) -> StepOutcomeV {
        step_view(*self)
    }
}

// ---------------------------------------------------------------------------
// Pure transition functions
// ---------------------------------------------------------------------------

/// The recorded identity after seeing one event: an identity on the event
/// overwrites, its absence keeps the old one.
pub open spec fn spec_apply_identity(old_id: Option<Seq<char>>, e: ParsedEventV) -> Option<
    Seq<char>,
> {
    match spec_event_identity(e) {
        Some(id) => Some(id),
        None => old_id,
    }
}

/// One exchange step on a decoded event: the new fallback text and the
/// decision.  A `result` with text finishes with it; one without text falls
/// back to the last seen assistant text (or the empty string); a `result`
/// carrying `is_error` fails the exchange semantically; everything else keeps
/// reading, with assistant text recorded as the new fallback.
pub open spec fn spec_line_step(last_assistant: Option<Seq<char>>, e: ParsedEventV) -> (
    Option<Seq<char>>,
    StepOutcomeV,
) {
    match e {
        ParsedEventV::AssistantText { text, .. } => (Some(text), StepOutcomeV::Pending),
        ParsedEventV::ResultOk { text: Some(t), .. } => (last_assistant, StepOutcomeV::Done(t)),
        ParsedEventV::ResultOk { text: None, .. } => (
            last_assistant,
            StepOutcomeV::Done(
                match last_assistant {
                    Some(t) => t,
                    None => Seq::empty(),
                },
            ),
        ),
        ParsedEventV::ResultError { message, .. } => (
            last_assistant,
            StepOutcomeV::Failed(SessionErrorV::Semantic(message)),
        ),
        _ => (last_assistant, StepOutcomeV::Pending),
    }
}

// ---------------------------------------------------------------------------
// The engine
// ---------------------------------------------------------------------------

/// The per-generation state the supervisor shares: lifecycle state and the
/// identity the subprocess last reported.
pub struct Engine {
    /// Lifecycle state of the current generation.
    pub state: EngineState,
    /// The opaque session token the subprocess last reported; `None` until
    /// first reported, cleared when a generation is torn down.
    pub identity: Option<String>,
}

/// Progress of one in-flight exchange.
pub struct Exchange {
    /// The last assistant text seen, the fallback for a bare `result`.
    pub last_assistant: Option<String>,
}

/// Progress of the startup handshake: `Ready` requires both the `init`
/// event and the `result` of the startup probe.
pub struct Handshake {
    /// An `init` system event has been seen.
    pub got_init: bool,
    /// A terminal `result` event has been seen.
    pub got_result: bool,
}

impl Engine {
    /// A fresh engine with no subprocess.
    pub fn new() -> (r: Engine)
        ensures
            r.state == EngineState::Unstarted,
            r.identity is None,
    {
        Engine { state: EngineState::Unstarted, identity: None }
    }

    /// Begin a (re)start: the previous generation, if any, is torn down and
    /// its identity discarded before a new one is created.
    pub fn begin_start(&mut self)
        ensures
            final(self).state == EngineState::Starting,
            final(self).identity is None,
    {
        self.state = EngineState::Starting;
        self.identity = None;
    }

    /// Absorb the result of the spawn attempt.
    pub fn spawn_result(&mut self, ok: bool) -> (r: Result<(), SessionError>)
        requires
            old(self).state == EngineState::Starting,
        ensures
            final(self).identity == old(self).identity,
            ok ==> final(self).state == EngineState::Initializing && r is Ok,
            !ok ==> final(self).state == EngineState::Dead && (r matches Err(e)
                && e@ == SessionErrorV::SpawnFailure),
    {
        if ok {
            self.state = EngineState::Initializing;
            Ok(())
        } else {
            self.state = EngineState::Dead;
            Err(SessionError::SpawnFailure)
        }
    }

    /// Record an identity if the event carries one.
    fn apply_identity(&mut self, e: &ParsedEvent)
        ensures
            final(self).state == old(self).state,
            final(self).identity.deep_view() == spec_apply_identity(
                old(self).identity.deep_view(),
                e@,
            ),
    {
        match e.identity() {
            Some(id) => {
                self.identity = Some(id.clone());
            },
            None => {},
        }
    }

    /// Begin one exchange on a ready generation.
    pub fn begin_exchange(&mut self) -> (ex: Exchange)
        requires
            old(self).state == EngineState::Ready,
        ensures
            final(self).state == EngineState::Serving,
            final(self).identity == old(self).identity,
            ex.last_assistant is None,
    {
        self.state = EngineState::Serving;
        Exchange { last_assistant: None }
    }

    /// Absorb one line read during an exchange, against the per-exchange
    /// deadline.
    ///
    /// The decoded event updates the identity and the fallback text whatever
    /// it is.  A terminal event returns the generation to `Ready` (a
    /// semantic error does not affect session state); anything else keeps
    /// serving — unless the deadline has passed, which fails the exchange
    /// with a timeout and kills the generation, so even a subprocess that
    /// streams lines without end cannot outlive the deadline.
    pub fn absorb_line(
        &mut self,
        ex: &mut Exchange,
        line: &str,
        deadline_passed: bool,
    ) -> (r: StepOutcome)
        requires
            old(self).state == EngineState::Serving,
        ensures
            ({
                let e = spec_decode_line(line@);
                let step = spec_line_step(old(ex).last_assistant.deep_view(), e);
                &&& final(self).identity.deep_view() == spec_apply_identity(
                    old(self).identity.deep_view(),
                    e,
                )
                &&& final(ex).last_assistant.deep_view() == step.0
                &&& r@ == (if step.1 is Pending && deadline_passed {
                    StepOutcomeV::Failed(SessionErrorV::ProtocolTimeout)
                } else {
                    step.1
                })
                &&& final(self).state == (if r@ is Pending {
                    EngineState::Serving
                } else if r@ == StepOutcomeV::Failed(SessionErrorV::ProtocolTimeout) {
                    EngineState::Dead
                } else {
                    EngineState::Ready
                })
            }),
    {
        let e = decode_line(line);
        self.apply_identity(&e);
        match e {
            ParsedEvent::AssistantText { text, .. } => {
                ex.last_assistant = Some(text);
                if deadline_passed {
                    self.state = EngineState::Dead;
                    StepOutcome::Failed(SessionError::ProtocolTimeout)
                } else {
                    StepOutcome::Pending
                }
            },
            ParsedEvent::ResultOk { text: Some(t), .. } => {
                self.state = EngineState::Ready;
                StepOutcome::Done(t)
            },
            ParsedEvent::ResultOk { text: None, .. } => {
                self.state = EngineState::Ready;
                match &ex.last_assistant {
                    Some(t) => StepOutcome::Done(t.clone()),
                    None => StepOutcome::Done(String::new()),
                }
            },
            ParsedEvent::ResultError { message, .. } => {
                self.state = EngineState::Ready;
                StepOutcome::Failed(SessionError::Semantic(message))
            },
            _ => {
                if deadline_passed {
                    self.state = EngineState::Dead;
                    StepOutcome::Failed(SessionError::ProtocolTimeout)
                } else {
                    StepOutcome::Pending
                }
            },
        }
    }

    /// Absorb one per-read timeout during an exchange: fatal only once the
    /// per-exchange deadline has passed.
    pub fn absorb_timeout(&mut self, deadline_passed: bool) -> (r: StepOutcome)
        requires
            old(self).state == EngineState::Serving,
        ensures
            final(self).identity == old(self).identity,
            deadline_passed ==> final(self).state == EngineState::Dead && r@ == StepOutcomeV::Failed(
                SessionErrorV::ProtocolTimeout,
            ),
            !deadline_passed ==> final(self).state == EngineState::Serving && r@
                == StepOutcomeV::Pending,
    {
        if deadline_passed {
            self.state = EngineState::Dead;
            StepOutcome::Failed(SessionError::ProtocolTimeout)
        } else {
            StepOutcome::Pending
        }
    }

    /// Absorb end of file during an exchange: the subprocess closed its
    /// output, which is always fatal for the generation.
    pub fn absorb_eof(&mut self) -> (r: StepOutcome)
        requires
            old(self).state == EngineState::Serving,
        ensures
            final(self).identity == old(self).identity,
            final(self).state == EngineState::Dead,
            r@ == StepOutcomeV::Failed(SessionErrorV::ProtocolIo),
    {
        self.state = EngineState::Dead;
        StepOutcome::Failed(SessionError::ProtocolIo)
    }

    /// Absorb a failed read during an exchange: fatal for the generation.
    pub fn absorb_read_failure(&mut self) -> (r: StepOutcome)
        requires
            old(self).state == EngineState::Serving,
        ensures
            final(self).identity == old(self).identity,
            final(self).state == EngineState::Dead,
            r@ == StepOutcomeV::Failed(SessionErrorV::ProtocolIo),
    {
        self.state = EngineState::Dead;
        StepOutcome::Failed(SessionError::ProtocolIo)
    }

    /// Absorb a failed write of the request line: fatal for the generation.
    pub fn absorb_write_failure(&mut self) -> (r: SessionError)
        requires
            old(self).state == EngineState::Serving,
        ensures
            final(self).identity == old(self).identity,
            final(self).state == EngineState::Dead,
            r@ == SessionErrorV::ProtocolIo,
    {
        self.state = EngineState::Dead;
        SessionError::ProtocolIo
    }

    /// Tear the current generation down: the subprocess is terminated by the
    /// caller and the identity is cleared.
    pub fn teardown(&mut self)
        ensures
            final(self).state == EngineState::Dead,
            final(self).identity is None,
    {
        self.state = EngineState::Dead;
        self.identity = None;
    }
}

// ---------------------------------------------------------------------------
// Startup handshake
// ---------------------------------------------------------------------------

/// The text of the synthetic startup probe: a lightweight message whose only
/// purpose is to force the subprocess to emit its initialization events
/// within a bounded time.
pub fn handshake_probe_text() -> (r: String)
    ensures
        r@ == "ping"@,
{
    let c = crate::text::str_to_chars("ping");
    crate::text::chars_to_string(&c)
}

impl Handshake {
    /// A fresh handshake: nothing observed yet.
    pub fn new() -> (r: Handshake)
        ensures
            !r.got_init && !r.got_result,
    {
        Handshake { got_init: false, got_result: false }
    }

    /// Whether both required events have been observed.
    pub fn complete(&self) -> (r: bool)
        ensures
            r == (self.got_init && self.got_result),
    {
        self.got_init && self.got_result
    }
}

impl Engine {
    /// Absorb one line read while draining pre-probe output: only the
    /// identity is recorded.
    pub fn drain_absorb_line(&mut self, line: &str)
        requires
            old(self).state == EngineState::Initializing,
        ensures
            final(self).state == EngineState::Initializing,
            final(self).identity.deep_view() == spec_apply_identity(
                old(self).identity.deep_view(),
                spec_decode_line(line@),
            ),
    {
        let e = decode_line(line);
        self.apply_identity(&e);
    }

    /// Absorb one line read while awaiting the handshake events.  An `init`
    /// system event and a terminal `result` event each set their flag; once
    /// both are set the generation is `Ready`.
    pub fn handshake_absorb_line(&mut self, hs: &mut Handshake, line: &str) -> (done: bool)
        requires
            old(self).state == EngineState::Initializing,
        ensures
            ({
                let e = spec_decode_line(line@);
                &&& final(self).identity.deep_view() == spec_apply_identity(
                    old(self).identity.deep_view(),
                    e,
                )
                &&& final(hs).got_init == (old(hs).got_init || e is Init)
                &&& final(hs).got_result == (old(hs).got_result || e is ResultOk
                    || e is ResultError)
                &&& done == (final(hs).got_init && final(hs).got_result)
                &&& final(self).state == (if done {
                    EngineState::Ready
                } else {
                    EngineState::Initializing
                })
            }),
    {
        let e = decode_line(line);
        self.apply_identity(&e);
        match &e {
            ParsedEvent::Init { .. } => {
                hs.got_init = true;
            },
            ParsedEvent::ResultOk { .. } => {
                hs.got_result = true;
            },
            ParsedEvent::ResultError { .. } => {
                hs.got_result = true;
            },
            _ => {},
        }
        if hs.got_init && hs.got_result {
            self.state = EngineState::Ready;
            true
        } else {
            false
        }
    }

    /// Absorb a handshake-phase timeout: fatal once the startup deadline has
    /// passed, surfacing the distinct initialization failure rather than a
    /// generic exchange timeout.
    pub fn handshake_timeout(&mut self, deadline_passed: bool) -> (r: Option<SessionError>)
        requires
            old(self).state == EngineState::Initializing,
        ensures
            final(self).identity == old(self).identity,
            deadline_passed ==> final(self).state == EngineState::Dead && (r matches Some(e)
                && e@ == SessionErrorV::SpawnFailure),
            !deadline_passed ==> final(self).state == EngineState::Initializing && r is None,
    {
        if deadline_passed {
            self.state = EngineState::Dead;
            Some(SessionError::SpawnFailure)
        } else {
            None
        }
    }

    /// Absorb end of file or a failed read during startup: the generation
    /// never became usable.
    pub fn handshake_stream_failure(&mut self) -> (r: SessionError)
        requires
            old(self).state == EngineState::Initializing,
        ensures
            final(self).state == EngineState::Dead,
            r@ == SessionErrorV::SpawnFailure,
    {
        self.state = EngineState::Dead;
        SessionError::SpawnFailure
    }
}

// ---------------------------------------------------------------------------
// Scripted exchanges and the wire trace
// ---------------------------------------------------------------------------

/// One operation on the subprocess's wire, as a test double would see it.
pub enum WireOp {
    /// One request line written to the subprocess input.
    Write(String),
    /// One read attempt on the subprocess output.
    Read(ReadOutcome),
}

/// Specification-level wire operation.
pub enum WireOpV {
    Write(Seq<char>),
    Read(ReadOutcomeV),
}

/// The model of a wire operation.
pub open spec fn wire_op_view(o: WireOp) -> WireOpV {
    match o {
        WireOp::Write(l) => WireOpV::Write(l@),
        WireOp::Read(r) => WireOpV::Read(read_outcome_view(r)),
    }
}

impl View for WireOp {
    type V = WireOpV;

    open spec fn view(&self) -> WireOpV {
        wire_op_view(*self)
    }
}

impl DeepView for WireOp {
    type V = WireOpV;

    open spec fn deep_view(&self) -> WireOpV {
        wire_op_view(*self)
    }
}

/// The model of an exchange result.
pub open spec fn res_view(r: Result<String, SessionError>) -> Result<Seq<char>, SessionErrorV> {
    match r {
        Ok(t) => Ok(t@),
        Err(e) => Err(err_view(e)),
    }
}

/// How one exchange ends, given the whole sequence of read outcomes.
pub struct ExchangeEndV {
    /// The identity recorded by the end of the exchange.
    pub identity: Option<Seq<char>>,
    /// The exchange's result.
    pub outcome: Result<Seq<char>, SessionErrorV>,
    /// Whether the generation died.
    pub dead: bool,
    /// How many read outcomes were absorbed.
    pub consumed: int,
}

/// Run one exchange's read loop over a scripted sequence of read outcomes.
///
/// A line is decoded and stepped; a timeout consumes one unit of the timeout
/// budget and is fatal when the budget is exhausted; end of file and failed
/// reads are fatal.  An exhausted script means the reader produced nothing
/// more and counts as a stream failure.
pub open spec fn spec_run_reads(
    la: Option<Seq<char>>,
    id: Option<Seq<char>>,
    script: Seq<ReadOutcomeV>,
    timeouts_left: nat,
) -> ExchangeEndV
    decreases script.len(),
{
    if script.len() == 0 {
        ExchangeEndV { identity: id, outcome: Err(SessionErrorV::ProtocolIo), dead: true, consumed: 0 }
    } else {
        match script[0] {
            ReadOutcomeV::Line(l) => {
                let e = spec_decode_line(l);
                let id2 = spec_apply_identity(id, e);
                let (la2, step) = spec_line_step(la, e);
                match step {
                    StepOutcomeV::Pending => {
                        let rest = spec_run_reads(la2, id2, script.drop_first(), timeouts_left);
                        ExchangeEndV {
                            identity: rest.identity,
                            outcome: rest.outcome,
                            dead: rest.dead,
                            consumed: rest.consumed + 1,
                        }
                    },
                    StepOutcomeV::Done(t) => ExchangeEndV {
                        identity: id2,
                        outcome: Ok(t),
                        dead: false,
                        consumed: 1,
                    },
                    StepOutcomeV::Failed(err) => ExchangeEndV {
                        identity: id2,
                        outcome: Err(err),
                        dead: false,
                        consumed: 1,
                    },
                }
            },
            ReadOutcomeV::Timeout => if timeouts_left == 0 {
                ExchangeEndV {
                    identity: id,
                    outcome: Err(SessionErrorV::ProtocolTimeout),
                    dead: true,
                    consumed: 1,
                }
            } else {
                let rest = spec_run_reads(la, id, script.drop_first(), (timeouts_left - 1) as nat);
                ExchangeEndV {
                    identity: rest.identity,
                    outcome: rest.outcome,
                    dead: rest.dead,
                    consumed: rest.consumed + 1,
                }
            },
            ReadOutcomeV::Eof => ExchangeEndV {
                identity: id,
                outcome: Err(SessionErrorV::ProtocolIo),
                dead: true,
                consumed: 1,
            },
            ReadOutcomeV::Failed => ExchangeEndV {
                identity: id,
                outcome: Err(SessionErrorV::ProtocolIo),
                dead: true,
                consumed: 1,
            },
        }
    }
}

/// The reads a scripted exchange performs, as wire operations.
pub open spec fn spec_reads_trace(script: Seq<ReadOutcomeV>, n: int) -> Seq<WireOpV> {
    Seq::new(n as nat, |k: int| WireOpV::Read(script[k]))
}

/// The whole wire trace of one scripted exchange on a ready engine: the
/// written request line, then exactly the reads the exchange absorbed.
pub open spec fn spec_exchange_trace(
    prompt: Seq<char>,
    script: Seq<ReadOutcomeV>,
    consumed: int,
) -> Seq<WireOpV> {
    seq![WireOpV::Write(spec_encode_user_message(prompt))] + spec_reads_trace(script, consumed)
}

/// The models of a sequence of wire operations.
pub open spec fn trace_view(t: Seq<WireOp>) -> Seq<WireOpV> {
    t.map(|k: int, op: WireOp| wire_op_view(op))
}

/// `trace_view` maps over `push`.
proof fn lemma_trace_view_push(t: Seq<WireOp>, op: WireOp)
    ensures
        trace_view(t.push(op)) == trace_view(t).push(wire_op_view(op)),
{
    assert(trace_view(t.push(op)) =~= trace_view(t).push(wire_op_view(op)));
}

impl Engine {
    /// Run one whole exchange against a scripted reader.
    ///
    /// On a generation that is not `Ready` — in particular a `Dead` one —
    /// this fails immediately with a protocol I/O error, touches nothing, and
    /// puts nothing on the wire: there is no silent respawn.  Otherwise it
    /// writes the encoded request and absorbs read outcomes as
    /// [`spec_run_reads`] describes, appending every wire operation to
    /// `trace`.
    #[verifier::rlimit(60)]
    pub fn send_and_await_scripted(
        &mut self,
        prompt: &str,
        script: &Vec<ReadOutcome>,
        max_timeouts: usize,
        trace: &mut Vec<WireOp>,
    ) -> (r: Result<String, SessionError>)
        ensures
            old(self).state != EngineState::Ready ==> final(self).state == old(self).state
                && final(self).identity == old(self).identity && *final(trace) == *old(trace)
                && res_view(r) == Err::<Seq<char>, SessionErrorV>(SessionErrorV::ProtocolIo),
            old(self).state == EngineState::Ready ==> ({
                let end = spec_run_reads(
                    None,
                    old(self).identity.deep_view(),
                    script.deep_view(),
                    max_timeouts as nat,
                );
                &&& res_view(r) == end.outcome
                &&& final(self).identity.deep_view() == end.identity
                &&& final(self).state == (if end.dead {
                    EngineState::Dead
                } else {
                    EngineState::Ready
                })
                &&& 0 <= end.consumed <= script.deep_view().len()
                &&& trace_view(final(trace)@) == trace_view(old(trace)@) + spec_exchange_trace(
                    prompt@,
                    script.deep_view(),
                    end.consumed,
                )
            }),
    {
        if !(self.state == EngineState::Ready) {
            return Err(SessionError::ProtocolIo);
        }
        let ghost id0: Option<Seq<char>> = self.identity.deep_view();
        let ghost full: Seq<ReadOutcomeV> = script.deep_view();
        let ghost end = spec_run_reads(None, id0, full, max_timeouts as nat);
        let line = encode_user_message(prompt);
        proof {
            lemma_trace_view_push(trace@, WireOp::Write(line));
        }
        trace.push(WireOp::Write(line));
        let mut ex = self.begin_exchange();
        let mut timeouts_left = max_timeouts;
        let mut i: usize = 0;
        proof {
            assert(full.skip(0) =~= full);
            assert(spec_reads_trace(full, 0) =~= Seq::<WireOpV>::empty());
            assert(trace_view(trace@) =~= trace_view(old(trace)@) + seq![
                WireOpV::Write(spec_encode_user_message(prompt@)),
            ] + spec_reads_trace(full, 0));
        }
        loop
            invariant
                old(self).state == EngineState::Ready,
                id0 == old(self).identity.deep_view(),
                self.state == EngineState::Serving,
                i <= full.len(),
                full == script.deep_view(),
                end == spec_run_reads(None, id0, full, max_timeouts as nat),
                ({
                    let cur = spec_run_reads(
                        ex.last_assistant.deep_view(),
                        self.identity.deep_view(),
                        full.skip(i as int),
                        timeouts_left as nat,
                    );
                    &&& cur.identity == end.identity
                    &&& cur.outcome == end.outcome
                    &&& cur.dead == end.dead
                    &&& end.consumed == i + cur.consumed
                }),
                trace_view(trace@) == trace_view(old(trace)@) + seq![
                    WireOpV::Write(spec_encode_user_message(prompt@)),
                ] + spec_reads_trace(full, i as int),
            decreases full.len() - i,
        {
            proof {
                if i < full.len() {
                    assert(full.skip(i as int)[0] == full[i as int]);
                    assert(full.skip(i as int).drop_first() =~= full.skip(i + 1));
                    assert(spec_reads_trace(full, i as int).push(WireOpV::Read(full[i as int]))
                        =~= spec_reads_trace(full, i + 1));
                    assert((trace_view(old(trace)@) + seq![
                        WireOpV::Write(spec_encode_user_message(prompt@)),
                    ] + spec_reads_trace(full, i as int)).push(
                        WireOpV::Read(full[i as int]),
                    ) =~= trace_view(old(trace)@) + seq![
                        WireOpV::Write(spec_encode_user_message(prompt@)),
                    ] + spec_reads_trace(full, i + 1));
                }
            }
            if i >= script.len() {
                // the reader has nothing more: the stream is gone
                let step = self.absorb_eof();
                match step {
                    StepOutcome::Failed(e) => {
                        return Err(e);
                    },
                    _ => {
                        // unreachable: end of file always fails the exchange
                        return Err(SessionError::ProtocolIo);
                    },
                }
            }
            let o = &script[i];
            proof {
                assert(script.deep_view()[i as int] == script@[i as int].deep_view());
            }
            match o {
                ReadOutcome::Line(l) => {
                    let op = WireOp::Read(ReadOutcome::Line(l.clone()));
                    proof {
                        lemma_trace_view_push(trace@, op);
                    }
                    trace.push(op);
                    let step = self.absorb_line(&mut ex, l.as_str(), false);
                    match step {
                        StepOutcome::Pending => {
                            i += 1;
                        },
                        StepOutcome::Done(t) => {
                            return Ok(t);
                        },
                        StepOutcome::Failed(e) => {
                            return Err(e);
                        },
                    }
                },
                ReadOutcome::Timeout => {
                    proof {
                        lemma_trace_view_push(trace@, WireOp::Read(ReadOutcome::Timeout));
                    }
                    trace.push(WireOp::Read(ReadOutcome::Timeout));
                    let deadline = timeouts_left == 0;
                    let step = self.absorb_timeout(deadline);
                    match step {
                        StepOutcome::Pending => {
                            timeouts_left -= 1;
                            i += 1;
                        },
                        StepOutcome::Failed(e) => {
                            return Err(e);
                        },
                        StepOutcome::Done(_) => {
                            // unreachable: a timeout never finishes an exchange
                            return Err(SessionError::ProtocolIo);
                        },
                    }
                },
                ReadOutcome::Eof => {
                    proof {
                        lemma_trace_view_push(trace@, WireOp::Read(ReadOutcome::Eof));
                    }
                    trace.push(WireOp::Read(ReadOutcome::Eof));
                    let step = self.absorb_eof();
                    match step {
                        StepOutcome::Failed(e) => {
                            return Err(e);
                        },
                        _ => {
                            // unreachable: end of file always fails the exchange
                            return Err(SessionError::ProtocolIo);
                        },
                    }
                },
                ReadOutcome::Failed => {
                    proof {
                        lemma_trace_view_push(trace@, WireOp::Read(ReadOutcome::Failed));
                    }
                    trace.push(WireOp::Read(ReadOutcome::Failed));
                    let step = self.absorb_read_failure();
                    match step {
                        StepOutcome::Failed(e) => {
                            return Err(e);
                        },
                        _ => {
                            // unreachable: a failed read always fails the exchange
                            return Err(SessionError::ProtocolIo);
                        },
                    }
                },
            }
        }
    }
}

} // verus!
