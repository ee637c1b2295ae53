//! The batch exporter and shutdown coordinator, as an explicit state
//! machine.
//!
//! The machine owns the bounded buffer of finished spans. A driver loop
//! feeds it events — timer ticks, the outcome of the last send, a one-shot
//! shutdown signal — and performs the action the machine returns: send the
//! current in-flight batch, wait, back off and resend, or stop. The machine
//! itself never blocks and never touches a clock or a network: timestamps
//! arrive inside the events, and sending is the driver's job.
//!
//! Failure policy: a send that fails is retried with a fixed backoff up to a
//! configured number of attempts, then the batch is dropped and counted.
//! After the shutdown signal no new spans are accepted; one final
//! drain-and-export cycle runs, bounded by a deadline, and whatever cannot
//! be exported by then is dropped and counted rather than waited for.

use vstd::prelude::*;
use crate::buffer::{BoundedBuffer, BufferModel, drain_count, push_spec};
use crate::span::{Span, SpanModel, spans_view};

verus! {

/// Tunables of the exporter.
pub struct ExporterConfig {
    /// Most spans a scheduled flush puts in one batch.
    pub batch_max: usize,
    /// Ticks between scheduled flushes.
    pub flush_interval: u64,
    /// Buffered-span count that triggers a flush before the interval is up.
    pub size_threshold: usize,
    /// Send attempts per batch before it is dropped.
    pub max_attempts: u32,
    /// Ticks to wait before resending a failed batch.
    pub backoff: u64,
    /// Ticks the final drain-and-export cycle may take after shutdown.
    pub shutdown_timeout: u64,
}

/// Mathematical model of the configuration.
#[verifier::ext_equal]
pub ghost struct ConfigModel {
    pub batch_max: int,
    pub flush_interval: int,
    pub size_threshold: int,
    pub max_attempts: int,
    pub backoff: int,
    pub shutdown_timeout: int,
}

impl View for ExporterConfig {
    type V = ConfigModel;

    open spec fn view(&self) -> ConfigModel {
        ConfigModel {
            batch_max: self.batch_max as int,
            flush_interval: self.flush_interval as int,
            size_threshold: self.size_threshold as int,
            max_attempts: self.max_attempts as int,
            backoff: self.backoff as int,
            shutdown_timeout: self.shutdown_timeout as int,
        }
    }
}

impl ConfigModel {
    pub open spec fn wf(self) -> bool {
        &&& 1 <= self.batch_max <= usize::MAX
        &&& 0 <= self.flush_interval <= u64::MAX
        &&& 1 <= self.size_threshold <= usize::MAX
        &&& 1 <= self.max_attempts < u32::MAX
        &&& 0 <= self.backoff <= u64::MAX
        &&& 0 <= self.shutdown_timeout <= u64::MAX
    }
}

/// Where the machine is in its life cycle.
#[derive(Clone, Copy, PartialEq, Eq, Structural, Debug)]
pub enum Mode {
    /// Accepting spans and flushing on timer or size threshold.
    Running,
    /// Shutdown received: refusing new spans, exporting what is left.
    Draining,
    /// Nothing more will be exported; the process may exit.
    Finished,
}

/// What the driver loop reports to the machine.
#[derive(Clone, Copy, Debug)]
pub enum Event {
    /// The clock reads `now`; nothing else happened.
    Tick { now: u64 },
    /// The last send of the in-flight batch succeeded.
    ExportOk,
    /// The last send of the in-flight batch failed, at time `now`.
    ExportErr { now: u64 },
    /// The one-shot shutdown signal, at time `now`.
    Shutdown { now: u64 },
}

/// What the machine asks the driver loop to do next.
#[derive(Clone, Copy, PartialEq, Eq, Structural, Debug)]
pub enum Action {
    /// Nothing to do until the next event.
    Wait,
    /// Send the current in-flight batch, then report the outcome.
    SendBatch,
    /// Wait `delay` ticks, resend the in-flight batch, report the outcome.
    Retry { delay: u64 },
    /// The machine is finished; the driver loop may stop.
    Done,
}

/// Mathematical model of the exporter.
#[verifier::ext_equal]
pub ghost struct ExporterModel {
    pub cfg: ConfigModel,
    pub buffer: BufferModel,
    /// The batch currently being sent, if any.
    pub in_flight: Seq<SpanModel>,
    /// Send attempts made for the in-flight batch; 0 when none is in flight.
    pub attempts: int,
    pub mode: Mode,
    /// Time by which draining must finish; meaningful while draining.
    pub deadline: int,
    /// Earliest time of the next scheduled flush.
    pub next_flush: int,
    /// Spans exported (acknowledged by the transport) so far.
    pub exported: int,
    /// Spans dropped after exhausted retries or at the shutdown deadline.
    pub dropped: int,
    /// Pushes refused because shutdown had already begun.
    pub rejected: int,
}

impl ExporterModel {
    pub open spec fn wf(self) -> bool {
        &&& self.cfg.wf()
        &&& self.buffer.wf()
        &&& 0 <= self.attempts <= self.cfg.max_attempts
        &&& (self.in_flight.len() == 0 <==> self.attempts == 0)
        &&& (self.mode is Finished ==> self.in_flight.len() == 0 && self.buffer.spans.len() == 0)
        &&& (self.mode is Draining ==> self.in_flight.len() > 0)
        &&& 0 <= self.deadline <= u64::MAX
        &&& 0 <= self.next_flush <= u64::MAX
        &&& 0 <= self.exported <= u64::MAX
        &&& 0 <= self.dropped <= u64::MAX
        &&& 0 <= self.rejected <= u64::MAX
    }
}

/// The machine's first state: running, empty, all counters zero.
pub open spec fn init_model(cfg: ConfigModel, b: BufferModel) -> ExporterModel {
    ExporterModel {
        cfg: cfg,
        buffer: b,
        in_flight: Seq::empty(),
        attempts: 0,
        mode: Mode::Running,
        deadline: 0,
        next_flush: 0,
        exported: 0,
        dropped: 0,
        rejected: 0,
    }
}

/// Machine limits an event must respect so that the counters and times of
/// the step fit in their machine words.
pub open spec fn event_fits(m: ExporterModel, ev: Event) -> bool {
    &&& (ev matches Event::Tick { now } ==> now + m.cfg.flush_interval <= u64::MAX)
    &&& (ev matches Event::Shutdown { now } ==> now + m.cfg.shutdown_timeout <= u64::MAX)
    &&& m.exported + m.in_flight.len() <= u64::MAX
    &&& m.dropped + m.in_flight.len() + m.buffer.spans.len() <= u64::MAX
}

/// A running machine's reaction to a timer tick: flush when the buffer has
/// reached the size threshold, or when the flush interval has elapsed and
/// there is anything to flush; otherwise wait.
pub open spec fn step_tick_running(m: ExporterModel, now: int) -> (ExporterModel, Action) {
    if m.in_flight.len() > 0 {
        (m, Action::Wait)
    } else if m.buffer.spans.len() >= m.cfg.size_threshold
        || (now >= m.next_flush && m.buffer.spans.len() > 0) {
        let k = drain_count(m.buffer, m.cfg.batch_max);
        (ExporterModel {
            buffer: BufferModel { spans: m.buffer.spans.skip(k), ..m.buffer },
            in_flight: m.buffer.spans.take(k),
            attempts: 1,
            next_flush: now + m.cfg.flush_interval,
            ..m
        }, Action::SendBatch)
    } else {
        (m, Action::Wait)
    }
}

/// A draining machine's reaction to a timer tick: past the deadline, drop
/// everything still unsent and finish; before it, keep waiting.
pub open spec fn step_tick_draining(m: ExporterModel, now: int) -> (ExporterModel, Action) {
    if now >= m.deadline {
        (ExporterModel {
            buffer: BufferModel { spans: Seq::empty(), ..m.buffer },
            in_flight: Seq::empty(),
            attempts: 0,
            mode: Mode::Finished,
            dropped: m.dropped + m.in_flight.len() + m.buffer.spans.len(),
            ..m
        }, Action::Done)
    } else {
        (m, Action::Wait)
    }
}

/// Reaction to a successful send: count the batch exported; while draining,
/// go straight on to the next batch, or finish when nothing is left.
pub open spec fn step_ok(m: ExporterModel) -> (ExporterModel, Action) {
    if m.in_flight.len() == 0 {
        (m, Action::Wait)
    } else {
        let acked = ExporterModel {
            exported: m.exported + m.in_flight.len(),
            in_flight: Seq::empty(),
            attempts: 0,
            ..m
        };
        if m.mode is Draining {
            if m.buffer.spans.len() > 0 {
                (ExporterModel {
                    buffer: BufferModel { spans: Seq::empty(), ..m.buffer },
                    in_flight: m.buffer.spans,
                    attempts: 1,
                    ..acked
                }, Action::SendBatch)
            } else {
                (ExporterModel { mode: Mode::Finished, ..acked }, Action::Done)
            }
        } else {
            (acked, Action::Wait)
        }
    }
}

/// Reaction to a failed send: retry with backoff while attempts remain (and,
/// while draining, while the deadline has not passed); otherwise drop the
/// batch — and, while draining, everything else too — and move on.
pub open spec fn step_err(m: ExporterModel, now: int) -> (ExporterModel, Action) {
    if m.in_flight.len() == 0 {
        (m, Action::Wait)
    } else if m.attempts < m.cfg.max_attempts && (m.mode is Draining ==> now < m.deadline) {
        (ExporterModel { attempts: m.attempts + 1, ..m }, Action::Retry { delay: m.cfg.backoff as u64 })
    } else if m.mode is Draining {
        (ExporterModel {
            buffer: BufferModel { spans: Seq::empty(), ..m.buffer },
            in_flight: Seq::empty(),
            attempts: 0,
            mode: Mode::Finished,
            dropped: m.dropped + m.in_flight.len() + m.buffer.spans.len(),
            ..m
        }, Action::Done)
    } else {
        (ExporterModel {
            in_flight: Seq::empty(),
            attempts: 0,
            dropped: m.dropped + m.in_flight.len(),
            ..m
        }, Action::Wait)
    }
}

/// Reaction to the shutdown signal: stop accepting spans, set the deadline,
/// and start the final drain-and-export cycle. A second signal is ignored.
pub open spec fn step_shutdown(m: ExporterModel, now: int) -> (ExporterModel, Action) {
    if !(m.mode is Running) {
        (m, Action::Wait)
    } else {
        let deadline = now + m.cfg.shutdown_timeout;
        if m.in_flight.len() > 0 {
            (ExporterModel { mode: Mode::Draining, deadline: deadline, ..m }, Action::Wait)
        } else if m.buffer.spans.len() > 0 {
            (ExporterModel {
                mode: Mode::Draining,
                deadline: deadline,
                buffer: BufferModel { spans: Seq::empty(), ..m.buffer },
                in_flight: m.buffer.spans,
                attempts: 1,
                ..m
            }, Action::SendBatch)
        } else {
            (ExporterModel { mode: Mode::Finished, deadline: deadline, ..m }, Action::Done)
        }
    }
}

/// One step of the machine: the state after the event, and the action the
/// driver loop must perform. A finished machine reacts to nothing.
pub open spec fn step(m: ExporterModel, ev: Event) -> (ExporterModel, Action) {
    if m.mode is Finished {
        (m, Action::Done)
    } else {
        match ev {
            Event::Tick { now } => if m.mode is Running {
                step_tick_running(m, now as int)
            } else {
                step_tick_draining(m, now as int)
            },
            Event::ExportOk => step_ok(m),
            Event::ExportErr { now } => step_err(m, now as int),
            Event::Shutdown { now } => step_shutdown(m, now as int),
        }
    }
}

/// The state after a push: buffered while running, refused and counted
/// afterwards. The second component says whether the span was accepted
/// without anything being dropped.
pub open spec fn push_step(m: ExporterModel, s: SpanModel) -> (ExporterModel, bool) {
    if m.mode is Running {
        (ExporterModel { buffer: push_spec(m.buffer, s), ..m }, m.buffer.has_room())
    } else {
        (ExporterModel { rejected: m.rejected + 1, ..m }, false)
    }
}

/// The batch exporter and shutdown coordinator. Owns the bounded buffer;
/// driven by events, answers with actions.
pub struct BatchExporter {
    cfg: ExporterConfig,
    buffer: BoundedBuffer,
    in_flight: Vec<Span>,
    attempts: u32,
    mode: Mode,
    deadline: u64,
    next_flush: u64,
    exported: u64,
    dropped: u64,
    rejected: u64,
}

impl View for BatchExporter {
    type V = ExporterModel;

    closed spec fn view(&self) -> ExporterModel {
        ExporterModel {
            cfg: self.cfg@,
            buffer: self.buffer@,
            in_flight: spans_view(self.in_flight@),
            attempts: self.attempts as int,
            mode: self.mode,
            deadline: self.deadline as int,
            next_flush: self.next_flush as int,
            exported: self.exported as int,
            dropped: self.dropped as int,
            rejected: self.rejected as int,
        }
    }
}

impl BatchExporter {
    pub open spec fn wf(&self) -> bool {
        self@.wf()
    }

    /// A fresh exporter over the given buffer: running, nothing in flight,
    /// all counters zero.
    pub fn new(cfg: ExporterConfig, buffer: BoundedBuffer) -> (r: BatchExporter)
        requires
            cfg@.wf(),
            buffer.wf(),
        ensures
            r.wf(),
            r@ == init_model(cfg@, buffer@),
    {
        let r = BatchExporter {
            cfg,
            buffer,
            in_flight: Vec::new(),
            attempts: 0,
            mode: Mode::Running,
            deadline: 0,
            next_flush: 0,
            exported: 0,
            dropped: 0,
            rejected: 0,
        };
        proof {
            assert(r@ =~~= init_model(r.cfg@, r.buffer@));
        }
        r
    }

    /// Where the machine is in its life cycle.
    pub fn mode(&self) -> (mo: Mode)
        ensures
            mo == self@.mode,
    {
        self.mode
    }

    /// Spans acknowledged by the transport so far.
    pub fn exported(&self) -> (n: u64)
        ensures
            n == self@.exported,
    {
        self.exported
    }

    /// Spans dropped after exhausted retries or at the shutdown deadline.
    pub fn dropped(&self) -> (n: u64)
        ensures
            n == self@.dropped,
    {
        self.dropped
    }

    /// Pushes refused because shutdown had already begun.
    pub fn rejected(&self) -> (n: u64)
        ensures
            n == self@.rejected,
    {
        self.rejected
    }

    /// Spans dropped at the buffer because it was full.
    pub fn buffer_dropped(&self) -> (n: u64)
        ensures
            n == self@.buffer.dropped,
    {
        self.buffer.dropped()
    }

    /// Spans buffered and awaiting a batch.
    pub fn buffered(&self) -> (n: usize)
        ensures
            n == self@.buffer.spans.len(),
    {
        self.buffer.len()
    }

    /// The batch currently being sent: what a `SendBatch` or `Retry` action
    /// asks the driver loop to ship.
    pub fn in_flight_spans(&self) -> (b: &Vec<Span>)
        ensures
            spans_view(b@) == self@.in_flight,
    {
        &self.in_flight
    }

    /// Offer a finished span: buffered while running, refused and counted
    /// once shutdown has begun. Returns whether it was accepted with room
    /// to spare, i.e. without anything being dropped.
    pub fn push_span(&mut self, s: Span) -> (accepted: bool)
        requires
            old(self).wf(),
            old(self)@.buffer.dropped < u64::MAX,
            old(self)@.rejected < u64::MAX,
        ensures
            final(self).wf(),
            final(self)@ == push_step(old(self)@, s@).0,
            accepted == push_step(old(self)@, s@).1,
    {
        let ghost m0 = self@;
        match self.mode {
            Mode::Running => {
                let had_room = self.buffer.push(s);
                proof {
                    assert(self@ =~~= push_step(m0, s@).0);
                }
                had_room
            },
            _ => {
                self.rejected = self.rejected + 1;
                proof {
                    assert(self@ =~~= push_step(m0, s@).0);
                }
                false
            },
        }
    }

    /// Feed one event to the machine and learn what to do next. The whole
    /// reaction is pinned down by the transition function `step`.
    pub fn handle_event(&mut self, ev: Event) -> (a: Action)
        requires
            old(self).wf(),
            event_fits(old(self)@, ev),
        ensures
            final(self).wf(),
            final(self)@ == step(old(self)@, ev).0,
            a == step(old(self)@, ev).1,
    {
        let ghost m0 = self@;
        proof {
            lemma_step_preserves_wf(m0, ev);
        }
        match self.mode {
            Mode::Finished => Action::Done,
            Mode::Running => match ev {
                Event::Tick { now } => {
                    if self.in_flight.len() > 0 {
                        Action::Wait
                    } else if self.buffer.len() >= self.cfg.size_threshold
                        || (now >= self.next_flush && self.buffer.len() > 0) {
                        let batch = self.buffer.drain_up_to(self.cfg.batch_max);
                        self.in_flight = batch;
                        self.attempts = 1;
                        self.next_flush = now + self.cfg.flush_interval;
                        proof {
                            assert(self@ =~~= step(m0, ev).0);
                        }
                        Action::SendBatch
                    } else {
                        Action::Wait
                    }
                },
                Event::ExportOk => self.acknowledge(Ghost(m0), Ghost(ev)),
                Event::ExportErr { now } => self.send_failed(now, Ghost(m0), Ghost(ev)),
                Event::Shutdown { now } => {
                    self.deadline = now + self.cfg.shutdown_timeout;
                    if self.in_flight.len() > 0 {
                        self.mode = Mode::Draining;
                        proof {
                            assert(self@ =~~= step(m0, ev).0);
                        }
                        Action::Wait
                    } else if self.buffer.len() > 0 {
                        self.mode = Mode::Draining;
                        let all = self.buffer.len();
                        let batch = self.buffer.drain_up_to(all);
                        self.in_flight = batch;
                        self.attempts = 1;
                        proof {
                            assert(m0.buffer.spans.take(m0.buffer.spans.len() as int)
                                =~= m0.buffer.spans);
                            assert(self@ =~~= step(m0, ev).0);
                        }
                        Action::SendBatch
                    } else {
                        self.mode = Mode::Finished;
                        proof {
                            assert(self@ =~~= step(m0, ev).0);
                        }
                        Action::Done
                    }
                },
            },
            Mode::Draining => match ev {
                Event::Tick { now } => {
                    if now >= self.deadline {
                        self.discard_unsent(Ghost(m0), Ghost(ev));
                        Action::Done
                    } else {
                        Action::Wait
                    }
                },
                Event::ExportOk => self.acknowledge(Ghost(m0), Ghost(ev)),
                Event::ExportErr { now } => self.send_failed(now, Ghost(m0), Ghost(ev)),
                Event::Shutdown { .. } => Action::Wait,
            },
        }
    }

    /// Count the in-flight batch as exported; while draining, load the next
    /// batch or finish.
    fn acknowledge(&mut self, Ghost(m0): Ghost<ExporterModel>, Ghost(ev): Ghost<Event>) -> (a: Action)
        requires
            old(self).wf(),
            old(self)@ == m0,
            !(m0.mode is Finished),
            ev is ExportOk,
            event_fits(m0, ev),
        ensures
            final(self)@ == step(m0, ev).0,
            a == step(m0, ev).1,
    {
        if self.in_flight.len() == 0 {
            proof {
                assert(self@ =~~= step(m0, ev).0);
            }
            return Action::Wait;
        }
        let k = self.in_flight.len();
        proof {
            assert(k == m0.in_flight.len());
        }
        self.exported = self.exported + k as u64;
        self.in_flight = Vec::new();
        self.attempts = 0;
        match self.mode {
            Mode::Draining => {
                if self.buffer.len() > 0 {
                    let all = self.buffer.len();
                    let batch = self.buffer.drain_up_to(all);
                    self.in_flight = batch;
                    self.attempts = 1;
                    proof {
                        assert(m0.buffer.spans.take(m0.buffer.spans.len() as int)
                            =~= m0.buffer.spans);
                        assert(self@ =~~= step(m0, ev).0);
                    }
                    Action::SendBatch
                } else {
                    self.mode = Mode::Finished;
                    proof {
                        assert(self@ =~~= step(m0, ev).0);
                    }
                    Action::Done
                }
            },
            _ => {
                proof {
                    assert(self@ =~~= step(m0, ev).0);
                }
                Action::Wait
            },
        }
    }

    /// Retry the in-flight batch with backoff, or give it up: attempts are
    /// bounded, and while draining so is the clock.
    fn send_failed(&mut self, now: u64, Ghost(m0): Ghost<ExporterModel>, Ghost(ev): Ghost<Event>) -> (a: Action)
        requires
            old(self).wf(),
            old(self)@ == m0,
            !(m0.mode is Finished),
            ev matches Event::ExportErr { now: n } && n == now,
            event_fits(m0, ev),
        ensures
            final(self)@ == step(m0, ev).0,
            a == step(m0, ev).1,
    {
        if self.in_flight.len() == 0 {
            proof {
                assert(self@ =~~= step(m0, ev).0);
            }
            return Action::Wait;
        }
        let within_deadline = match self.mode {
            Mode::Draining => now < self.deadline,
            _ => true,
        };
        if self.attempts < self.cfg.max_attempts && within_deadline {
            self.attempts = self.attempts + 1;
            proof {
                assert(self@ =~~= step(m0, ev).0);
            }
            Action::Retry { delay: self.cfg.backoff }
        } else {
            match self.mode {
                Mode::Draining => {
                    self.discard_unsent(Ghost(m0), Ghost(ev));
                    Action::Done
                },
                _ => {
                    let k = self.in_flight.len();
                    proof {
                        assert(k == m0.in_flight.len());
                    }
                    self.dropped = self.dropped + k as u64;
                    self.in_flight = Vec::new();
                    self.attempts = 0;
                    proof {
                        assert(self@ =~~= step(m0, ev).0);
                    }
                    Action::Wait
                },
            }
        }
    }

    /// Drop the in-flight batch and everything still buffered, count the
    /// loss, and finish. What `step` prescribes for a draining machine whose
    /// deadline or retry budget has run out.
    fn discard_unsent(&mut self, Ghost(m0): Ghost<ExporterModel>, Ghost(ev): Ghost<Event>)
        requires
            old(self).wf(),
            old(self)@ == m0,
            m0.mode is Draining,
            event_fits(m0, ev),
            (ev matches Event::Tick { now } && now >= m0.deadline)
                || (ev matches Event::ExportErr { now } && m0.in_flight.len() > 0
                    && !(m0.attempts < m0.cfg.max_attempts && now < m0.deadline)),
        ensures
            final(self)@ == step(m0, ev).0,
            step(m0, ev).1 == Action::Done,
    {
        let k = self.in_flight.len();
        let b = self.buffer.len();
        proof {
            assert(k == m0.in_flight.len());
        }
        self.dropped = self.dropped + k as u64 + b as u64;
        let _unsent = self.buffer.drain_up_to(b);
        self.in_flight = Vec::new();
        self.attempts = 0;
        self.mode = Mode::Finished;
        proof {
            assert(m0.buffer.spans.skip(m0.buffer.spans.len() as int)
                =~= Seq::<SpanModel>::empty());
            assert(self@ =~~= step(m0, ev).0);
        }
    }
}

/// Every step from a well-formed state, under an event that fits the
/// machine's words, leads to a well-formed state.
pub proof fn lemma_step_preserves_wf(m: ExporterModel, ev: Event)
    requires
        m.wf(),
        event_fits(m, ev),
    ensures
        step(m, ev).0.wf(),
        step(m, ev).0.cfg == m.cfg,
{
    if m.mode is Finished {
        assert(step(m, ev).0.wf());
    } else {
        match ev {
            Event::Tick { now } => {
                if m.mode is Running {
                    let k = drain_count(m.buffer, m.cfg.batch_max);
                    assert(0 <= k <= m.buffer.spans.len());
                    assert(m.buffer.spans.skip(k).len() == m.buffer.spans.len() - k);
                    assert(m.buffer.spans.take(k).len() == k);
                    assert(step_tick_running(m, now as int).0.wf());
                } else {
                    assert(step_tick_draining(m, now as int).0.wf());
                }
            },
            Event::ExportOk => {
                assert(step_ok(m).0.wf());
            },
            Event::ExportErr { now } => {
                assert(step_err(m, now as int).0.wf());
            },
            Event::Shutdown { now } => {
                assert(step_shutdown(m, now as int).0.wf());
            },
        }
    }
}

/// The machine after a whole sequence of events, first event first.
pub open spec fn run(m: ExporterModel, evs: Seq<Event>) -> ExporterModel
    decreases evs.len(),
{
    if evs.len() == 0 {
        m
    } else {
        run(step(m, evs[0]).0, evs.drop_first())
    }
}

/// Whether every event in the sequence is a failed send: a transport that
/// is down for the whole run.
pub open spec fn all_export_errs(evs: Seq<Event>) -> bool {
    forall|i: int| 0 <= i < evs.len() ==> evs[i] is ExportErr
}

/// A finished machine stays exactly as it is, whatever else happens.
pub proof fn lemma_finished_is_final(m: ExporterModel, evs: Seq<Event>)
    requires
        m.mode is Finished,
    ensures
        run(m, evs) == m,
    decreases evs.len(),
{
    if evs.len() > 0 {
        lemma_finished_is_final(m, evs.drop_first());
    }
}

/// A draining machine facing nothing but failed sends finishes once its
/// remaining retry budget is spent, and exports nothing along the way.
proof fn lemma_draining_err_run_finishes(m: ExporterModel, evs: Seq<Event>)
    requires
        m.wf(),
        m.mode is Draining,
        m.dropped + m.in_flight.len() + m.buffer.spans.len() <= u64::MAX,
        all_export_errs(evs),
        evs.len() >= m.cfg.max_attempts - m.attempts + 1,
    ensures
        run(m, evs).mode is Finished,
        run(m, evs).exported == m.exported,
    decreases evs.len(),
{
    let ev = evs[0];
    assert(ev is ExportErr);
    let rest = evs.drop_first();
    assert(all_export_errs(rest)) by {
        assert(forall|i: int| 0 <= i < rest.len() ==> rest[i] == evs[i + 1]);
    }
    let m1 = step(m, ev).0;
    if m.attempts < m.cfg.max_attempts && (ev matches Event::ExportErr { now } && (now as int) < m.deadline) {
        lemma_draining_err_run_finishes(m1, rest);
    } else {
        assert(m1.mode is Finished);
        lemma_finished_is_final(m1, rest);
    }
}

/// A shutdown that finds the transport down never hangs and exports
/// nothing: after at most `max_attempts` failed sends the machine is
/// finished, with the exported count exactly what it was before.
pub proof fn lemma_shutdown_transport_down(m: ExporterModel, now: u64, evs: Seq<Event>)
    requires
        m.wf(),
        m.mode is Running,
        m.in_flight.len() == 0,
        event_fits(m, Event::Shutdown { now }),
        all_export_errs(evs),
        evs.len() >= m.cfg.max_attempts,
    ensures
        run(step(m, Event::Shutdown { now }).0, evs).mode is Finished,
        run(step(m, Event::Shutdown { now }).0, evs).exported == m.exported,
{
    lemma_step_preserves_wf(m, Event::Shutdown { now });
    let m1 = step(m, Event::Shutdown { now }).0;
    if m.buffer.spans.len() > 0 {
        lemma_draining_err_run_finishes(m1, evs);
    } else {
        lemma_finished_is_final(m1, evs);
    }
}

/// A draining machine whose deadline has passed finishes on the next tick
/// rather than waiting any longer; what it could not send is dropped and
/// counted, never exported.
pub proof fn lemma_deadline_reached_finishes(m: ExporterModel, now: u64)
    requires
        m.wf(),
        m.mode is Draining,
        now as int >= m.deadline,
        m.dropped + m.in_flight.len() + m.buffer.spans.len() <= u64::MAX,
    ensures
        step(m, Event::Tick { now }).0.mode is Finished,
        step(m, Event::Tick { now }).1 == Action::Done,
        step(m, Event::Tick { now }).0.exported == m.exported,
{
}

/// Past its deadline a draining machine never schedules another retry: a
/// failed send finishes it at once.
pub proof fn lemma_no_retry_past_deadline(m: ExporterModel, now: u64)
    requires
        m.wf(),
        m.mode is Draining,
        now as int >= m.deadline,
    ensures
        !(step(m, Event::ExportErr { now }).1 is Retry),
        step(m, Event::ExportErr { now }).0.mode is Finished,
{
}

/// A shutdown that finds the buffer non-empty, nothing in flight, and a
/// healthy transport sends every buffered span in one final batch and
/// counts each exported exactly once: the batch is exactly the buffer's
/// contents, in order, and after its acknowledgement the machine is
/// finished with the exported count grown by exactly the buffer's length
/// and nothing dropped.
pub proof fn lemma_graceful_shutdown_exports_all(m: ExporterModel, now: u64)
    requires
        m.wf(),
        m.mode is Running,
        m.in_flight.len() == 0,
        m.buffer.spans.len() > 0,
        event_fits(m, Event::Shutdown { now }),
        m.exported + m.buffer.spans.len() <= u64::MAX,
    ensures
        ({
            let sd = step(m, Event::Shutdown { now });
            let fin = step(sd.0, Event::ExportOk);
            &&& sd.1 == Action::SendBatch
            &&& sd.0.in_flight == m.buffer.spans
            &&& sd.0.buffer.spans.len() == 0
            &&& fin.1 == Action::Done
            &&& fin.0.mode is Finished
            &&& fin.0.exported == m.exported + m.buffer.spans.len()
            &&& fin.0.dropped == m.dropped
            &&& fin.0.in_flight.len() == 0
            &&& fin.0.buffer.spans.len() == 0
        }),
{
}

/// In steady running, a due flush followed by a healthy acknowledgement
/// exports exactly the spans the batch took from the front of the buffer —
/// each counted once — and leaves the rest buffered, in order, with the
/// machine still running.
pub proof fn lemma_flush_then_ok_exports_batch(m: ExporterModel, now: u64)
    requires
        m.wf(),
        m.mode is Running,
        m.in_flight.len() == 0,
        event_fits(m, Event::Tick { now }),
        m.exported + m.buffer.spans.len() <= u64::MAX,
        m.buffer.spans.len() >= m.cfg.size_threshold
            || (now as int >= m.next_flush && m.buffer.spans.len() > 0),
    ensures
        ({
            let k = drain_count(m.buffer, m.cfg.batch_max);
            let fl = step(m, Event::Tick { now });
            let fin = step(fl.0, Event::ExportOk);
            &&& fl.1 == Action::SendBatch
            &&& fl.0.in_flight == m.buffer.spans.take(k)
            &&& fl.0.buffer.spans == m.buffer.spans.skip(k)
            &&& fin.0.exported == m.exported + k
            &&& fin.0.buffer.spans == m.buffer.spans.skip(k)
            &&& fin.0.dropped == m.dropped
            &&& fin.0.mode is Running
        }),
{
}

/// The same guarantee when a batch is already in flight as shutdown
/// arrives: with a healthy transport, that batch and then one final batch
/// holding the whole buffer are each acknowledged once, the machine
/// finishes, and the exported count grows by exactly the number of spans
/// that were in flight or buffered. Nothing is dropped and nothing is
/// counted twice.
pub proof fn lemma_graceful_shutdown_with_batch_in_flight(m: ExporterModel, now: u64)
    requires
        m.wf(),
        m.mode is Running,
        m.in_flight.len() > 0,
        event_fits(m, Event::Shutdown { now }),
        m.exported + m.in_flight.len() + m.buffer.spans.len() <= u64::MAX,
    ensures
        ({
            let m1 = step(m, Event::Shutdown { now }).0;
            let m2 = step(m1, Event::ExportOk).0;
            let m3 = step(m2, Event::ExportOk).0;
            &&& step(m, Event::Shutdown { now }).1 == Action::Wait
            &&& (m.buffer.spans.len() == 0 ==> m2.mode is Finished
                && m2.exported == m.exported + m.in_flight.len()
                && m2.dropped == m.dropped)
            &&& (m.buffer.spans.len() > 0 ==> step(m1, Event::ExportOk).1 == Action::SendBatch
                && m2.in_flight == m.buffer.spans
                && m3.mode is Finished
                && m3.exported == m.exported + m.in_flight.len() + m.buffer.spans.len()
                && m3.dropped == m.dropped)
        }),
{
}

} // verus!
