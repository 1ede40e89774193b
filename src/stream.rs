//! The per-subscription result stream: a synthetic trigger event followed by
//! the store's events, each executed in turn and answered by exactly one
//! result, in arrival order.
//!
//! The waiting (for the next event, for a gate permit, for the execution) is
//! done by the caller; this state machine decides what happens next.
use vstd::prelude::*;

verus! {

/// Tag of the synthetic event that makes every subscription answer at once.
pub const TRIGGER_TAG: u64 = 0;

/// Block ceiling of subscription executions: always the latest block.
pub const LATEST_BLOCK: i32 = 2147483647;

/// A notification that some entities changed; carries identifiers only.
pub struct StoreEvent {
    pub tag: u64,
    pub changes: Vec<String>,
}

/// The synthetic first event: sentinel tag and no change.
pub fn trigger_event() -> (r: StoreEvent)
    ensures
        r.tag == TRIGGER_TAG,
        r.changes@.len() == 0,
{
    StoreEvent { tag: TRIGGER_TAG, changes: Vec::new() }
}

/// What the store's change stream produced when it was polled.
pub enum SourceItem {
    Event(StoreEvent),
    /// The stream signalled an error; it is not trusted any more.
    Failed,
    /// The stream ended.
    Ended,
}

/// The plain parts of a fresh execution context for one event.
pub struct ExecutionRequest {
    pub event: StoreEvent,
    /// Absolute deadline in milliseconds, if a timeout is configured.
    pub deadline_ms: Option<u64>,
    pub block: i32,
    pub max_first: u32,
}

/// How one execution ended, as the isolated worker reports it.
pub enum ExecutionOutcome<D> {
    Completed(D),
    Failed(Vec<String>),
    /// The execution panicked with this message.
    Panicked(String),
}

pub enum QueryError {
    Execution(String),
    Panic(String),
    EventStreamError,
}

/// The answer to one event.
pub enum QueryResult<D> {
    Data(D),
    Errors(Vec<QueryError>),
}

/// The result that answers an execution outcome.
pub open spec fn answers<D>(outcome: ExecutionOutcome<D>, result: QueryResult<D>) -> bool {
    match outcome {
        ExecutionOutcome::Completed(d) => result == QueryResult::<D>::Data(d),
        ExecutionOutcome::Failed(msgs) => match result {
            QueryResult::Errors(errs) => errs@.len() == msgs@.len() && forall|i: int|
                0 <= i < msgs@.len() ==> errs@[i] == QueryError::Execution(msgs@[i]),
            _ => false,
        },
        ExecutionOutcome::Panicked(msg) => match result {
            QueryResult::Errors(errs) => errs@ == seq![QueryError::Panic(msg)],
            _ => false,
        },
    }
}

/// `now + timeout`, held at the largest instant when it would overflow.
pub open spec fn deadline_for(now_ms: u64, timeout_ms: Option<u64>) -> Option<u64> {
    match timeout_ms {
        None => None,
        Some(t) => Some(
            if now_ms + t > u64::MAX {
                u64::MAX
            } else {
                (now_ms + t) as u64
            },
        ),
    }
}

pub fn deadline(now_ms: u64, timeout_ms: Option<u64>) -> (r: Option<u64>)
    ensures
        r == deadline_for(now_ms, timeout_ms),
{
    match timeout_ms {
        None => None,
        Some(t) => {
            if t > u64::MAX - now_ms {
                Some(u64::MAX)
            } else {
                Some(now_ms + t)
            }
        },
    }
}

/// The abstract state of a result stream.
pub struct StreamView {
    pub trigger_pending: bool,
    /// Tag of the event whose execution is under way.
    pub in_flight: Option<u64>,
    pub closed: bool,
    /// Tags of the events taken up, in order.
    pub accepted: Seq<u64>,
    /// Tags of the events answered, in order.
    pub emitted: Seq<u64>,
}

pub open spec fn initial_view() -> StreamView {
    StreamView {
        trigger_pending: true,
        in_flight: None,
        closed: false,
        accepted: seq![],
        emitted: seq![],
    }
}

pub open spec fn after_start(v: StreamView) -> StreamView {
    StreamView {
        trigger_pending: false,
        in_flight: Some(TRIGGER_TAG),
        accepted: v.accepted.push(TRIGGER_TAG),
        ..v
    }
}

pub open spec fn after_event(v: StreamView, tag: u64) -> StreamView {
    StreamView { in_flight: Some(tag), accepted: v.accepted.push(tag), ..v }
}

pub open spec fn after_complete(v: StreamView) -> StreamView {
    StreamView { in_flight: None, emitted: v.emitted.push(v.in_flight->0), ..v }
}

pub open spec fn after_close(v: StreamView) -> StreamView {
    StreamView { trigger_pending: false, in_flight: None, closed: true, ..v }
}

/// A stream that is open, has sent its trigger and executes nothing.
pub open spec fn awaits_source(v: StreamView) -> bool {
    !v.trigger_pending && !v.closed && v.in_flight is None
}

/// What the caller does after a source item was taken up.
pub enum Step {
    /// Acquire a gate permit, run this execution, then report its outcome.
    Execute(ExecutionRequest),
    /// Emit the event-stream error result, then end the stream.
    Fail,
    /// End the stream.
    End,
}

pub struct ResultStream {
    timeout_ms: Option<u64>,
    max_first: u32,
    trigger_pending: bool,
    in_flight: Option<u64>,
    closed: bool,
    accepted: Ghost<Seq<u64>>,
    emitted: Ghost<Seq<u64>>,
}

impl View for ResultStream {
    type V = StreamView;

    closed spec fn view(&self) -> StreamView {
        StreamView {
            trigger_pending: self.trigger_pending,
            in_flight: self.in_flight,
            closed: self.closed,
            accepted: self.accepted@,
            emitted: self.emitted@,
        }
    }
}

impl ResultStream {
    pub closed spec fn spec_timeout_ms(&self) -> Option<u64> {
        self.timeout_ms
    }

    pub closed spec fn spec_max_first(&self) -> u32 {
        self.max_first
    }

    /// A stream whose executions get `timeout_ms` each (if any) and the
    /// given `first` limit.
    pub fn new(timeout_ms: Option<u64>, max_first: u32) -> (r: ResultStream)
        ensures
            r@ == initial_view(),
            r.spec_timeout_ms() == timeout_ms,
            r.spec_max_first() == max_first,
    {
        ResultStream {
            timeout_ms,
            max_first,
            trigger_pending: true,
            in_flight: None,
            closed: false,
            accepted: Ghost(Seq::empty()),
            emitted: Ghost(Seq::empty()),
        }
    }

    pub fn trigger_pending(&self) -> (r: bool)
        ensures
            r == self@.trigger_pending,
    {
        self.trigger_pending
    }

    pub fn is_closed(&self) -> (r: bool)
        ensures
            r == self@.closed,
    {
        self.closed
    }

    pub fn is_executing(&self) -> (r: bool)
        ensures
            r == self@.in_flight is Some,
    {
        self.in_flight.is_some()
    }

    fn request_for(&self, event: StoreEvent, now_ms: u64) -> (r: ExecutionRequest)
        ensures
            r.event == event,
            r.deadline_ms == deadline_for(now_ms, self.timeout_ms),
            r.block == LATEST_BLOCK,
            r.max_first == self.max_first,
    {
        ExecutionRequest {
            event,
            deadline_ms: deadline(now_ms, self.timeout_ms),
            block: LATEST_BLOCK,
            max_first: self.max_first,
        }
    }

    /// Takes up the synthetic trigger event, which every stream executes
    /// first, before any real change.
    pub fn start(&mut self, now_ms: u64) -> (r: ExecutionRequest)
        requires
            old(self)@.trigger_pending,
            !old(self)@.closed,
            old(self)@.in_flight is None,
        ensures
            final(self)@ == after_start(old(self)@),
            final(self).spec_timeout_ms() == old(self).spec_timeout_ms(),
            final(self).spec_max_first() == old(self).spec_max_first(),
            r.event.tag == TRIGGER_TAG,
            r.event.changes@.len() == 0,
            r.deadline_ms == deadline_for(now_ms, old(self).spec_timeout_ms()),
            r.block == LATEST_BLOCK,
            r.max_first == old(self).spec_max_first(),
    {
        let req = self.request_for(trigger_event(), now_ms);
        self.trigger_pending = false;
        self.in_flight = Some(TRIGGER_TAG);
        self.accepted = Ghost(self.accepted@.push(TRIGGER_TAG));
        req
    }

    /// Takes up what the store's stream produced: an event is executed, a
    /// failure ends the stream after its error result, an end ends it.
    pub fn on_source_item(&mut self, item: SourceItem, now_ms: u64) -> (r: Step)
        requires
            awaits_source(old(self)@),
        ensures
            final(self).spec_timeout_ms() == old(self).spec_timeout_ms(),
            final(self).spec_max_first() == old(self).spec_max_first(),
            match item {
                SourceItem::Event(e) => final(self)@ == after_event(old(self)@, e.tag) && match r {
                    Step::Execute(req) => req.event == e && req.deadline_ms == deadline_for(
                        now_ms,
                        old(self).spec_timeout_ms(),
                    ) && req.block == LATEST_BLOCK && req.max_first == old(
                        self,
                    ).spec_max_first(),
                    _ => false,
                },
                SourceItem::Failed => final(self)@ == after_close(old(self)@) && r is Fail,
                SourceItem::Ended => final(self)@ == after_close(old(self)@) && r is End,
            },
    {
        match item {
            SourceItem::Event(e) => {
                let tag = e.tag;
                let req = self.request_for(e, now_ms);
                self.in_flight = Some(tag);
                self.accepted = Ghost(self.accepted@.push(tag));
                Step::Execute(req)
            },
            SourceItem::Failed => {
                self.closed = true;
                Step::Fail
            },
            SourceItem::Ended => {
                self.closed = true;
                Step::End
            },
        }
    }

    /// Turns the outcome of the execution under way into its result. A panic
    /// becomes an error result for this event alone; the stream stays open.
    pub fn complete<D>(&mut self, outcome: ExecutionOutcome<D>) -> (r: QueryResult<D>)
        requires
            old(self)@.in_flight is Some,
            !old(self)@.closed,
        ensures
            final(self)@ == after_complete(old(self)@),
            final(self).spec_timeout_ms() == old(self).spec_timeout_ms(),
            final(self).spec_max_first() == old(self).spec_max_first(),
            answers(outcome, r),
    {
        let tag = self.in_flight.unwrap();
        self.in_flight = None;
        self.emitted = Ghost(self.emitted@.push(tag));
        match outcome {
            ExecutionOutcome::Completed(d) => QueryResult::Data(d),
            ExecutionOutcome::Failed(msgs) => QueryResult::Errors(execution_errors(msgs)),
            ExecutionOutcome::Panicked(msg) => {
                let mut errs: Vec<QueryError> = Vec::new();
                errs.push(QueryError::Panic(msg));
                QueryResult::Errors(errs)
            },
        }
    }

    /// Ends the stream at the consumer's request. Reports whether an
    /// execution was under way, whose gate permit the caller then gives back.
    pub fn cancel(&mut self) -> (r: bool)
        ensures
            r == old(self)@.in_flight is Some,
            final(self)@ == after_close(old(self)@),
            final(self).spec_timeout_ms() == old(self).spec_timeout_ms(),
            final(self).spec_max_first() == old(self).spec_max_first(),
    {
        let was_executing = self.in_flight.is_some();
        self.in_flight = None;
        self.trigger_pending = false;
        self.closed = true;
        was_executing
    }
}

/// The result emitted when the store's change stream fails.
pub fn event_stream_failure<D>() -> (r: QueryResult<D>)
    ensures
        match r {
            QueryResult::Errors(errs) => errs@ == seq![QueryError::EventStreamError],
            _ => false,
        },
{
    let mut errs: Vec<QueryError> = Vec::new();
    errs.push(QueryError::EventStreamError);
    QueryResult::Errors(errs)
}

fn execution_errors(msgs: Vec<String>) -> (r: Vec<QueryError>)
    ensures
        r@.len() == msgs@.len(),
        forall|i: int| 0 <= i < msgs@.len() ==> r@[i] == QueryError::Execution(msgs@[i]),
{
    let mut errs: Vec<QueryError> = Vec::new();
    let mut rest = msgs;
    let ghost all = rest@;
    let mut i: usize = 0;
    while i < rest.len()
        invariant
            rest@ == all,
            i <= all.len(),
            errs@.len() == i,
            forall|k: int| 0 <= k < i ==> errs@[k] == QueryError::Execution(all[k]),
        decreases all.len() - i,
    {
        let m = rest[i].clone();
        errs.push(QueryError::Execution(m));
        i = i + 1;
    }
    errs
}

/// The state reached by answering the trigger and then, one after the
/// other, the real events tagged `tags`.
pub open spec fn after_events(tags: Seq<u64>) -> StreamView
    decreases tags.len(),
{
    if tags.len() == 0 {
        after_complete(after_start(initial_view()))
    } else {
        after_complete(after_event(after_events(tags.drop_last()), tags.last()))
    }
}

/// A new stream answers the trigger first: once it has, exactly one result
/// has been emitted, for the trigger event, and the stream waits for the
/// store.
pub proof fn lemma_trigger_answered_first()
    ensures
        after_complete(after_start(initial_view())).emitted == seq![TRIGGER_TAG],
        awaits_source(after_complete(after_start(initial_view()))),
{
    assert(after_complete(after_start(initial_view())).emitted =~= seq![TRIGGER_TAG]);
}

/// After the trigger and `n` real events, whatever each execution returned,
/// exactly `n + 1` results have been emitted, in the order the events came,
/// and the stream is still open.
pub proof fn lemma_results_follow_events(tags: Seq<u64>)
    ensures
        after_events(tags).emitted == seq![TRIGGER_TAG] + tags,
        after_events(tags).emitted.len() == tags.len() + 1,
        after_events(tags).accepted == after_events(tags).emitted,
        awaits_source(after_events(tags)),
    decreases tags.len(),
{
    if tags.len() == 0 {
        assert(after_events(tags).emitted =~= seq![TRIGGER_TAG] + tags);
        assert(after_events(tags).accepted =~= seq![TRIGGER_TAG]);
    } else {
        lemma_results_follow_events(tags.drop_last());
        assert(seq![TRIGGER_TAG] + tags =~= (seq![TRIGGER_TAG] + tags.drop_last()).push(tags.last()));
    }
}

/// Cancelling a stream whose execution holds a permit leaves nothing in
/// flight and frees that permit: a gate that was full can admit again.
pub proof fn lemma_cancel_frees_permit(v: StreamView, capacity: nat, held: nat)
    requires
        v.in_flight is Some,
        0 < held <= capacity,
    ensures
        after_close(v).in_flight is None,
        after_close(v).closed,
        crate::gate::release_step(held) < capacity,
        crate::gate::acquire_step(capacity, crate::gate::release_step(held)) == held,
{
}

/// A panicking execution is answered by one error naming the panic, for
/// its own event only; the stream moves on exactly as after a success: it
/// stays open and waits for the next event.
pub proof fn lemma_panic_contained<D>(v: StreamView, msg: String, r: QueryResult<D>)
    requires
        v.in_flight is Some,
        !v.closed,
        !v.trigger_pending,
        answers(ExecutionOutcome::Panicked(msg), r),
    ensures
        r matches QueryResult::Errors(errs) && errs@ == seq![QueryError::Panic(msg)],
        after_complete(v).emitted == v.emitted.push(v.in_flight->0),
        awaits_source(after_complete(v)),
{
}

} // verus!
