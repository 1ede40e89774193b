use std::cell::Cell;

use subscription_engine::error::SubscriptionError;
use subscription_engine::gate::{gate_capacity, AdmissionGate};
use subscription_engine::root::{
    collect_fields, find_root_subscription_type, flatten_selections, resolve_root_field,
    FieldSelection, InlineFragment, ObjectType, SchemaDocument, Selection,
};
use subscription_engine::stream::{
    deadline, event_stream_failure, trigger_event, ExecutionOutcome, QueryError, QueryResult,
    ResultStream, SourceItem, Step, StoreEvent, LATEST_BLOCK, TRIGGER_TAG,
};
use subscription_engine::subscription::{
    check_query, create_source_event_stream, execute_subscription, FieldStreamResolver,
    OperationKind, Subscription, SubscriptionExecutionOptions,
};
use subscription_engine::text::same_name;

struct MockResolver {
    calls: Cell<u32>,
    fail: bool,
}

impl FieldStreamResolver for MockResolver {
    type Stream = String;

    fn resolve_field_stream(
        &self,
        _schema: &SchemaDocument,
        object_type: &ObjectType,
        field: &FieldSelection,
    ) -> Result<String, String> {
        self.calls.set(self.calls.get() + 1);
        if self.fail {
            Err("store unavailable".to_string())
        } else {
            Ok(format!("{}.{}", object_type.name, field.name))
        }
    }
}

fn resolver() -> MockResolver {
    MockResolver { calls: Cell::new(0), fail: false }
}

fn object(name: &str) -> ObjectType {
    ObjectType { name: name.to_string(), fields: vec!["entities".to_string()] }
}

fn schema() -> SchemaDocument {
    SchemaDocument { object_types: vec![object("Query"), object("Subscription")] }
}

fn field(key: &str, name: &str, included: bool) -> FieldSelection {
    FieldSelection {
        response_key: key.to_string(),
        name: name.to_string(),
        skip_if: if included { None } else { Some(true) },
        include_if: None,
    }
}

fn top(fields: Vec<FieldSelection>) -> Vec<Selection> {
    fields.into_iter().map(Selection::Field).collect()
}

fn fragment(on: Option<&str>, fields: Vec<FieldSelection>) -> Selection {
    Selection::InlineFragment(InlineFragment {
        type_condition: on.map(|t| t.to_string()),
        skip_if: None,
        include_if: None,
        fields,
    })
}

fn subscription(selections: Vec<FieldSelection>) -> Subscription {
    Subscription {
        schema: schema(),
        operation: OperationKind::Subscription,
        selections: top(selections),
        complexity: 10,
        depth: 2,
    }
}

fn options(r: MockResolver) -> SubscriptionExecutionOptions<MockResolver> {
    SubscriptionExecutionOptions {
        resolver: r,
        timeout_ms: Some(500),
        max_complexity: Some(100),
        max_depth: 10,
        max_first: 1000,
    }
}

fn event(tag: u64) -> StoreEvent {
    StoreEvent { tag, changes: vec![format!("entity-{}", tag)] }
}

fn data_of(r: QueryResult<u64>) -> u64 {
    match r {
        QueryResult::Data(d) => d,
        QueryResult::Errors(_) => panic!("expected data"),
    }
}

#[test]
fn gate_capacity_is_seven_tenths_rounded_up() {
    assert_eq!(gate_capacity(10), 7);
    assert_eq!(gate_capacity(0), 0);
    assert_eq!(gate_capacity(1), 1);
    assert_eq!(gate_capacity(3), 3);
    assert_eq!(gate_capacity(20), 14);
    assert_eq!(gate_capacity(11), 8);
    let expected = ((7 * (u64::MAX as u128) + 9) / 10) as u64;
    assert_eq!(gate_capacity(u64::MAX), expected);
}

#[test]
fn gate_of_ten_admits_seven_then_one_after_release() {
    let mut gate = AdmissionGate::new(10);
    assert_eq!(gate.capacity(), 7);
    for _ in 0..7 {
        assert!(gate.try_acquire());
    }
    assert!(!gate.try_acquire());
    assert_eq!(gate.in_use(), 7);
    assert_eq!(gate.available(), 0);
    gate.release();
    assert_eq!(gate.available(), 1);
    assert!(gate.try_acquire());
    assert!(!gate.try_acquire());
}

#[test]
fn gate_bursts_never_exceed_capacity() {
    let mut gate = AdmissionGate::new(4);
    assert_eq!(gate.capacity(), 3);
    let mut held: u64 = 0;
    for round in 0..50u64 {
        if round % 3 == 2 && held > 0 {
            gate.release();
            held -= 1;
        } else if gate.try_acquire() {
            held += 1;
        }
        assert!(gate.in_use() <= gate.capacity());
        assert_eq!(gate.in_use(), held);
    }
}

#[test]
fn names_compare_exactly() {
    assert!(same_name("Subscription", "Subscription"));
    assert!(!same_name("Subscription", "subscription"));
    assert!(!same_name("Sub", "Subscription"));
    assert!(same_name("", ""));
    assert!(same_name("ünïcode", "ünïcode"));
}

#[test]
fn root_type_is_first_named_subscription() {
    assert_eq!(find_root_subscription_type(&schema()), Some(1));
    let none = SchemaDocument { object_types: vec![object("Query"), object("Mutation")] };
    assert_eq!(find_root_subscription_type(&none), None);
}

#[test]
fn fields_group_by_response_key() {
    let sel = vec![
        field("a", "users", false),
        field("b", "tokens", true),
        field("c", "pairs", true),
        field("b", "tokens", true),
        field("a", "users", true),
    ];
    assert_eq!(collect_fields(&sel), vec![1, 2, 4]);
    assert_eq!(collect_fields(&vec![]), Vec::<usize>::new());
}

#[test]
fn skip_and_include_decide_selection() {
    let mut f = field("a", "users", true);
    assert!(f.is_included());
    f.skip_if = Some(false);
    assert!(f.is_included());
    f.include_if = Some(false);
    assert!(!f.is_included());
    f.include_if = Some(true);
    assert!(f.is_included());
    f.skip_if = Some(true);
    assert!(!f.is_included());
    let excluded = FieldSelection {
        response_key: "b".to_string(),
        name: "tokens".to_string(),
        skip_if: None,
        include_if: Some(false),
    };
    let sel = vec![excluded, field("a", "users", true)];
    assert_eq!(resolve_root_field(&schema(), &sel).ok(), Some((1, 1)));
}

#[test]
fn single_field_resolves() {
    let sel = vec![field("skip", "users", false), field("t", "tokens", true)];
    assert_eq!(resolve_root_field(&schema(), &sel).ok(), Some((1, 1)));
    let same_key = vec![field("t", "tokens", true), field("t", "tokens", true)];
    assert_eq!(resolve_root_field(&schema(), &same_key).ok(), Some((1, 0)));
}

#[test]
fn zero_fields_fail_with_empty_query() {
    let r = resolver();
    let out = execute_subscription(subscription(vec![]), options(r));
    assert!(matches!(out, Err(SubscriptionError::EmptyQuery)));
    let skipped = create_source_event_stream(&resolver(), &schema(), top(vec![field("a", "x", false)]));
    assert!(matches!(skipped, Err(SubscriptionError::EmptyQuery)));
}

#[test]
fn empty_query_never_reaches_the_resolver() {
    let r = resolver();
    let out = create_source_event_stream(&r, &schema(), vec![]);
    assert!(matches!(out, Err(SubscriptionError::EmptyQuery)));
    assert_eq!(r.calls.get(), 0);
}

#[test]
fn two_fields_fail_with_multiple_subscription_fields() {
    let r = resolver();
    let two = || vec![field("a", "users", true), field("b", "tokens", true)];
    let out = create_source_event_stream(&r, &schema(), top(two()));
    assert!(matches!(out, Err(SubscriptionError::MultipleSubscriptionFields)));
    assert_eq!(r.calls.get(), 0);
    let out = execute_subscription(subscription(two()), options(resolver()));
    assert!(matches!(out, Err(SubscriptionError::MultipleSubscriptionFields)));
}

#[test]
fn missing_root_type_is_refused() {
    let none = SchemaDocument { object_types: vec![object("Query")] };
    let out = create_source_event_stream(&resolver(), &none, top(vec![field("a", "users", true)]));
    assert!(matches!(out, Err(SubscriptionError::NoRootSubscriptionObjectType)));
}

#[test]
fn resolver_failure_becomes_event_source_error() {
    let r = MockResolver { calls: Cell::new(0), fail: true };
    let out = create_source_event_stream(&r, &schema(), top(vec![field("a", "users", true)]));
    match out {
        Err(SubscriptionError::EventSource { message }) => assert_eq!(message, "store unavailable"),
        _ => panic!("expected an event source error"),
    }
    assert_eq!(r.calls.get(), 1);
}

#[test]
fn resolver_gets_the_root_type_and_field() {
    let sel = vec![field("x", "users", false), field("t", "tokens", true)];
    let out = create_source_event_stream(&resolver(), &schema(), top(sel));
    assert_eq!(out.ok(), Some("Subscription.tokens".to_string()));
}

#[test]
fn limits_and_operation_kind_are_checked() {
    let mut sub = subscription(vec![field("a", "users", true)]);
    sub.complexity = 101;
    assert!(matches!(
        check_query(&sub, Some(100), 10),
        Err(SubscriptionError::TooComplex { complexity: 101, max_complexity: 100 })
    ));
    assert!(check_query(&sub, None, 10).is_ok());
    sub.depth = 11;
    assert!(matches!(
        check_query(&sub, None, 10),
        Err(SubscriptionError::TooDeep { depth: 11, max_depth: 10 })
    ));
    sub.depth = 10;
    sub.operation = OperationKind::Query;
    assert!(matches!(check_query(&sub, None, 10), Err(SubscriptionError::NotSupported)));
    let mut sub = subscription(vec![field("a", "users", true)]);
    sub.operation = OperationKind::Mutation;
    let r = resolver();
    assert!(matches!(execute_subscription(sub, options(r)), Err(SubscriptionError::NotSupported)));
}

#[test]
fn error_messages_describe_the_failure() {
    assert_eq!(SubscriptionError::NotSupported.message(), "Only subscriptions are supported");
    let e = SubscriptionError::EventSource { message: "gone".to_string() };
    assert_eq!(e.message(), "gone");
    assert_eq!(SubscriptionError::EmptyQuery.message(), "the subscription selects no field");
}

#[test]
fn trigger_is_answered_before_any_change() {
    let sub = execute_subscription(subscription(vec![field("a", "users", true)]), options(resolver()))
        .ok()
        .expect("subscription sets up");
    assert_eq!(sub.source, "Subscription.users");
    let mut results = sub.results;
    assert!(results.trigger_pending());
    let req = results.start(1_000);
    assert_eq!(req.event.tag, TRIGGER_TAG);
    assert!(req.event.changes.is_empty());
    assert_eq!(req.deadline_ms, Some(1_500));
    assert_eq!(req.block, LATEST_BLOCK);
    assert_eq!(req.max_first, 1000);
    assert!(results.is_executing());
    let r: QueryResult<u64> = results.complete(ExecutionOutcome::Completed(42));
    assert_eq!(data_of(r), 42);
    assert!(!results.trigger_pending());
    assert!(!results.is_executing());
    assert!(!results.is_closed());
}

#[test]
fn n_events_give_n_plus_one_results_in_order() {
    let mut results = ResultStream::new(None, 100);
    let mut answered: Vec<u64> = Vec::new();
    let req = results.start(0);
    assert_eq!(req.deadline_ms, None);
    answered.push(data_of(results.complete(ExecutionOutcome::Completed(req.event.tag))));
    for tag in [5u64, 3, 9, 1] {
        match results.on_source_item(SourceItem::Event(event(tag)), 10) {
            Step::Execute(req) => {
                assert_eq!(req.event.tag, tag);
                assert_eq!(req.event.changes, vec![format!("entity-{}", tag)]);
                answered.push(data_of(results.complete(ExecutionOutcome::Completed(tag))));
            }
            _ => panic!("expected an execution"),
        }
    }
    assert!(matches!(results.on_source_item(SourceItem::Ended, 20), Step::End));
    assert!(results.is_closed());
    assert_eq!(answered, vec![0, 5, 3, 9, 1]);
}

#[test]
fn panic_in_one_execution_is_contained() {
    let mut results = ResultStream::new(Some(10), 100);
    results.start(0);
    let _: QueryResult<u64> = results.complete(ExecutionOutcome::Completed(0));
    let mut seen: Vec<QueryResult<u64>> = Vec::new();
    for tag in 1..=3u64 {
        assert!(matches!(results.on_source_item(SourceItem::Event(event(tag)), 0), Step::Execute(_)));
        let outcome = if tag == 2 {
            ExecutionOutcome::Panicked("boom".to_string())
        } else {
            ExecutionOutcome::Completed(tag)
        };
        seen.push(results.complete(outcome));
        assert!(!results.is_closed());
    }
    assert!(matches!(seen[0], QueryResult::Data(1)));
    match &seen[1] {
        QueryResult::Errors(errs) => {
            assert_eq!(errs.len(), 1);
            assert!(matches!(&errs[0], QueryError::Panic(m) if m == "boom"));
        }
        _ => panic!("expected a panic error"),
    }
    assert!(matches!(seen[2], QueryResult::Data(3)));
}

#[test]
fn execution_errors_keep_their_order() {
    let mut results = ResultStream::new(None, 100);
    results.start(0);
    let r: QueryResult<u64> =
        results.complete(ExecutionOutcome::Failed(vec!["first".to_string(), "second".to_string()]));
    match r {
        QueryResult::Errors(errs) => {
            assert_eq!(errs.len(), 2);
            assert!(matches!(&errs[0], QueryError::Execution(m) if m == "first"));
            assert!(matches!(&errs[1], QueryError::Execution(m) if m == "second"));
        }
        _ => panic!("expected errors"),
    }
}

#[test]
fn source_failure_ends_the_stream_with_an_error() {
    let mut results = ResultStream::new(None, 100);
    results.start(0);
    let _: QueryResult<u64> = results.complete(ExecutionOutcome::Completed(0));
    assert!(matches!(results.on_source_item(SourceItem::Failed, 0), Step::Fail));
    assert!(results.is_closed());
    let r: QueryResult<u64> = event_stream_failure();
    match r {
        QueryResult::Errors(errs) => {
            assert_eq!(errs.len(), 1);
            assert!(matches!(errs[0], QueryError::EventStreamError));
        }
        _ => panic!("expected the event stream error"),
    }
}

#[test]
fn cancel_in_flight_frees_the_permit() {
    let mut gate = AdmissionGate::new(1);
    assert_eq!(gate.capacity(), 1);
    let mut results = ResultStream::new(None, 100);
    results.start(0);
    assert!(gate.try_acquire());
    let mut other = ResultStream::new(None, 100);
    other.start(0);
    assert!(!gate.try_acquire());
    if results.cancel() {
        gate.release();
    }
    assert!(results.is_closed());
    assert!(!results.is_executing());
    assert!(gate.try_acquire());
    let mut idle = ResultStream::new(None, 100);
    assert!(!idle.cancel());
}

#[test]
fn deadline_adds_the_timeout_and_saturates() {
    assert_eq!(deadline(1_000, Some(250)), Some(1_250));
    assert_eq!(deadline(1_000, None), None);
    assert_eq!(deadline(u64::MAX - 1, Some(5)), Some(u64::MAX));
    let t = trigger_event();
    assert_eq!(t.tag, 0);
    assert!(t.changes.is_empty());
}

#[test]
fn eight_subscriptions_share_seven_permits() {
    let mut gate = AdmissionGate::new(10);
    let mut streams: Vec<ResultStream> = (0..8).map(|_| ResultStream::new(None, 100)).collect();
    let mut admitted: Vec<bool> = Vec::new();
    for s in streams.iter_mut() {
        s.start(0);
        admitted.push(gate.try_acquire());
    }
    assert_eq!(admitted.iter().filter(|a| **a).count(), 7);
    assert!(!admitted[7]);
    assert_eq!(gate.in_use(), 7);
    let r: QueryResult<u64> = streams[0].complete(ExecutionOutcome::Completed(1));
    assert_eq!(data_of(r), 1);
    gate.release();
    assert!(gate.try_acquire());
    let r: QueryResult<u64> = streams[7].complete(ExecutionOutcome::Completed(8));
    assert_eq!(data_of(r), 8);
    gate.release();
    assert_eq!(gate.in_use(), 6);
}

#[test]
fn fragments_on_the_root_type_contribute_fields() {
    let items = vec![
        Selection::Field(field("a", "users", true)),
        fragment(Some("Subscription"), vec![field("b", "tokens", true), field("c", "pairs", true)]),
        fragment(Some("Query"), vec![field("d", "other", true)]),
        fragment(None, vec![field("e", "swaps", true)]),
    ];
    let keys: Vec<String> =
        flatten_selections(items, "Subscription").into_iter().map(|f| f.response_key).collect();
    assert_eq!(keys, vec!["a", "b", "c", "e"]);
}

#[test]
fn excluded_fragments_contribute_nothing() {
    let skipped = Selection::InlineFragment(InlineFragment {
        type_condition: None,
        skip_if: Some(true),
        include_if: None,
        fields: vec![field("a", "users", true)],
    });
    let not_included = Selection::InlineFragment(InlineFragment {
        type_condition: Some("Subscription".to_string()),
        skip_if: None,
        include_if: Some(false),
        fields: vec![field("b", "tokens", true)],
    });
    assert!(flatten_selections(vec![skipped, not_included], "Subscription").is_empty());
}

#[test]
fn field_inside_fragment_is_watched() {
    let items = vec![fragment(Some("Subscription"), vec![field("t", "tokens", true)])];
    let out = create_source_event_stream(&resolver(), &schema(), items);
    assert_eq!(out.ok(), Some("Subscription.tokens".to_string()));
    let other = vec![fragment(Some("Query"), vec![field("t", "tokens", true)])];
    let out = create_source_event_stream(&resolver(), &schema(), other);
    assert!(matches!(out, Err(SubscriptionError::EmptyQuery)));
    let two = vec![
        Selection::Field(field("a", "users", true)),
        fragment(None, vec![field("t", "tokens", true)]),
    ];
    let out = create_source_event_stream(&resolver(), &schema(), two);
    assert!(matches!(out, Err(SubscriptionError::MultipleSubscriptionFields)));
}
