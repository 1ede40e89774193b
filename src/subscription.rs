//! Setting a subscription up: checking the compiled query against the
//! configured limits, resolving its single root field, opening its change
//! stream and preparing the result stream.
use vstd::prelude::*;
use crate::error::SubscriptionError;
use crate::root::{
    flatten,
    flatten_selections,
    resolve_root_field,
    root_resolution,
    FieldSelection,
    ObjectType,
    SchemaDocument,
    Selection,
    SUBSCRIPTION_TYPE_NAME,
};
use crate::stream::{initial_view, ResultStream};

verus! {

/// Options available for subscription execution.
pub struct SubscriptionExecutionOptions<R> {
    /// The resolver to use.
    pub resolver: R,
    /// Individual timeout for each subscription query, in milliseconds.
    pub timeout_ms: Option<u64>,
    /// Maximum complexity for a subscription query.
    pub max_complexity: Option<u64>,
    /// Maximum depth for a subscription query.
    pub max_depth: u8,
    /// Maximum value for the `first` argument.
    pub max_first: u32,
}

/// The kind of the operation a query document runs.
pub enum OperationKind {
    Query,
    Mutation,
    Subscription,
}

/// A compiled subscription request: the schema it is bound to, its
/// operation kind, its top-level selections and the measures the query
/// compiler took of it.
pub struct Subscription {
    pub schema: SchemaDocument,
    pub operation: OperationKind,
    pub selections: Vec<Selection>,
    pub complexity: u64,
    pub depth: u64,
}

/// Opens the stream of store changes that a root field watches. The
/// resolver also coerces the field's arguments; any failure comes back as a
/// message.
pub trait FieldStreamResolver {
    type Stream;

    fn resolve_field_stream(
        &self,
        schema: &SchemaDocument,
        object_type: &ObjectType,
        field: &FieldSelection,
    ) -> Result<Self::Stream, String>;
}

/// What checking a compiled query against the limits decides.
pub open spec fn query_check(
    sub: Subscription,
    max_complexity: Option<u64>,
    max_depth: u8,
) -> Option<SubscriptionError> {
    if max_complexity is Some && sub.complexity > max_complexity->0 {
        Some(
            SubscriptionError::TooComplex {
                complexity: sub.complexity,
                max_complexity: max_complexity->0,
            },
        )
    } else if sub.depth > max_depth as u64 {
        Some(SubscriptionError::TooDeep { depth: sub.depth, max_depth })
    } else if !(sub.operation is Subscription) {
        Some(SubscriptionError::NotSupported)
    } else {
        None
    }
}

/// Refuses a query over the complexity or depth limit, or one that is not a
/// subscription.
pub fn check_query(sub: &Subscription, max_complexity: Option<u64>, max_depth: u8) -> (r: Result<
    (),
    SubscriptionError,
>)
    ensures
        match query_check(*sub, max_complexity, max_depth) {
            Some(e) => r == Err::<(), SubscriptionError>(e),
            None => r is Ok,
        },
{
    if let Some(max) = max_complexity {
        if sub.complexity > max {
            return Err(
                SubscriptionError::TooComplex { complexity: sub.complexity, max_complexity: max },
            );
        }
    }
    if sub.depth > max_depth as u64 {
        return Err(SubscriptionError::TooDeep { depth: sub.depth, max_depth });
    }
    match sub.operation {
        OperationKind::Subscription => Ok(()),
        _ => Err(SubscriptionError::NotSupported),
    }
}

/// The top-level fields of a selection set, fragments expanded for the root
/// subscription type.
pub open spec fn top_level_fields(selections: Seq<Selection>) -> Seq<FieldSelection> {
    flatten(selections, SUBSCRIPTION_TYPE_NAME@)
}

/// Resolves the single root field and asks the resolver for its change
/// stream. A refused query never reaches the resolver.
pub fn create_source_event_stream<R: FieldStreamResolver>(
    resolver: &R,
    schema: &SchemaDocument,
    selections: Vec<Selection>,
) -> (r: Result<R::Stream, SubscriptionError>)
    ensures
        match root_resolution(schema.object_types@, top_level_fields(selections@)) {
            Err(e) => r == Err::<R::Stream, SubscriptionError>(e),
            Ok(_) => r is Ok || r matches Err(SubscriptionError::EventSource { .. }),
        },
{
    let fields = flatten_selections(selections, SUBSCRIPTION_TYPE_NAME);
    let (t, f) = match resolve_root_field(schema, &fields) {
        Ok(found) => found,
        Err(e) => return Err(e),
    };
    match resolver.resolve_field_stream(schema, &schema.object_types[t], &fields[f]) {
        Ok(stream) => Ok(stream),
        Err(message) => Err(SubscriptionError::EventSource { message }),
    }
}

/// A subscription that was set up: its store change stream and the state of
/// its result stream.
pub struct SubscriptionStream<S> {
    pub source: S,
    pub results: ResultStream,
}

/// Sets a subscription up. Limits are checked first, then the root field is
/// resolved, then its change stream opened; on success the result stream is
/// fresh, its trigger not yet executed.
pub fn execute_subscription<R: FieldStreamResolver>(
    subscription: Subscription,
    options: SubscriptionExecutionOptions<R>,
) -> (r: Result<SubscriptionStream<R::Stream>, SubscriptionError>)
    ensures
        match query_check(subscription, options.max_complexity, options.max_depth) {
            Some(e) => r == Err::<SubscriptionStream<R::Stream>, SubscriptionError>(e),
            None => match root_resolution(
                subscription.schema.object_types@,
                top_level_fields(subscription.selections@),
            ) {
                Err(e) => r == Err::<SubscriptionStream<R::Stream>, SubscriptionError>(e),
                Ok(_) => match r {
                    Ok(s) => s.results@ == initial_view() && s.results.spec_timeout_ms()
                        == options.timeout_ms && s.results.spec_max_first() == options.max_first,
                    Err(e) => e is EventSource,
                },
            },
        },
{
    match check_query(&subscription, options.max_complexity, options.max_depth) {
        Ok(()) => {},
        Err(e) => return Err(e),
    }
    let Subscription { schema, selections, .. } = subscription;
    let source = match create_source_event_stream(&options.resolver, &schema, selections) {
        Ok(s) => s,
        Err(e) => return Err(e),
    };
    Ok(SubscriptionStream {
        source,
        results: ResultStream::new(options.timeout_ms, options.max_first),
    })
}

} // verus!
