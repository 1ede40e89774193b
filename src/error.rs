//! Errors that end a subscription attempt before or in place of its stream.
use vstd::prelude::*;

verus! {

/// A setup-time failure: the whole subscription is refused.
pub enum SubscriptionError {
    /// The operation is not a subscription.
    NotSupported,
    /// The query's estimated cost exceeds the configured maximum.
    TooComplex { complexity: u64, max_complexity: u64 },
    /// The query nests deeper than the configured maximum.
    TooDeep { depth: u64, max_depth: u8 },
    /// The schema has no root subscription object type.
    NoRootSubscriptionObjectType,
    /// No top-level field is selected.
    EmptyQuery,
    /// More than one top-level field is selected.
    MultipleSubscriptionFields,
    /// The resolver could not open a change stream for the field.
    EventSource { message: String },
}

/// The description of each error.
pub open spec fn error_message(e: SubscriptionError) -> Seq<char> {
    match e {
        SubscriptionError::NotSupported => "Only subscriptions are supported"@,
        SubscriptionError::TooComplex { .. } => "query is too complex"@,
        SubscriptionError::TooDeep { .. } => "query has too many nested selections"@,
        SubscriptionError::NoRootSubscriptionObjectType => "no root subscription type"@,
        SubscriptionError::EmptyQuery => "the subscription selects no field"@,
        SubscriptionError::MultipleSubscriptionFields => {
            "a subscription must select exactly one top-level field"@
        },
        SubscriptionError::EventSource { message } => message@,
    }
}

impl SubscriptionError {
    /// A short human-readable description.
    pub fn message(&self) -> (r: String)
        ensures
            r@ == error_message(*self),
    {
        match self {
            SubscriptionError::NotSupported => "Only subscriptions are supported".to_owned(),
            SubscriptionError::TooComplex { .. } => "query is too complex".to_owned(),
            SubscriptionError::TooDeep { .. } => "query has too many nested selections".to_owned(),
            SubscriptionError::NoRootSubscriptionObjectType => "no root subscription type".to_owned(),
            SubscriptionError::EmptyQuery => "the subscription selects no field".to_owned(),
            SubscriptionError::MultipleSubscriptionFields => {
                "a subscription must select exactly one top-level field".to_owned()
            },
            SubscriptionError::EventSource { message } => message.clone(),
        }
    }
}

} // verus!
