//! Events and their caller-supplied properties.
//!
//! An event is immutable once built: the timestamp and the session identifier
//! are captured when it is enqueued, not when it is sent. Caller-supplied
//! properties must be an object-shaped JSON value; any other shape is rejected
//! before anything is enqueued.

use vstd::prelude::*;

verus! {

#[verifier::external_type_specification]
#[verifier::external_body]
pub struct ExValue(serde_json::Value);

/// Whether the JSON value holds an object (a mapping of strings to values),
/// as opposed to a scalar or an array.
pub uninterp spec fn is_object_value(v: serde_json::Value) -> bool;

/// Relies on serde_json::Value::is_object: true exactly on the Object variant.
pub assume_specification[ serde_json::Value::is_object ](v: &serde_json::Value) -> (r: bool)
    ensures
        r == is_object_value(*v),
;

/// One tracked occurrence, fully stamped and ready to be sent.
pub struct Event {
    /// RFC 3339 UTC timestamp, captured at enqueue time.
    pub timestamp: String,
    /// Session identifier resolved at enqueue time.
    pub session_id: String,
    /// Caller-supplied name; what happened.
    pub event_name: String,
    /// Host descriptors captured once at client construction.
    pub system_props: crate::sys::SystemProperties,
    /// Version of the embedding application.
    pub app_version: String,
    /// Version of this library.
    pub sdk_version: String,
    /// Caller-supplied structured payload; object-shaped when present.
    pub props: Option<serde_json::Value>,
}

/// What the event built from these parts must hold.
pub open spec fn event_built_from(
    e: Event,
    name: Seq<char>,
    session_id: Seq<char>,
    system_props: crate::sys::SystemProperties,
    app_version: Seq<char>,
    props: Option<serde_json::Value>,
) -> bool {
    e.event_name@ == name && e.session_id@ == session_id && e.system_props == system_props
        && e.app_version@ == app_version && e.sdk_version@ == "aptabase@0.1.0"@ && e.props == props
}

/// Builds an event from its parts, stamping the library's own version.
pub fn build_event(
    timestamp: String,
    session_id: String,
    name: &str,
    system_props: &crate::sys::SystemProperties,
    app_version: &String,
    props: Option<serde_json::Value>,
) -> (e: Event)
    ensures
        event_built_from(e, name@, session_id@, *system_props, app_version@, props),
        e.timestamp == timestamp,
{
    Event {
        timestamp,
        session_id,
        event_name: name.to_owned(),
        system_props: system_props.clone(),
        app_version: app_version.clone(),
        sdk_version: "aptabase@0.1.0".to_owned(),
        props,
    }
}

} // verus!
