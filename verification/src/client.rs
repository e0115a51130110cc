//! The client facade: the one object the embedding application talks to.
//!
//! `track_event` validates the caller's properties, stamps the event with a
//! timestamp, the current session identifier and the static system
//! properties, and enqueues it. It returns at once; delivery happens later,
//! when a flush pass drains the queue. A client whose configuration resolved
//! to an empty key is disabled: tracking is a silent no-op.

use vstd::prelude::*;

use crate::config::Config;
use crate::dispatcher::{spec_flush_failed, DeliveryResult, EventDispatcher};
use crate::event::{build_event, event_built_from, is_object_value, Event};
use crate::session::{
    lookup_machine_id, rotate_session, rotated_id, session_id_of, today_utc, TrackingSession,
};
use crate::sys::SystemProperties;

verus! {

/// Relies on time::OffsetDateTime::now_utc and the RFC 3339 formatter: the
/// current UTC instant as an RFC 3339 string (empty if the formatter refuses,
/// which it does not for present-day dates). The value depends on the clock,
/// so nothing is promised of it.
#[verifier::external_body]
fn now_rfc3339() -> (t: String) {
    match time::OffsetDateTime::now_utc().format(
        &time::format_description::well_known::Rfc3339,
    ) {
        Ok(t) => t,
        Err(_) => String::new(),
    }
}

/// Caller-supplied properties are accepted when absent or object-shaped.
pub open spec fn props_acceptable(props: Option<serde_json::Value>) -> bool {
    match props {
        None => true,
        Some(v) => is_object_value(v),
    }
}

/// The client used to track events.
pub struct AptabaseClient {
    /// False exactly when the resolved key is empty; then tracking is a no-op.
    pub is_enabled: bool,
    pub app_key: String,
    /// OS-native machine identifier, read once at construction.
    pub machine_id: String,
    pub session: TrackingSession,
    pub dispatcher: EventDispatcher,
    pub app_version: String,
    pub sys_info: SystemProperties,
}

impl AptabaseClient {
    /// What no client operation ever changes.
    pub open spec fn same_identity(&self, other: &Self) -> bool {
        self.is_enabled == other.is_enabled && self.app_key == other.app_key && self.machine_id
            == other.machine_id && self.app_version == other.app_version && self.sys_info
            == other.sys_info
    }

    /// A client over a resolved configuration: enabled exactly when the key
    /// is non-empty, with an empty queue and a session derived for today.
    pub fn new(config: &Config, app_version: String, sys_info: SystemProperties) -> (c: Self)
        ensures
            c.is_enabled == (config.app_key@.len() > 0),
            c.app_key@ == config.app_key@,
            c.dispatcher@ == Seq::<Event>::empty(),
            c.dispatcher.spec_url() == config.ingest_api_url@,
            c.session.id@ == session_id_of(c.machine_id@, config.app_key@, c.session.date@),
            c.app_version == app_version,
            c.sys_info == sys_info,
    {
        let machine_id = lookup_machine_id();
        let today = today_utc();
        let session = TrackingSession::new(
            machine_id.as_str(),
            config.app_key.as_str(),
            today.as_str(),
        );
        let is_enabled = !config.app_key.as_str().is_empty();
        AptabaseClient {
            is_enabled,
            app_key: config.app_key.clone(),
            machine_id,
            session,
            dispatcher: EventDispatcher::new(config),
            app_version,
            sys_info,
        }
    }

    /// Returns the current session identifier, first rotating the session
    /// when the UTC date has changed since it was derived.
    pub fn eval_session_id(&mut self) -> (id: String)
        ensures
            id@ == final(self).session.id@,
            final(self).session.id@ == rotated_id(
                old(self).session.id@,
                old(self).session.date@,
                old(self).machine_id@,
                old(self).app_key@,
                final(self).session.date@,
            ),
            old(self).session.date@ == final(self).session.date@ ==> final(self).session == old(
                self,
            ).session,
            final(self).same_identity(old(self)),
            final(self).dispatcher == old(self).dispatcher,
    {
        let today = today_utc();
        rotate_session(
            &mut self.session,
            self.machine_id.as_str(),
            self.app_key.as_str(),
            today.as_str(),
        );
        self.session.id.clone()
    }

    /// Validates, stamps and enqueues one event; delivery happens at the next
    /// flush. A disabled client succeeds without touching anything;
    /// properties that are not object-shaped are rejected with a validation
    /// error and nothing is enqueued.
    pub fn track_event(&mut self, name: &str, props: Option<serde_json::Value>) -> (r: Result<
        (),
        String,
    >)
        ensures
            r is Ok <==> (!old(self).is_enabled || props_acceptable(props)),
            r matches Err(m) ==> m@
                == "props must be `None` or the `Object` variation of `serde_json::Value`"@,
            !(old(self).is_enabled && props_acceptable(props)) ==> *final(self) == *old(self),
            old(self).is_enabled && props_acceptable(props) ==> ({
                let q0 = old(self).dispatcher@;
                let q1 = final(self).dispatcher@;
                &&& q1.len() == q0.len() + 1
                &&& q1 == q0.push(q1.last())
                &&& event_built_from(
                    q1.last(),
                    name@,
                    final(self).session.id@,
                    old(self).sys_info,
                    old(self).app_version@,
                    props,
                )
                &&& final(self).session.id@ == rotated_id(
                    old(self).session.id@,
                    old(self).session.date@,
                    old(self).machine_id@,
                    old(self).app_key@,
                    final(self).session.date@,
                )
            }),
            final(self).same_identity(old(self)),
            final(self).dispatcher.spec_url() == old(self).dispatcher.spec_url(),
    {
        if !self.is_enabled {
            return Ok(());
        }
        match &props {
            Some(p) => {
                if !p.is_object() {
                    return Err(
                        "props must be `None` or the `Object` variation of `serde_json::Value`".to_owned(),
                    );
                }
            },
            None => {},
        }
        let timestamp = now_rfc3339();
        let session_id = self.eval_session_id();
        let event = build_event(
            timestamp,
            session_id,
            name,
            &self.sys_info,
            &self.app_version,
            props,
        );
        self.dispatcher.enqueue(event);
        Ok(())
    }

    /// One whole flush pass over the queue, with the delivery outcome of each
    /// batch handed in; see [`EventDispatcher::flush_with`].
    pub fn flush_with(&mut self, results: &Vec<DeliveryResult>)
        requires
            crate::dispatcher::MAX_BATCH_SIZE * results@.len() >= old(self).dispatcher@.len(),
        ensures
            final(self).dispatcher@ == spec_flush_failed(old(self).dispatcher@, results@),
            final(self).session == old(self).session,
            final(self).same_identity(old(self)),
            final(self).dispatcher.spec_url() == old(self).dispatcher.spec_url(),
    {
        self.dispatcher.flush_with(results);
    }
}

} // verus!
