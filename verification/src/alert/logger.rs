//! Alert dispatch through structured logging: the text of each log record.

use vstd::prelude::*;

use crate::alert::{Alert, AlertType};
use crate::text::{chars_to_string, push_str, str_chars};

verus! {

/// Dispatches alerts as error-level log records.
pub struct LogAlertDispatcher;

pub open spec fn label_spec(t: AlertType) -> Seq<char> {
    match t {
        AlertType::Cpu => "CPU"@,
        AlertType::Ram => "RAM"@,
        AlertType::Collector => "COLLECTOR"@,
    }
}

pub open spec fn headline_spec(t: AlertType) -> Seq<char> {
    match t {
        AlertType::Collector => "ALERT: collector health degraded"@,
        _ => "ALERT: "@ + label_spec(t) + " usage exceeded threshold"@,
    }
}

impl LogAlertDispatcher {
    pub fn new() -> (d: Self)
        ensures
            d == LogAlertDispatcher,
    {
        LogAlertDispatcher
    }

    /// The `alert_type` field of the record.
    pub fn label(&self, t: AlertType) -> (s: String)
        ensures
            s@ == label_spec(t),
    {
        match t {
            AlertType::Cpu => chars_to_string(str_chars("CPU").as_slice()),
            AlertType::Ram => chars_to_string(str_chars("RAM").as_slice()),
            AlertType::Collector => chars_to_string(str_chars("COLLECTOR").as_slice()),
        }
    }

    /// The record's message.
    pub fn headline(&self, t: AlertType) -> (s: String)
        ensures
            s@ == headline_spec(t),
    {
        match t {
            AlertType::Collector => chars_to_string(str_chars("ALERT: collector health degraded").as_slice()),
            _ => {
                let mut s = String::new();
                push_str(&mut s, "ALERT: ");
                let l = self.label(t);
                push_str(&mut s, l.as_str());
                push_str(&mut s, " usage exceeded threshold");
                s
            },
        }
    }

    /// The `message` field of a collector-health record.
    pub fn failure_detail(&self, alert: &Alert) -> (s: String)
        ensures
            s@ == match alert@.message {
                Some(m) => m,
                None => "collector failure"@,
            },
    {
        match &alert.message {
            Some(m) => chars_to_string(str_chars(m.as_str()).as_slice()),
            None => chars_to_string(str_chars("collector failure").as_slice()),
        }
    }
}

impl Default for LogAlertDispatcher {
    fn default() -> (d: Self)
        ensures
            d == LogAlertDispatcher,
    {
        LogAlertDispatcher::new()
    }
}

} // verus!
