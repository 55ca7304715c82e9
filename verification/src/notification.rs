//! The notification value: an immutable description of one lifecycle event.

use vstd::prelude::*;
use vstd::string::StringExecFns;

verus! {

/// Outcome class of the operation that triggered a notification.
///
/// A closed enumeration: every consumer matches it exhaustively, so adding a
/// variant is a compile-time-checked update.
#[derive(Clone, Copy, PartialEq, Eq, Structural, Debug)]
pub enum Severity {
    Success,
    Error,
}

impl Severity {
    /// The serialized label of this severity, one per variant.
    pub fn label(&self) -> (r: String)
        ensures
            *self is Success ==> r@ == "success"@,
            *self is Error ==> r@ == "error"@,
    {
        match self {
            Severity::Success => String::from_str("success"),
            Severity::Error => String::from_str("error"),
        }
    }
}

/// One notification: an opaque unique id, an outcome class, and a
/// human-readable message. Immutable once constructed; it carries no
/// connection-specific or delivery-state information.
pub struct NotificationTemplate {
    pub id: String,
    pub severity: Severity,
    pub message: String,
}

/// The mathematical value of a notification: both strings as character
/// sequences, beside the severity.
pub struct NotificationView {
    pub id: Seq<char>,
    pub severity: Severity,
    pub message: Seq<char>,
}

impl View for NotificationTemplate {
    type V = NotificationView;

    open spec fn view(&self) -> NotificationView {
        NotificationView { id: self.id@, severity: self.severity, message: self.message@ }
    }
}

impl Clone for NotificationTemplate {
    /// A clone is equal, as a value, to the notification it copies.
    fn clone(&self) -> (r: Self)
        ensures
            r == *self,
    {
        NotificationTemplate {
            id: self.id.clone(),
            severity: self.severity,
            message: self.message.clone(),
        }
    }
}

} // verus!
