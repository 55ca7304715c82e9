//! The entry-service boundary: building the notification that a completed
//! create or delete operation publishes, and validating the identifier a
//! delete request names.
//!
//! Identifiers are uuids; parsing, formatting and drawing them is the uuid
//! crate's work, relied upon through the trusted declarations below.

use vstd::prelude::*;
use vstd::string::StringExecFns;
use crate::notification::NotificationTemplate;
use crate::notification::Severity;

verus! {

/// A delete request named an identifier that does not parse; reported to
/// the caller as a client error, never as a crash.
#[derive(Clone, Copy, PartialEq, Eq, Structural, Debug)]
pub struct MalformedIdentifier;

#[verifier::external_type_specification]
#[verifier::external_body]
pub struct ExUuid(uuid::Uuid);

#[verifier::external_type_specification]
#[verifier::external_body]
pub struct ExUuidError(uuid::Error);

/// Whether the uuid parser accepts this text: a function of the characters
/// alone (the simple, hyphenated, braced and urn formats).
pub uninterp spec fn uuid_wellformed(s: Seq<char>) -> bool;

/// Relies on uuid::Uuid::parse_str: deterministic in its input, it accepts
/// exactly the well-formed identifier texts.
#[verifier::external_body]
fn parse_uuid(s: &str) -> (r: Result<uuid::Uuid, uuid::Error>)
    ensures
        r is Ok <==> uuid_wellformed(s@),
{
    uuid::Uuid::parse_str(s)
}

/// Whether `c` is a lowercase hexadecimal digit.
pub open spec fn is_lower_hex_digit(c: char) -> bool {
    ('0' <= c && c <= '9') || ('a' <= c && c <= 'f')
}

/// The canonical textual form of a uuid: 32 lowercase hexadecimal digits in
/// five hyphen-separated groups of 8, 4, 4, 4 and 12.
pub open spec fn is_canonical_uuid_text(s: Seq<char>) -> bool {
    s.len() == 36 && forall|i: int|
        0 <= i < 36 ==> (if i == 8 || i == 13 || i == 18 || i == 23 {
            s[i] == '-'
        } else {
            is_lower_hex_digit(#[trigger] s[i])
        })
}

/// Relies on uuid's Display impl: a uuid formats as its hyphenated
/// lowercase form.
#[verifier::external_body]
fn uuid_text(u: &uuid::Uuid) -> (r: String)
    ensures
        is_canonical_uuid_text(r@),
{
    u.to_string()
}

/// Relies on uuid::Uuid::new_v4: a randomly drawn identifier; nothing is
/// promised of its value.
#[verifier::external_body]
fn new_v4() -> (r: uuid::Uuid) {
    uuid::Uuid::new_v4()
}

/// A freshly generated identifier in canonical text form, for a new entry
/// or a new notification.
pub fn fresh_entry_id() -> (r: String)
    ensures
        is_canonical_uuid_text(r@),
{
    let u = new_v4();
    uuid_text(&u)
}

/// The notification a completed creation publishes: `Success`, under the
/// given fresh id, with the new entry's content named in the message.
pub fn created_notification(id: String, content: &str) -> (n: NotificationTemplate)
    ensures
        n@.id == id@,
        n@.severity == Severity::Success,
        n@.message == "created entry with content: "@ + content@,
{
    let message = String::from_str("created entry with content: ").concat(content);
    NotificationTemplate { id, severity: Severity::Success, message }
}

/// The notification a completed deletion publishes, naming the deleted
/// entry by its canonical identifier text. A completed deletion is a normal
/// outcome, so it is labelled `Success`; `Error` stays reserved for actual
/// failures.
pub fn deleted_notification(id: String, entry_id_text: &str) -> (n: NotificationTemplate)
    ensures
        n@.id == id@,
        n@.severity == Severity::Success,
        n@.message == "deleted entry with id: "@ + entry_id_text@,
{
    let message = String::from_str("deleted entry with id: ").concat(entry_id_text);
    NotificationTemplate { id, severity: Severity::Success, message }
}

/// Handle a create request that carries `content`: build the notification
/// to publish, under a fresh identifier.
pub fn handle_create(content: &str) -> (n: NotificationTemplate)
    ensures
        is_canonical_uuid_text(n@.id),
        n@.severity == Severity::Success,
        n@.message == "created entry with content: "@ + content@,
{
    let id = fresh_entry_id();
    created_notification(id, content)
}

/// Handle a delete request that names `raw_id`: reject a malformed
/// identifier — exactly then — and otherwise build the notification to
/// publish, which names the deleted entry in canonical form.
pub fn handle_delete(raw_id: &str) -> (r: Result<NotificationTemplate, MalformedIdentifier>)
    ensures
        r is Ok <==> uuid_wellformed(raw_id@),
        r matches Ok(n) ==> (is_canonical_uuid_text(n@.id) && n@.severity == Severity::Success
            && n@.message.len() == "deleted entry with id: "@.len() + 36
            && n@.message.subrange(0, "deleted entry with id: "@.len() as int)
                == "deleted entry with id: "@
            && is_canonical_uuid_text(n@.message.skip("deleted entry with id: "@.len() as int))),
{
    match parse_uuid(raw_id) {
        Err(_) => Err(MalformedIdentifier),
        Ok(u) => {
            let text = uuid_text(&u);
            let id = fresh_entry_id();
            let n = deleted_notification(id, text.as_str());
            proof {
                assert(n@.message.subrange(0, "deleted entry with id: "@.len() as int)
                    =~= "deleted entry with id: "@);
                assert(n@.message.skip("deleted entry with id: "@.len() as int) =~= text@);
            }
            Ok(n)
        },
    }
}

} // verus!
