//! A publish/subscribe notification hub with bounded per-subscriber backlogs,
//! lag accounting, and a streaming-session state machine with idle keep-alive.

mod entry;
mod hub;
mod notification;
mod session;

pub use entry::MalformedIdentifier;
pub use entry::created_notification;
pub use entry::deleted_notification;
pub use entry::fresh_entry_id;
pub use entry::handle_create;
pub use entry::handle_delete;
pub use hub::Hub;
pub use hub::NoSubscribers;
pub use hub::RecvOutcome;
pub use hub::Subscription;
pub use notification::NotificationTemplate;
pub use notification::Severity;
pub use session::RenderFailure;
pub use session::Session;
pub use session::SessionEvent;
pub use session::SessionPhase;
pub use session::SessionStep;
pub use session::data_frame;
pub use session::fallback_frame;
pub use session::heartbeat_frame;
