//! The streaming session: the decision core of the loop that drives one
//! long-lived outbound connection for one subscription.
//!
//! The loop itself merges two event sources — the subscription's recv and a
//! periodic idle timer — and performs the waiting and the writes. Every
//! decision it takes is here: which frame, if any, each event produces, and
//! when the session terminates.

use vstd::prelude::*;
use vstd::string::StringExecFns;

verus! {

/// The fragment renderer failed for one notification. The session
/// substitutes a fixed fallback frame and continues; it never terminates
/// for this.
#[derive(Clone, Copy, PartialEq, Eq, Structural, Debug)]
pub struct RenderFailure;

/// The text of a data frame: the payload between a `data: ` prefix and a
/// blank line, which delimits discrete messages unambiguously.
pub open spec fn spec_data_frame(payload: Seq<char>) -> Seq<char> {
    "data: "@ + payload + "\n\n"@
}

/// The fixed keep-alive frame: a comment line, so that clients and proxies
/// can tell it from every data frame.
pub open spec fn spec_heartbeat_frame() -> Seq<char> {
    ":keep-alive-message\n\n"@
}

/// The payload substituted when rendering a notification fails.
pub open spec fn spec_fallback_payload() -> Seq<char> {
    "<div>error handling notification</div>"@
}

/// Encode one payload as a discrete data frame.
pub fn data_frame(payload: &str) -> (r: String)
    ensures
        r@ == spec_data_frame(payload@),
{
    String::from_str("data: ").concat(payload).concat("\n\n")
}

/// The fixed keep-alive frame sent on an idle interval.
pub fn heartbeat_frame() -> (r: String)
    ensures
        r@ == spec_heartbeat_frame(),
{
    String::from_str(":keep-alive-message\n\n")
}

/// The fallback frame emitted in place of a notification that failed to
/// render.
pub fn fallback_frame() -> (r: String)
    ensures
        r@ == spec_data_frame(spec_fallback_payload()),
{
    data_frame("<div>error handling notification</div>")
}

/// A keep-alive frame is distinguishable from every data frame: a data
/// frame starts with 'd', the keep-alive frame with ':'.
pub proof fn lemma_heartbeat_distinct(payload: Seq<char>)
    ensures
        spec_heartbeat_frame() != spec_data_frame(payload),
{
    reveal_strlit("data: ");
    reveal_strlit(":keep-alive-message\n\n");
    assert(spec_data_frame(payload)[0] == 'd');
    assert(spec_heartbeat_frame()[0] == ':');
}

/// Where a session stands: streaming until its subscription closes or its
/// connection goes away, closed afterwards.
#[derive(Clone, Copy, PartialEq, Eq, Structural, Debug)]
pub enum SessionPhase {
    Streaming,
    Closed,
}

/// One event the streaming loop hands to the session.
pub enum SessionEvent {
    /// A notification arrived and was handed to the fragment renderer; this
    /// carries the renderer's outcome.
    Delivered(Result<String, RenderFailure>),
    /// The subscription reported this many dropped entries; transparent to
    /// the connection.
    Lagged(u64),
    /// One heartbeat interval elapsed.
    Tick,
    /// The hub is shutting down; terminal.
    HubClosed,
    /// The outbound connection is gone; terminal.
    Disconnected,
}

/// What one step decides: at most one frame to write, and whether the
/// session is over.
pub struct SessionStep {
    pub frame: Option<String>,
    pub done: bool,
}

/// The per-session state the decisions depend on.
pub struct Session {
    phase: SessionPhase,
    wrote_since_tick: bool,
}

impl Session {
    /// Whether the session is still streaming.
    pub closed spec fn streaming(&self) -> bool {
        self.phase is Streaming
    }

    /// Whether a real frame went out since the last heartbeat interval
    /// began; such an interval needs no keep-alive.
    pub closed spec fn active(&self) -> bool {
        self.wrote_since_tick
    }

    /// Whether the session is still streaming.
    pub fn is_streaming(&self) -> (r: bool)
        ensures
            r == self.streaming(),
    {
        match self.phase {
            SessionPhase::Streaming => true,
            SessionPhase::Closed => false,
        }
    }

    /// A fresh session for a new connection: streaming, nothing written yet.
    pub fn new() -> (s: Session)
        ensures
            s.streaming(),
            !s.active(),
    {
        Session { phase: SessionPhase::Streaming, wrote_since_tick: false }
    }

    /// Decide what one event produces.
    ///
    /// A delivered notification always yields exactly one data frame — the
    /// rendered fragment, or the fixed fallback when rendering failed — and
    /// marks the interval active. A lag report yields nothing and changes
    /// nothing. A tick yields exactly one keep-alive frame if the whole
    /// interval passed without a data frame, and nothing otherwise. Closure
    /// of the hub or of the connection ends the session without a frame.
    pub fn step(&mut self, event: SessionEvent) -> (r: SessionStep)
        requires
            old(self).streaming(),
        ensures
            event matches SessionEvent::Delivered(Ok(p)) ==> (r.frame matches Some(f)
                && f@ == spec_data_frame(p@)
                && !r.done && final(self).streaming() && final(self).active()),
            event matches SessionEvent::Delivered(Err(_)) ==> (r.frame matches Some(f)
                && f@ == spec_data_frame(spec_fallback_payload())
                && !r.done && final(self).streaming() && final(self).active()),
            event matches SessionEvent::Lagged(_) ==> (r.frame is None && !r.done
                && *final(self) == *old(self)),
            event is Tick ==> (!r.done && final(self).streaming() && !final(self).active()
                && (if old(self).active() {
                r.frame is None
            } else {
                r.frame matches Some(f) && f@ == spec_heartbeat_frame()
            })),
            event is HubClosed ==> (r.frame is None && r.done && !final(self).streaming()),
            event is Disconnected ==> (r.frame is None && r.done && !final(self).streaming()),
    {
        match event {
            SessionEvent::Delivered(rendered) => {
                let f = match rendered {
                    Ok(payload) => data_frame(payload.as_str()),
                    Err(_) => fallback_frame(),
                };
                self.wrote_since_tick = true;
                SessionStep { frame: Some(f), done: false }
            },
            SessionEvent::Lagged(_) => SessionStep { frame: None, done: false },
            SessionEvent::Tick => {
                let was_active = self.wrote_since_tick;
                self.wrote_since_tick = false;
                if was_active {
                    SessionStep { frame: None, done: false }
                } else {
                    SessionStep { frame: Some(heartbeat_frame()), done: false }
                }
            },
            SessionEvent::HubClosed => {
                self.phase = SessionPhase::Closed;
                SessionStep { frame: None, done: true }
            },
            SessionEvent::Disconnected => {
                self.phase = SessionPhase::Closed;
                SessionStep { frame: None, done: true }
            },
        }
    }
}

} // verus!
