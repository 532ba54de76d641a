//! Decisions of a broker-side session: what each frame from a registered
//! app asks the broker to do.

use vstd::prelude::*;

use crate::frame::{BusError, BusFrame, Event, Invoke, Response};

verus! {

/// What the broker does with one frame from a registered app.
pub enum SessionAction {
    /// Heartbeat reply: nothing to do.
    Nothing,
    /// Completes the broker's pending call with this request id.
    Complete(Response),
    /// Fans the event out to its subscribers.
    Publish(Event),
    /// Records a subscription of this app.
    Subscribe(String),
    /// Withdraws a subscription of this app.
    Unsubscribe(String),
    /// Routes an app-originated call and answers it with a `Response`.
    Route(Invoke),
    /// Not expected from an app: ignored.
    Ignore,
}

/// Classifies a frame read on an established session.
pub fn session_action(frame: BusFrame) -> (a: SessionAction)
    ensures
        frame is Pong ==> a is Nothing,
        frame matches BusFrame::Response(r) ==> a == SessionAction::Complete(r),
        frame matches BusFrame::Publish(e) ==> a == SessionAction::Publish(e),
        frame matches BusFrame::Subscribe { topic_prefix } ==> a == SessionAction::Subscribe(topic_prefix),
        frame matches BusFrame::Unsubscribe { topic_prefix } ==> a == SessionAction::Unsubscribe(
            topic_prefix,
        ),
        frame matches BusFrame::Invoke(i) ==> a == SessionAction::Route(i),
        !(frame is Pong || frame is Response || frame is Publish || frame is Subscribe
            || frame is Unsubscribe || frame is Invoke) ==> a is Ignore,
{
    match frame {
        BusFrame::Pong => SessionAction::Nothing,
        BusFrame::Response(r) => SessionAction::Complete(r),
        BusFrame::Publish(e) => SessionAction::Publish(e),
        BusFrame::Subscribe { topic_prefix } => SessionAction::Subscribe(topic_prefix),
        BusFrame::Unsubscribe { topic_prefix } => SessionAction::Unsubscribe(topic_prefix),
        BusFrame::Invoke(i) => SessionAction::Route(i),
        _ => SessionAction::Ignore,
    }
}

/// Whether `s` holds no `.`.
pub open spec fn dotless(s: Seq<char>) -> bool {
    forall|i: int| 0 <= i < s.len() ==> s[i] != '.'
}

/// The message of the refusal of a target without a `.`.
pub open spec fn bad_target_text(method: Seq<char>) -> Seq<char> {
    "invoke method must be `service.method`, got `"@ + method + "`"@
}

/// Splits an app-originated method name `service.method` at its first `.`.
/// A name without a `.` is refused with `BadRequest`.
pub fn split_target(method: &str) -> (r: Result<(String, String), BusError>)
    ensures
        dotless(method@) ==> (r matches Err(BusError::BadRequest(msg)) && msg@ == bad_target_text(method@)),
        !dotless(method@) ==> (r matches Ok((s, m)) && dotless(s@) && method@ == s@ + seq!['.'] + m@),
{
    let n = method.unicode_len();
    let mut i: usize = 0;
    while i < n
        invariant
            i <= n,
            n == method@.len(),
            forall|k: int| 0 <= k < i ==> method@[k] != '.',
        decreases n - i,
    {
        if method.get_char(i) == '.' {
            let s = method.substring_char(0, i);
            let m = method.substring_char(i + 1, n);
            let service = String::from_str(s);
            let name = String::from_str(m);
            assert(method@ =~= service@ + seq!['.'] + name@);
            return Ok((service, name));
        }
        i = i + 1;
    }
    let mut msg = String::from_str("invoke method must be `service.method`, got `");
    msg.append(method);
    msg.append("`");
    Err(BusError::BadRequest(msg))
}

} // verus!
