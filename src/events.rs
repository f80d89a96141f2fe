use vstd::prelude::*;
use vstd::string::*;

verus! {

/// The kinds of event that a run reports to its surroundings.
#[derive(Debug, Clone, Copy, PartialEq, Eq, Structural)]
pub enum Rs2JsMsgType {
    /// The number of messages sent so far.
    Counter,
    /// A status line.
    Terminal,
    Error,
    Success,
    /// A change of connection state.
    ConnectState,
}

/// One reported event: its kind, its text and the local time it was made.
#[derive(Debug, Clone)]
pub struct Rs2JsEntity {
    pub msg_type: Rs2JsMsgType,
    pub msg: String,
    pub time: String,
}

/// The two layouts in which local times are written: to the second, and to
/// the millisecond.
pub open spec fn is_time_layout(fmt: Seq<char>) -> bool {
    fmt == "%Y-%m-%d %H:%M:%S"@ || fmt == "%Y-%m-%d %H:%M:%S%.3f"@
}

/// Relies on chrono's `Local::now().format(fmt)`: the local time now,
/// written as the strftime-style layout says. Only the two layouts above
/// are passed, so that the formatting cannot fail.
#[verifier::external_body]
pub(crate) fn local_time_text(fmt: &str) -> (r: String)
    requires
        is_time_layout(fmt@),
{
    chrono::Local::now().format(fmt).to_string()
}

impl Rs2JsEntity {
    /// An event of this kind and text, stamped with the local time.
    pub fn new(msg_type: Rs2JsMsgType, msg: String) -> (r: Self)
        ensures
            r.msg_type == msg_type,
            r.msg == msg,
    {
        proof {
            reveal_strlit("%Y-%m-%d %H:%M:%S");
        }
        Rs2JsEntity { msg_type, msg, time: local_time_text("%Y-%m-%d %H:%M:%S") }
    }
}

/// A failure report: the context, a colon and a space, then the error.
pub open spec fn error_text(context: Seq<char>, error: Seq<char>) -> Seq<char> {
    context + ": "@ + error
}

/// The text of a failure in its context.
pub fn format_error(context: &str, error: &str) -> (r: String)
    ensures
        r@ == error_text(context@, error@),
{
    let mut r = context.to_owned();
    r.append(": ");
    r.append(error);
    r
}

/// The text with which a failure is logged and reported.
pub fn log_error(context: &str, error: &str) -> (r: String)
    ensures
        r@ == error_text(context@, error@),
{
    format_error(context, error)
}

} // verus!
