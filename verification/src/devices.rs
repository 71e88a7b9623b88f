//! Device-reply decisions: what the router's and pump's reply lines mean,
//! and when a serial read buffer holds a complete line. The unverified
//! executor reads the bytes; these functions decide what they say.

use vstd::prelude::*;
use vstd::string::*;

use crate::text::str_eq;

verus! {

/// The router's acknowledgement line.
pub open spec fn router_ok_reply() -> Seq<char> {
    "G1:OK"@
}

/// The batch-aborting description of a rejected router command.
pub open spec fn router_error_message(command: Seq<char>) -> Seq<char> {
    "Router - error executing command: ["@ + command + "]"@
}

/// Decides one router exchange: the single reply line to a command must be
/// the acknowledgement `G1:OK`; any other reply aborts the batch with a
/// message naming the command.
pub fn interpret_router_reply(command: &str, reply: &str) -> (r: Result<(), String>)
    ensures
        r is Ok <==> reply@ == router_ok_reply(),
        r is Err ==> r->Err_0@ == router_error_message(command@),
{
    if str_eq(reply, "G1:OK") {
        Ok(())
    } else {
        let mut m = String::from_str("Router - error executing command: [");
        m.append(command);
        m.append("]");
        proof {
            assert(m@ =~= router_error_message(command@));
        }
        Err(m)
    }
}

/// The pump status body that reports the pump idle.
pub open spec fn pump_idle_body() -> Seq<char> {
    "/0c"@
}

/// Whether a pump status reply, stripped of its first and last characters,
/// reports the pump idle.
pub open spec fn spec_pump_status_idle(status: Seq<char>) -> bool {
    status.len() >= 2 && status.subrange(1, status.len() - 1) == pump_idle_body()
}

/// Decides one availability poll: the pump is idle exactly when the status
/// reply, stripped of its framing first and last characters, is `/0c`.
pub fn pump_status_idle(status: &str) -> (r: bool)
    ensures
        r == spec_pump_status_idle(status@),
{
    let n = status.unicode_len();
    if n < 2 {
        return false;
    }
    let body = status.substring_char(1, n - 1);
    str_eq(body, "/0c")
}

/// A received line is complete when the delimiter has just appeared as the
/// buffer's suffix; the completed line is the buffer with the delimiter
/// stripped.
pub fn split_completed_line(buffer: &str, delimiter: &str) -> (r: Option<String>)
    ensures
        match r {
            Some(line) => buffer@.len() >= delimiter@.len() && buffer@ == line@ + delimiter@
                && line@ == buffer@.subrange(0, buffer@.len() - delimiter@.len()),
            None => !(buffer@.len() >= delimiter@.len() && buffer@.subrange(
                buffer@.len() - delimiter@.len(),
                buffer@.len() as int,
            ) == delimiter@),
        },
{
    let nb = buffer.unicode_len();
    let nd = delimiter.unicode_len();
    if nb < nd {
        return None;
    }
    let suffix = buffer.substring_char(nb - nd, nb);
    if str_eq(suffix, delimiter) {
        let line = buffer.substring_char(0, nb - nd);
        proof {
            assert(buffer@ =~= line@ + delimiter@);
        }
        Some(String::from_str(line))
    } else {
        None
    }
}

} // verus!
