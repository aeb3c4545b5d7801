//! The panic log: one entry per panic, appended to `data/panic.log` by the
//! panic hook the application installs. This module decides what an entry
//! says; reading the clock, the thread and the backtrace, and writing the
//! file, are the hook's.

use vstd::prelude::*;

use crate::decimal::{decimal, u64_to_decimal};
use crate::text::{push_char, push_str, to_owned_string};

verus! {

/// Where the entries are appended.
pub const PANIC_LOG_PATH: &'static str = "data/panic.log";

/// A panic payload as far as the log cares: a `&str`, a `String`, or
/// anything else.
#[derive(Debug, Clone)]
pub enum PanicPayload {
    Str(String),
    Owned(String),
    Other,
}

/// The payload text logged: the message itself for `&str`/`String`
/// payloads (every `unwrap`, `expect` and `panic!`), a placeholder otherwise.
pub fn panic_payload_string(payload: &PanicPayload) -> (r: String)
    ensures
        payload matches PanicPayload::Str(s) ==> r@ == s@,
        payload matches PanicPayload::Owned(s) ==> r@ == s@,
        payload is Other ==> r@ == "<non-string panic payload>"@,
{
    match payload {
        PanicPayload::Str(s) => s.clone(),
        PanicPayload::Owned(s) => s.clone(),
        PanicPayload::Other => to_owned_string("<non-string panic payload>"),
    }
}

/// One log entry: `[{secs}] thread '{thread}' panicked at {location}: {payload}`,
/// a newline, the backtrace, a newline.
pub open spec fn panic_entry(
    timestamp_secs: u64,
    thread_name: Seq<char>,
    location: Seq<char>,
    payload: Seq<char>,
    backtrace: Seq<char>,
) -> Seq<char> {
    "["@ + decimal(timestamp_secs as nat) + "] thread '"@ + thread_name + "' panicked at "@ + location
        + ": "@ + payload + "\n"@ + backtrace + "\n"@
}

/// Builds one log entry.
pub fn format_panic_entry(
    timestamp_secs: u64,
    thread_name: &str,
    location: &str,
    payload: &str,
    backtrace: &str,
) -> (r: String)
    ensures
        r@ == panic_entry(timestamp_secs, thread_name@, location@, payload@, backtrace@),
{
    let mut out = to_owned_string("[");
    let secs = u64_to_decimal(timestamp_secs);
    push_str(&mut out, secs.as_str());
    push_str(&mut out, "] thread '");
    push_str(&mut out, thread_name);
    push_str(&mut out, "' panicked at ");
    push_str(&mut out, location);
    push_str(&mut out, ": ");
    push_str(&mut out, payload);
    push_str(&mut out, "\n");
    push_str(&mut out, backtrace);
    push_str(&mut out, "\n");
    out
}

} // verus!
