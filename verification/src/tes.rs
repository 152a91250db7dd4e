//! Task-execution-service client logic: the task model, the request
//! paths the client builds, URL encoding, and how the client reads
//! the server's replies.

use vstd::prelude::*;
use vstd::string::StringSliceAdditionalSpecFns;
use crate::strutil::chars_to_string;
use crate::strutil::hex_digit;
use crate::strutil::hex_digit_spec;
use crate::strutil::str_eq;
use crate::strutil::trim_char;
use crate::strutil::trim_matching_char;

verus! {

/// The lifecycle state of a task.
#[derive(Clone, Copy, PartialEq, Eq, Structural)]
pub enum TesState {
    /// The state is not reported.
    Unknown,
    /// Queued for execution.
    Queued,
    /// Being prepared to run.
    Initializing,
    /// Running.
    Running,
    /// Paused by the server.
    Paused,
    /// Finished successfully.
    Complete,
    /// An executor failed.
    ExecutorError,
    /// The system failed.
    SystemError,
    /// Cancelled on request.
    Canceled,
    /// Cancellation in progress.
    Canceling,
    /// Preempted by the server.
    Preempted,
}

/// A task as this client reads it: the fields the client logic
/// inspects out of the server's task document.
pub struct TesTask {
    /// The server-assigned task identifier.
    pub id: Option<String>,
    /// The task's current state.
    pub state: Option<TesState>,
}

/// Parameters of a task-creation request.
pub struct CreateTaskParams {
    /// The task document to submit.
    pub body: TesTask,
}

/// Filtering and pagination parameters for listing tasks.
pub struct ListTasksParams {
    /// Keep only tasks whose name starts with this prefix.
    pub name_prefix: Option<String>,
    /// Keep only tasks in this state.
    pub state: Option<TesState>,
    /// Tag keys to filter by, zipped with `tag_value`.
    pub tag_key: Option<Vec<String>>,
    /// Tag values to filter by, zipped with `tag_key`.
    pub tag_value: Option<Vec<String>>,
    /// How many tasks one page holds.
    pub page_size: Option<i32>,
    /// Where the next page starts.
    pub page_token: Option<String>,
    /// How much of each task document to return.
    pub view: Option<String>,
}

/// A display label for an optional task state.
pub fn tes_state_to_str(state: &Option<TesState>) -> (r: &str)
    ensures
        match state {
            Option::Some(s) => match s {
                TesState::Unknown => r@ == "Unknown"@,
                TesState::Queued => r@ == "Queued"@,
                TesState::Initializing => r@ == "Initializing"@,
                TesState::Running => r@ == "Running"@,
                TesState::Paused => r@ == "Paused"@,
                TesState::Complete => r@ == "Complete"@,
                TesState::ExecutorError => r@ == "Executor Error"@,
                TesState::SystemError => r@ == "System Error"@,
                TesState::Canceled => r@ == "Canceled"@,
                TesState::Canceling => r@ == "Canceling"@,
                TesState::Preempted => r@ == "Preempted"@,
            },
            Option::None => r@ == "None"@,
        },
{
    match state {
        Option::Some(TesState::Unknown) => "Unknown",
        Option::Some(TesState::Queued) => "Queued",
        Option::Some(TesState::Initializing) => "Initializing",
        Option::Some(TesState::Running) => "Running",
        Option::Some(TesState::Paused) => "Paused",
        Option::Some(TesState::Complete) => "Complete",
        Option::Some(TesState::ExecutorError) => "Executor Error",
        Option::Some(TesState::SystemError) => "System Error",
        Option::Some(TesState::Canceled) => "Canceled",
        Option::Some(TesState::Canceling) => "Canceling",
        Option::Some(TesState::Preempted) => "Preempted",
        Option::None => "None",
    }
}

/// The task state a wire value denotes: the screaming-case names of
/// the protocol, with anything unrecognized read as unknown.
pub open spec fn state_from_wire_spec(s: Seq<char>) -> TesState {
    if s == "QUEUED"@ {
        TesState::Queued
    } else if s == "INITIALIZING"@ {
        TesState::Initializing
    } else if s == "RUNNING"@ {
        TesState::Running
    } else if s == "PAUSED"@ {
        TesState::Paused
    } else if s == "COMPLETE"@ {
        TesState::Complete
    } else if s == "EXECUTOR_ERROR"@ {
        TesState::ExecutorError
    } else if s == "SYSTEM_ERROR"@ {
        TesState::SystemError
    } else if s == "CANCELED"@ {
        TesState::Canceled
    } else if s == "CANCELING"@ {
        TesState::Canceling
    } else if s == "PREEMPTED"@ {
        TesState::Preempted
    } else {
        TesState::Unknown
    }
}

/// Reads a task state off the wire.
pub fn tes_state_from_wire(s: &str) -> (r: TesState)
    ensures
        r == state_from_wire_spec(s@),
{
    if str_eq(s, "QUEUED") {
        TesState::Queued
    } else if str_eq(s, "INITIALIZING") {
        TesState::Initializing
    } else if str_eq(s, "RUNNING") {
        TesState::Running
    } else if str_eq(s, "PAUSED") {
        TesState::Paused
    } else if str_eq(s, "COMPLETE") {
        TesState::Complete
    } else if str_eq(s, "EXECUTOR_ERROR") {
        TesState::ExecutorError
    } else if str_eq(s, "SYSTEM_ERROR") {
        TesState::SystemError
    } else if str_eq(s, "CANCELED") {
        TesState::Canceled
    } else if str_eq(s, "CANCELING") {
        TesState::Canceling
    } else if str_eq(s, "PREEMPTED") {
        TesState::Preempted
    } else {
        TesState::Unknown
    }
}

/// Whether a byte passes through URL form-encoding unchanged:
/// ASCII letters, digits, and `*`, `-`, `.`, `_`.
pub open spec fn url_byte_unchanged(b: u8) -> bool {
    b == 42 || b == 45 || b == 46 || b == 95
        || (48 <= b && b <= 57)
        || (65 <= b && b <= 90)
        || (97 <= b && b <= 122)
}

/// What URL form-encoding turns one byte into: itself if it passes
/// unchanged, `+` for a space, a percent escape otherwise.
pub open spec fn urlencode_byte(b: u8) -> Seq<char> {
    if url_byte_unchanged(b) {
        seq![b as char]
    } else if b == 32 {
        seq!['+']
    } else {
        seq!['%', hex_digit_spec(b / 16), hex_digit_spec(b % 16)]
    }
}

/// URL form-encoding of a byte sequence.
pub open spec fn urlencode_spec(bytes: Seq<u8>) -> Seq<char>
    decreases bytes.len(),
{
    if bytes.len() == 0 {
        Seq::empty()
    } else {
        urlencode_spec(bytes.drop_last()) + urlencode_byte(bytes.last())
    }
}

/// URL form-encodes a string, byte by byte of its UTF-8 form: ASCII
/// letters, digits and `*-._` stay, a space becomes `+`, every other
/// byte becomes an uppercase percent escape.
pub fn urlencode(s: &str) -> (r: String)
    ensures
        r@ == urlencode_spec(s.spec_bytes()),
{
    let bytes = s.as_bytes_vec();
    let mut out: Vec<char> = Vec::new();
    let mut i: usize = 0;
    while i < bytes.len()
        invariant
            bytes@ == s.spec_bytes(),
            i <= bytes@.len(),
            out@ =~= urlencode_spec(bytes@.subrange(0, i as int)),
        decreases bytes@.len() - i,
    {
        let b = bytes[i];
        if b == 42 || b == 45 || b == 46 || b == 95
            || (48 <= b && b <= 57)
            || (65 <= b && b <= 90)
            || (97 <= b && b <= 122) {
            out.push(b as char);
        } else if b == 32 {
            out.push('+');
        } else {
            out.push('%');
            out.push(hex_digit(b / 16));
            out.push(hex_digit(b % 16));
        }
        i = i + 1;
        proof {
            assert(bytes@.subrange(0, i as int).drop_last() =~= bytes@.subrange(0, i - 1));
            assert(bytes@.subrange(0, i as int).last() == bytes@[i - 1]);
            assert(out@ =~= urlencode_spec(bytes@.subrange(0, i as int)));
        }
    }
    proof {
        assert(bytes@.subrange(0, bytes@.len() as int) =~= bytes@);
    }
    chars_to_string(&out)
}

/// The path that fetches a task's current status: the full task view.
pub fn task_status_path(task_id: &str) -> (r: String)
    ensures
        r@ == "/tasks/"@ + task_id@ + "?view=FULL"@,
{
    let mut out = "/tasks/".to_owned();
    out.append(task_id);
    out.append("?view=FULL");
    out
}

/// The path that fetches one task under the given view.
pub fn task_get_path(id: &str, view: &str) -> (r: String)
    ensures
        r@ == "/tasks/"@ + id@ + "?view="@ + view@,
{
    let mut out = "/tasks/".to_owned();
    out.append(id);
    out.append("?view=");
    out.append(view);
    out
}

/// The path that cancels a task; the identifier is URL form-encoded.
pub fn task_cancel_path(id: &str) -> (r: String)
    ensures
        r@ == "/tasks/"@ + urlencode_spec(id.spec_bytes()) + ":cancel"@,
{
    let encoded = urlencode(id);
    let mut out = "/tasks/".to_owned();
    out.append(encoded.as_str());
    out.append(":cancel");
    out
}

/// Whether a service-info reply identifies a task execution service.
pub fn service_is_tes(artifact: &str) -> (r: bool)
    ensures
        r == (artifact@ == "tes"@),
{
    str_eq(artifact, "tes")
}

/// The task identifier a creation reply carries: the reply's `id`
/// field stripped of any stray surrounding quotes, or empty when the
/// field is missing.
pub fn task_id_from_response(raw: Option<&str>) -> (r: String)
    ensures
        match raw {
            Option::Some(s) => r@ == trim_char(s@, '"'),
            Option::None => r@ == Seq::<char>::empty(),
        },
{
    match raw {
        Option::Some(s) => trim_matching_char(s, '"'),
        Option::None => String::new(),
    }
}

} // verus!
