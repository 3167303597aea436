//! Asking the running tray agent to shut down over its control pipe.
//!
//! Points in time are nanoseconds on one monotonic clock.

use serde_json::Value;
use vstd::prelude::*;

use crate::quote;
use crate::quote::quoted;
use crate::text;
use crate::text::{push_decimal, push_decimal_u128, same_text};

verus! {

broadcast use vstd::string::group_string_axioms;

/// Where the agent of the current user listens.
pub const CONTROL_PIPE_PATH: &'static str = "\\\\.\\pipe\\autopiercam-control-v1";

/// How long to wait before a busy pipe is tried again, in nanoseconds.
pub const CONNECT_RETRY_DELAY: u128 = 50_000_000;

/// Why the agent was not shut down.
#[derive(Debug, PartialEq, Eq)]
pub enum ShutdownError {
    ZeroTimeout,
    TimeoutTooLarge,
    TimedOut,
    ResponseTimedOut,
    NotRunning,
    Connect,
    RequestTooLong,
    ResponseLength(u32, u32),
    /// The agent answered a request with the first identifier in place of the second.
    ResponseId(String, String),
    Rejected(String, String),
    NotAccepted,
    ExitTimedOut,
    ExitWaitFailed,
}

impl ShutdownError {
    pub open spec fn text(self) -> Seq<char> {
        match self {
            ShutdownError::ZeroTimeout => "shutdown timeout must be greater than zero"@,
            ShutdownError::TimeoutTooLarge => "shutdown timeout is too large"@,
            ShutdownError::TimedOut => "timed out shutting down the AutoPierCam tray agent"@,
            ShutdownError::NotRunning =>
                "the current user's AutoPierCam tray agent is not running ("@ + CONTROL_PIPE_PATH@
                    + ")"@,
            ShutdownError::Connect => "connecting to the current user's control pipe "@
                + CONTROL_PIPE_PATH@,
            ShutdownError::ResponseTimedOut =>
                "timed out waiting for the tray agent's shutdown response"@,
            ShutdownError::RequestTooLong =>
                "shutdown request exceeds the control protocol limit"@,
            ShutdownError::ResponseLength(length, limit) => "control response length "@
                + text::decimal(length as nat) + " is outside 1..="@ + text::decimal(limit as nat),
            ShutdownError::ResponseId(response, request) => "tray agent returned response id "@
                + quote::quoted_text(response@) + "; expected "@ + quote::quoted_text(request@),
            ShutdownError::Rejected(code, message) => "tray agent rejected shutdown ("@ + code@
                + "): "@ + message@,
            ShutdownError::NotAccepted =>
                "tray agent returned a shutdown response without accepted=true"@,
            ShutdownError::ExitTimedOut =>
                "timed out waiting for the AutoPierCam tray process to exit"@,
            ShutdownError::ExitWaitFailed =>
                "waiting for the AutoPierCam tray process to exit"@,
        }
    }

    pub fn message(&self) -> (r: String)
        ensures
            r@ == self.text(),
    {
        match self {
            ShutdownError::ZeroTimeout => "shutdown timeout must be greater than zero".to_owned(),
            ShutdownError::TimeoutTooLarge => "shutdown timeout is too large".to_owned(),
            ShutdownError::TimedOut =>
                "timed out shutting down the AutoPierCam tray agent".to_owned(),
            ShutdownError::NotRunning => {
                let mut text =
                    "the current user's AutoPierCam tray agent is not running (".to_owned();
                text.append(CONTROL_PIPE_PATH);
                text.append(")");
                text
            },
            ShutdownError::Connect => {
                let mut text = "connecting to the current user's control pipe ".to_owned();
                text.append(CONTROL_PIPE_PATH);
                text
            },
            ShutdownError::ResponseTimedOut =>
                "timed out waiting for the tray agent's shutdown response".to_owned(),
            ShutdownError::RequestTooLong =>
                "shutdown request exceeds the control protocol limit".to_owned(),
            ShutdownError::ResponseLength(length, limit) => {
                let mut text = "control response length ".to_owned();
                push_decimal(&mut text, *length as u64);
                text.append(" is outside 1..=");
                push_decimal(&mut text, *limit as u64);
                text
            },
            ShutdownError::ResponseId(response, request) => {
                let mut text = "tray agent returned response id ".to_owned();
                text.append(quoted(response.as_str()).as_str());
                text.append("; expected ");
                text.append(quoted(request.as_str()).as_str());
                text
            },
            ShutdownError::Rejected(code, message) => {
                let mut text = "tray agent rejected shutdown (".to_owned();
                text.append(code.as_str());
                text.append("): ");
                text.append(message.as_str());
                text
            },
            ShutdownError::NotAccepted =>
                "tray agent returned a shutdown response without accepted=true".to_owned(),
            ShutdownError::ExitTimedOut =>
                "timed out waiting for the AutoPierCam tray process to exit".to_owned(),
            ShutdownError::ExitWaitFailed =>
                "waiting for the AutoPierCam tray process to exit".to_owned(),
        }
    }
}

/// When shutting down has to be done.
pub fn shutdown_deadline(now: u128, wait: u128) -> (r: Result<u128, ShutdownError>)
    ensures
        if wait == 0 {
            r == Err::<u128, ShutdownError>(ShutdownError::ZeroTimeout)
        } else if now + wait > u128::MAX {
            r == Err::<u128, ShutdownError>(ShutdownError::TimeoutTooLarge)
        } else {
            r == Ok::<u128, ShutdownError>((now + wait) as u128)
        },
{
    if wait == 0 {
        return Err(ShutdownError::ZeroTimeout);
    }
    if wait > u128::MAX - now {
        return Err(ShutdownError::TimeoutTooLarge);
    }
    Ok(now + wait)
}

/// The time that is left; at the deadline there is none.
pub fn remaining(deadline: u128, now: u128) -> (r: Result<u128, ShutdownError>)
    ensures
        if now < deadline {
            r == Ok::<u128, ShutdownError>((deadline - now) as u128)
        } else {
            r == Err::<u128, ShutdownError>(ShutdownError::TimedOut)
        },
{
    if now < deadline {
        Ok(deadline - now)
    } else {
        Err(ShutdownError::TimedOut)
    }
}

/// What an attempt to open the control pipe came to.
#[derive(Clone, Copy, Debug, PartialEq, Eq, Structural)]
pub enum PipeOutcome {
    Connected,
    NotFound,
    Busy,
    Failed,
}

/// What to do after an attempt to open the control pipe.
#[derive(Debug, PartialEq, Eq)]
pub enum ConnectStep {
    Use,
    /// No agent runs, which was allowed for.
    Absent,
    /// Try again after so many nanoseconds.
    Retry(u128),
    Fail(ShutdownError),
}

/// A missing pipe means that no agent runs; a busy one is tried again, soon but
/// not past the deadline.
pub fn connect_step(outcome: PipeOutcome, if_running: bool, deadline: u128, now: u128) -> (r:
    ConnectStep)
    ensures
        r == (match outcome {
            PipeOutcome::Connected => ConnectStep::Use,
            PipeOutcome::NotFound => if if_running {
                ConnectStep::Absent
            } else {
                ConnectStep::Fail(ShutdownError::NotRunning)
            },
            PipeOutcome::Busy => if now >= deadline {
                ConnectStep::Fail(ShutdownError::TimedOut)
            } else if deadline - now < CONNECT_RETRY_DELAY {
                ConnectStep::Retry((deadline - now) as u128)
            } else {
                ConnectStep::Retry(CONNECT_RETRY_DELAY)
            },
            PipeOutcome::Failed => ConnectStep::Fail(ShutdownError::Connect),
        }),
{
    match outcome {
        PipeOutcome::Connected => ConnectStep::Use,
        PipeOutcome::NotFound => {
            if if_running {
                ConnectStep::Absent
            } else {
                ConnectStep::Fail(ShutdownError::NotRunning)
            }
        },
        PipeOutcome::Busy => {
            match remaining(deadline, now) {
                Ok(left) => {
                    if left < CONNECT_RETRY_DELAY {
                        ConnectStep::Retry(left)
                    } else {
                        ConnectStep::Retry(CONNECT_RETRY_DELAY)
                    }
                },
                Err(error) => ConnectStep::Fail(error),
            }
        },
        PipeOutcome::Failed => ConnectStep::Fail(ShutdownError::Connect),
    }
}

/// The identifier of a request: told apart by process and by time.
pub open spec fn request_name(process_id: nat, timestamp: nat) -> Seq<char> {
    "shutdown-"@ + text::decimal(process_id) + seq!['-'] + text::decimal(timestamp)
}

pub fn request_id(process_id: u32, timestamp: u128) -> (r: String)
    ensures
        r@ == request_name(process_id as nat, timestamp as nat),
{
    let mut id = String::new();
    id.append("shutdown-");
    push_decimal(&mut id, process_id as u64);
    id.push('-');
    push_decimal_u128(&mut id, timestamp);
    assert(id@ =~= request_name(process_id as nat, timestamp as nat));
    id
}

/// A number in four bytes, the least significant first.
pub open spec fn length_prefix(length: int) -> Seq<u8> {
    seq![
        (length % 256) as u8,
        (length / 256 % 256) as u8,
        (length / 65_536 % 256) as u8,
        (length / 16_777_216 % 256) as u8,
    ]
}

/// The number that four bytes stand for.
pub open spec fn prefix_value(prefix: Seq<u8>) -> int {
    prefix[0] + prefix[1] * 256 + prefix[2] * 65_536 + prefix[3] * 16_777_216
}

/// A message as it goes over the pipe: its length, then its bytes.
pub fn frame_request(body: &Vec<u8>, max_frame_size: u32) -> (r: Result<Vec<u8>, ShutdownError>)
    ensures
        if body@.len() > max_frame_size {
            r == Err::<Vec<u8>, ShutdownError>(ShutdownError::RequestTooLong)
        } else {
            r matches Ok(bytes) && bytes@ == length_prefix(body@.len() as int) + body@
        },
{
    if body.len() as u64 > max_frame_size as u64 {
        return Err(ShutdownError::RequestTooLong);
    }
    let length: u32 = body.len() as u32;
    let mut bytes: Vec<u8> = Vec::new();
    bytes.push((length % 256) as u8);
    bytes.push((length / 256 % 256) as u8);
    bytes.push((length / 65_536 % 256) as u8);
    bytes.push((length / 16_777_216 % 256) as u8);
    bytes.extend_from_slice(body.as_slice());
    assert(bytes@ =~= length_prefix(body@.len() as int) + body@);
    Ok(bytes)
}

/// The length of the response that follows its prefix.
pub fn response_length(prefix: &[u8; 4], max_frame_size: u32) -> (r: Result<u32, ShutdownError>)
    ensures
        ({
            let length = prefix_value(prefix@);
            if 1 <= length <= max_frame_size {
                r == Ok::<u32, ShutdownError>(length as u32)
            } else {
                r == Err::<u32, ShutdownError>(ShutdownError::ResponseLength(length as u32, max_frame_size))
            }
        }),
{
    let length: u32 = prefix[0] as u32 + prefix[1] as u32 * 256 + prefix[2] as u32 * 65_536
        + prefix[3] as u32 * 16_777_216;
    if length == 0 || length > max_frame_size {
        return Err(ShutdownError::ResponseLength(length, max_frame_size));
    }
    Ok(length)
}

/// A length that was written reads back.
pub proof fn law_length_reads_back(length: int)
    requires
        0 <= length <= u32::MAX,
    ensures
        prefix_value(length_prefix(length)) == length,
{
}

/// A response belongs to the request whose identifier it carries.
pub fn check_response_id(response_id: &str, request_id: &str) -> (r: Result<(), ShutdownError>)
    ensures
        if response_id@ == request_id@ {
            r is Ok
        } else {
            r matches Err(ShutdownError::ResponseId(response, request)) && response@ == response_id@
                && request@ == request_id@
        },
{
    if same_text(response_id, request_id) {
        Ok(())
    } else {
        Err(ShutdownError::ResponseId(response_id.to_owned(), request_id.to_owned()))
    }
}

#[verifier::external_type_specification]
#[verifier::external_body]
pub struct ExJsonValue(Value);

/// The boolean members of a JSON object; a value of another kind has none.
pub uninterp spec fn json_flags(value: Value) -> Map<Seq<char>, bool>;

/// `Value::get` with a name, then `Value::as_bool`: the boolean that an object
/// holds under the name, if it holds one.
#[verifier::external_body]
fn json_flag(value: &Value, name: &str) -> (r: Option<bool>)
    ensures
        r == (if json_flags(*value).contains_key(name@) {
            Some(json_flags(*value)[name@])
        } else {
            None
        }),
{
    value.get(name).and_then(Value::as_bool)
}

/// An error that the agent reports.
#[derive(Debug, PartialEq, Eq)]
pub struct ErrorBody {
    pub code: String,
    pub message: String,
}

/// What the agent answered.
#[derive(Debug)]
pub struct ShutdownResponse {
    pub error: Option<ErrorBody>,
    pub result: Option<Value>,
}

/// Whether a result says that the shutdown was accepted.
pub open spec fn accepts(result: Option<Value>) -> bool {
    &&& result is Some
    &&& json_flags(result->0).contains_key("accepted"@)
    &&& json_flags(result->0)["accepted"@]
}

/// Only an answer without an error that says `accepted: true` counts as success.
pub fn validate_shutdown_response(response: ShutdownResponse) -> (r: Result<(), ShutdownError>)
    ensures
        match response.error {
            Some(error) => r == Err::<(), ShutdownError>(
                ShutdownError::Rejected(error.code, error.message),
            ),
            None => r == (if accepts(response.result) {
                Ok::<(), ShutdownError>(())
            } else {
                Err::<(), ShutdownError>(ShutdownError::NotAccepted)
            }),
        },
{
    let accepted = match &response.result {
        Some(result) => json_flag(result, "accepted"),
        None => None,
    };
    validate_shutdown_answer(response.error, accepted)
}

/// Decide on an answer whose acceptance flag was read.
pub fn validate_shutdown_answer(error: Option<ErrorBody>, accepted: Option<bool>) -> (r: Result<
    (),
    ShutdownError,
>)
    ensures
        match error {
            Some(error) => r == Err::<(), ShutdownError>(
                ShutdownError::Rejected(error.code, error.message),
            ),
            None => r == (if accepted == Some(true) {
                Ok::<(), ShutdownError>(())
            } else {
                Err::<(), ShutdownError>(ShutdownError::NotAccepted)
            }),
        },
{
    if let Some(error) = error {
        return Err(ShutdownError::Rejected(error.code, error.message));
    }
    match accepted {
        Some(true) => Ok(()),
        _ => Err(ShutdownError::NotAccepted),
    }
}

/// How long to wait for the agent's process, in milliseconds: at least one. A
/// time that does not fit is cut to one less than the largest number.
pub fn exit_wait_ms(left: u128) -> (r: u32)
    ensures
        r == (if left / 1_000_000 < 1 {
            1int
        } else if left / 1_000_000 > u32::MAX {
            u32::MAX - 1
        } else {
            left as int / 1_000_000
        }),
{
    let millis: u128 = left / 1_000_000;
    if millis < 1 {
        1
    } else if millis > u32::MAX as u128 {
        u32::MAX - 1
    } else {
        millis as u32
    }
}

/// What waiting for the agent's process came to.
#[derive(Clone, Copy, Debug, PartialEq, Eq, Structural)]
pub enum ExitWait {
    Exited,
    TimedOut,
    Failed,
}

pub fn check_exit(wait: ExitWait) -> (r: Result<(), ShutdownError>)
    ensures
        r == (match wait {
            ExitWait::Exited => Ok::<(), ShutdownError>(()),
            ExitWait::TimedOut => Err::<(), ShutdownError>(ShutdownError::ExitTimedOut),
            ExitWait::Failed => Err::<(), ShutdownError>(ShutdownError::ExitWaitFailed),
        }),
{
    match wait {
        ExitWait::Exited => Ok(()),
        ExitWait::TimedOut => Err(ShutdownError::ExitTimedOut),
        ExitWait::Failed => Err(ShutdownError::ExitWaitFailed),
    }
}

/// A deadline lies as far ahead as was asked, which is some time and can be told.
pub proof fn law_deadline_lies_ahead(now: u128, wait: u128, r: Result<u128, ShutdownError>)
    requires
        call_ensures(shutdown_deadline, (now, wait), r),
    ensures
        r matches Ok(deadline) ==> deadline == now + wait && wait > 0,
        r matches Err(ShutdownError::ZeroTimeout) <==> wait == 0,
        r matches Err(ShutdownError::TimeoutTooLarge) <==> wait > 0 && now + wait > u128::MAX,
        r is Ok <==> wait > 0 && now + wait <= u128::MAX,
{
}

/// What is left of the time and what has gone make up the whole; at the deadline nothing
/// is left.
pub proof fn law_time_runs_out_at_the_deadline(
    deadline: u128,
    now: u128,
    r: Result<u128, ShutdownError>,
)
    requires
        call_ensures(remaining, (deadline, now), r),
    ensures
        r matches Ok(left) ==> now + left == deadline && left > 0,
        r is Err <==> now >= deadline,
        r matches Err(error) ==> error is TimedOut,
{
}

/// A pipe that is there is used; a missing one means that no agent runs, which may be
/// allowed for; a busy one is tried again before the deadline, within a twentieth of a
/// second; everything else fails.
pub proof fn law_busy_pipe_is_tried_again(
    outcome: PipeOutcome,
    if_running: bool,
    deadline: u128,
    now: u128,
    r: ConnectStep,
)
    requires
        call_ensures(connect_step, (outcome, if_running, deadline, now), r),
    ensures
        r is Use <==> outcome is Connected,
        r is Absent <==> outcome is NotFound && if_running,
        r == ConnectStep::Fail(ShutdownError::NotRunning) <==> outcome is NotFound && !if_running,
        r == ConnectStep::Fail(ShutdownError::Connect) <==> outcome is Failed,
        r == ConnectStep::Fail(ShutdownError::TimedOut) <==> outcome is Busy && now >= deadline,
        r is Retry <==> outcome is Busy && now < deadline,
        r matches ConnectStep::Retry(delay) ==> 0 < delay <= 50_000_000 && now + delay <= deadline
            && (delay == 50_000_000 || now + delay == deadline),
{
}

#[verifier::spinoff_prover]
proof fn lemma_four_bytes(n: int)
    requires
        0 <= n <= u32::MAX,
    ensures
        0 <= n % 256 < 256,
        0 <= n / 256 % 256 < 256,
        0 <= n / 65_536 % 256 < 256,
        0 <= n / 16_777_216 % 256 < 256,
        n % 256 + 256 * (n / 256 % 256) + 65_536 * (n / 65_536 % 256) + 16_777_216 * (n / 16_777_216
            % 256) == n,
{
    let a = n / 256;
    let b = a / 256;
    let c = b / 256;
    assert(b == n / 65_536);
    assert(c == n / 16_777_216);
    assert(c < 256);
    assert(n == 256 * a + n % 256);
    assert(a == 256 * b + a % 256);
    assert(b == 256 * c + b % 256);
}

/// A framed request is its length in four bytes, the least first, and its bytes; and the
/// length is read back from those bytes.
#[verifier::spinoff_prover]
#[verifier::rlimit(40)]
pub proof fn law_frame_begins_with_its_length(
    body: &Vec<u8>,
    max_frame_size: u32,
    r: Result<Vec<u8>, ShutdownError>,
    prefix: &[u8; 4],
    length: Result<u32, ShutdownError>,
)
    requires
        call_ensures(frame_request, (body, max_frame_size), r),
        call_ensures(response_length, (prefix, max_frame_size), length),
    ensures
        r is Ok <==> body@.len() <= max_frame_size,
        r matches Ok(bytes) ==> bytes@.len() == body@.len() + 4 && bytes@.skip(4) == body@,
        r matches Ok(bytes) ==> bytes@[0] + 256 * bytes@[1] + 65_536 * bytes@[2] + 16_777_216
            * bytes@[3] == body@.len(),
        r matches Ok(bytes) ==> (bytes@.take(4) == prefix@ && body@.len() > 0 ==> length == Ok::<
            u32,
            ShutdownError,
        >(body@.len() as u32)),
        length matches Ok(n) ==> 1 <= n <= max_frame_size && n == prefix@[0] + 256 * prefix@[1]
            + 65_536 * prefix@[2] + 16_777_216 * prefix@[3],
        prefix@[0] == 0 && prefix@[1] == 0 && prefix@[2] == 0 && prefix@[3] == 0 ==> length is Err,
        length is Err <==> prefix@[0] + 256 * prefix@[1] + 65_536 * prefix@[2] + 16_777_216
            * prefix@[3] > max_frame_size || prefix@[0] + 256 * prefix@[1] + 65_536 * prefix@[2]
            + 16_777_216 * prefix@[3] == 0,
{
    if let Ok(bytes) = r {
        let n = body@.len() as int;
        lemma_four_bytes(n);
        assert(bytes@.skip(4) =~= body@);
        assert(bytes@[0] as int == n % 256);
        assert(bytes@[1] as int == n / 256 % 256);
        assert(bytes@[2] as int == n / 65_536 % 256);
        assert(bytes@[3] as int == n / 16_777_216 % 256);
        assert(bytes@[0] + 256 * bytes@[1] + 65_536 * bytes@[2] + 16_777_216 * bytes@[3] == n);
        if bytes@.take(4) == prefix@ {
            assert(prefix@[0] == bytes@[0]);
            assert(prefix@[1] == bytes@[1]);
            assert(prefix@[2] == bytes@[2]);
            assert(prefix@[3] == bytes@[3]);
            assert(prefix_value(prefix@) == n);
        }
    }
}

/// A response to another request is refused by both identifiers.
pub proof fn law_response_answers_its_request(
    response_id: &str,
    request_id: &str,
    r: Result<(), ShutdownError>,
)
    requires
        call_ensures(check_response_id, (response_id, request_id), r),
    ensures
        r is Ok <==> response_id@ == request_id@,
        r matches Err(error) ==> (error matches ShutdownError::ResponseId(response, request)
            && response@ == response_id@ && request@ == request_id@),
{
}

/// A shutdown is accepted only by an answer without an error that says so.
pub proof fn law_shutdown_is_accepted_in_so_many_words(
    error: Option<ErrorBody>,
    accepted: Option<bool>,
    r: Result<(), ShutdownError>,
    response: ShutdownResponse,
    s: Result<(), ShutdownError>,
)
    requires
        call_ensures(validate_shutdown_answer, (error, accepted), r),
        call_ensures(validate_shutdown_response, (response,), s),
    ensures
        r is Ok <==> error is None && accepted == Some(true),
        r matches Err(ShutdownError::NotAccepted) <==> error is None && accepted != Some(true),
        error matches Some(body) ==> r == Err::<(), ShutdownError>(
            ShutdownError::Rejected(body.code, body.message),
        ),
        s is Ok <==> response.error is None && response.result is Some && json_flags(
            response.result->0,
        ).contains_key("accepted"@) && json_flags(response.result->0)["accepted"@],
        response.error matches Some(body) ==> s == Err::<(), ShutdownError>(
            ShutdownError::Rejected(body.code, body.message),
        ),
        s is Err && response.error is None ==> s->Err_0 is NotAccepted,
{
}

/// The process is waited for in whole milliseconds, at least one, and never without end.
pub proof fn law_exit_is_waited_for_in_milliseconds(left: u128, r: u32)
    requires
        call_ensures(exit_wait_ms, (left,), r),
    ensures
        r >= 1,
        r < u32::MAX || left / 1_000_000 == u32::MAX,
        left < 1_000_000 ==> r == 1,
        1_000_000 <= left <= 4_294_967_295_999_999 ==> r * 1_000_000 <= left < (r + 1) * 1_000_000,
        left > 4_294_967_295_999_999 ==> r == u32::MAX - 1,
{
}

/// A process that exited ends the shutdown; one that did not, or cannot be told, fails it.
pub proof fn law_exit_is_checked(wait: ExitWait, r: Result<(), ShutdownError>)
    requires
        call_ensures(check_exit, (wait,), r),
    ensures
        r is Ok <==> wait is Exited,
        r matches Err(ShutdownError::ExitTimedOut) <==> wait is TimedOut,
        r matches Err(ShutdownError::ExitWaitFailed) <==> wait is Failed,
{
}

/// A request is named by its process and its time.
pub proof fn law_request_is_named_by_process_and_time(process_id: u32, timestamp: u128, r: String)
    requires
        call_ensures(request_id, (process_id, timestamp), r),
    ensures
        r@ == "shutdown-"@ + text::decimal(process_id as nat).push('-') + text::decimal(
            timestamp as nat,
        ),
{
    assert(r@ =~= "shutdown-"@ + text::decimal(process_id as nat).push('-') + text::decimal(
        timestamp as nat,
    ));
}

/// A shutdown that failed says why.
pub proof fn law_failed_shutdown_says_why(error: &ShutdownError, r: String)
    requires
        call_ensures(ShutdownError::message, (error,), r),
    ensures
        *error matches ShutdownError::ZeroTimeout ==> r@ == "shutdown timeout must be greater than zero"@,
        *error matches ShutdownError::TimeoutTooLarge ==> r@ == "shutdown timeout is too large"@,
        *error matches ShutdownError::TimedOut ==> r@ == "timed out shutting down the AutoPierCam tray agent"@,
        *error matches ShutdownError::NotRunning ==> r@ == "the current user's AutoPierCam tray agent is not running ("@ + CONTROL_PIPE_PATH@ + ")"@,
        *error matches ShutdownError::Connect ==> r@ == "connecting to the current user's control pipe "@ + CONTROL_PIPE_PATH@,
        *error matches ShutdownError::ResponseTimedOut ==> r@ == "timed out waiting for the tray agent's shutdown response"@,
        *error matches ShutdownError::RequestTooLong ==> r@ == "shutdown request exceeds the control protocol limit"@,
        *error matches ShutdownError::ResponseLength(length, limit) ==> r@ == "control response length "@ + text::decimal(length as nat) + " is outside 1..="@ + text::decimal(limit as nat),
        *error matches ShutdownError::ResponseId(response, request) ==> r@ == "tray agent returned response id "@ + quote::quoted_text(response@) + "; expected "@ + quote::quoted_text(request@),
        *error matches ShutdownError::Rejected(code, message) ==> r@ == "tray agent rejected shutdown ("@ + code@ + "): "@ + message@,
        *error matches ShutdownError::NotAccepted ==> r@ == "tray agent returned a shutdown response without accepted=true"@,
        *error matches ShutdownError::ExitTimedOut ==> r@ == "timed out waiting for the AutoPierCam tray process to exit"@,
        *error matches ShutdownError::ExitWaitFailed ==> r@ == "waiting for the AutoPierCam tray process to exit"@,
{
}

} // verus!
