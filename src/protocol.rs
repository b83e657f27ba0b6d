//! The decoded requests, responses and events of the IDE-facing protocol.
use vstd::prelude::*;

verus! {

/// Arguments of the `initialize` request.
#[derive(Clone, Debug, PartialEq, Eq)]
pub struct InitializeArguments {
    pub client_id: Option<String>,
    pub client_name: Option<String>,
    pub adapter_id: String,
}

/// Arguments of the `launch` request.
#[derive(Clone, Debug, PartialEq, Eq)]
pub struct LaunchRequestArguments {
    pub no_debug: Option<bool>,
    pub program: Option<String>,
    pub args: Option<Vec<String>>,
    pub cwd: Option<String>,
    pub env: Option<Vec<String>>,
}

/// Arguments of the `setBreakpoints` request: the breakpoints wanted in one
/// source file, by line.
#[derive(Clone, Debug, PartialEq, Eq)]
pub struct SetBreakpointsArguments {
    pub source_path: Option<String>,
    pub lines: Vec<i64>,
}

/// The command of a request, with its arguments.
#[derive(Clone, Debug, PartialEq, Eq)]
pub enum Command {
    Initialize(InitializeArguments),
    Launch(LaunchRequestArguments),
    SetBreakpoints(SetBreakpointsArguments),
    SetFunctionBreakpoints,
    ConfigurationDone,
    Next,
    /// Any other command, by name.
    Other(String),
}

/// A decoded request from the IDE.
#[derive(Clone, Debug, PartialEq, Eq)]
pub struct Request {
    pub seq: i64,
    pub command: Command,
}

/// The capabilities announced in reply to `initialize`; those left out are
/// not supported.
#[derive(Clone, Copy, Debug, PartialEq, Eq, Structural)]
pub struct Capabilities {
    pub supports_configuration_done_request: Option<bool>,
    pub supports_evaluate_for_hovers: Option<bool>,
    pub supports_function_breakpoints: Option<bool>,
}

/// A breakpoint as reported back to the IDE.
#[derive(Clone, Copy, Debug, PartialEq, Eq, Structural)]
pub struct Breakpoint {
    pub verified: bool,
    pub line: i64,
}

/// The body of a success response.
#[derive(Clone, Debug, PartialEq, Eq)]
pub enum ResponseBody {
    Initialize(Capabilities),
    Launch,
    SetBreakpoints(Vec<Breakpoint>),
    ConfigurationDone,
}

/// A response to the request numbered `request_seq`: a body on success, a
/// message on failure.
#[derive(Clone, Debug, PartialEq, Eq)]
pub struct Response {
    pub request_seq: i64,
    pub success: bool,
    pub message: Option<String>,
    pub body: Option<ResponseBody>,
}

/// How the debuggee was started.
#[derive(Clone, Copy, Debug, PartialEq, Eq, Structural)]
pub enum ProcessEventStartMethod {
    Launch,
    Attach,
    AttachForSuspendedLaunch,
}

/// What the `process` event tells of the debuggee.
#[derive(Clone, Debug, PartialEq, Eq)]
pub struct ProcessEventBody {
    pub name: String,
    /// `-1` when the process id is not known.
    pub system_process_id: Option<i64>,
    pub is_local_process: Option<bool>,
    pub start_method: Option<ProcessEventStartMethod>,
    pub pointer_size: Option<i64>,
}

/// The body of an event sent to the IDE.
#[derive(Clone, Debug, PartialEq, Eq)]
pub enum EventBody {
    Process(ProcessEventBody),
    Initialized,
}

/// A message for the IDE.
#[derive(Clone, Debug, PartialEq, Eq)]
pub enum Sendable {
    Response(Response),
    Event(EventBody),
}

impl Response {
    /// A success response with `body`.
    pub fn make_success(request_seq: i64, body: ResponseBody) -> (r: Response)
        ensures
            r == (Response { request_seq, success: true, message: None, body: Some(body) }),
    {
        Response { request_seq, success: true, message: None, body: Some(body) }
    }

    /// An error response that carries `message`.
    pub fn make_error(request_seq: i64, message: &str) -> (r: Response)
        ensures
            r.request_seq == request_seq,
            !r.success,
            r.message is Some && r.message->0@ == message@,
            r.body is None,
    {
        Response { request_seq, success: false, message: Some(String::from_str(message)), body: None }
    }
}

} // verus!
