//! The session state machine: which requests are legal in each phase, what
//! each one is answered with, and what the debugger is asked to do.
use vstd::prelude::*;
use crate::driver::{
    lemma_set_breakpoints_idempotent, launched_process, lines_at, new_lines, set_breakpoints_post, DriverGDB, LaunchOutcome, Message,
};
use crate::mi::{command_text, exec_and_symbols_text, MiCommand, Record, ResultClass};
use crate::protocol::{
    Breakpoint, Capabilities, Command, EventBody, InitializeArguments, LaunchRequestArguments, Request,
    Response, ResponseBody, Sendable, SetBreakpointsArguments,
};
use crate::queue::{InFlightRequest, InFlightRequestQueue};

verus! {

/// The phase of a debug session.
#[derive(Clone, Copy, Debug, PartialEq, Eq, Structural)]
pub enum SessionState {
    /// Waiting for `initialize`.
    Uninitialized,
    /// Waiting for `launch`.
    Initialized,
    /// The debugger is being started; waiting for the outcome.
    Launching,
    /// Accepting breakpoints until `configurationDone`.
    Configuring,
    /// Configuration is done and the debuggee runs.
    Running,
    /// The debugger or the transport is gone.
    Terminated,
}

/// What the session asks of its surroundings, in order.
#[derive(Clone, Debug, PartialEq, Eq)]
pub enum Action {
    /// Send a message to the IDE.
    Send(Sendable),
    /// Hand work to the debugger driver.
    Driver(Message),
}

/// One debug session, from `initialize` to the end of the debuggee.
pub struct IdeAcceptor {
    pub state: SessionState,
    /// The arguments of the last `launch` request.
    pub launch_arguments: LaunchRequestArguments,
    /// The number of the `launch` request that is being carried out.
    pub launch_seq: i64,
    pub gdb: DriverGDB,
    pub in_flight: InFlightRequestQueue,
}

/// The capabilities this adapter announces.
pub open spec fn capabilities() -> Capabilities {
    Capabilities {
        supports_configuration_done_request: Some(true),
        supports_evaluate_for_hovers: Some(true),
        supports_function_breakpoints: Some(true),
    }
}

/// `a` is one error response to request `seq`, with message `msg`.
pub open spec fn is_error_reply(a: Seq<Action>, seq: i64, msg: Seq<char>) -> bool {
    &&& a.len() == 1
    &&& a[0] is Send
    &&& a[0]->Send_0 is Response
    &&& a[0]->Send_0->Response_0.request_seq == seq
    &&& !a[0]->Send_0->Response_0.success
    &&& a[0]->Send_0->Response_0.message is Some
    &&& a[0]->Send_0->Response_0.message->0@ == msg
    &&& a[0]->Send_0->Response_0.body is None
}

/// `a` is a success response to request `seq`.
pub open spec fn is_success_response(a: Action, seq: i64) -> bool {
    &&& a is Send
    &&& a->Send_0 is Response
    &&& a->Send_0->Response_0.request_seq == seq
    &&& a->Send_0->Response_0.success
    &&& a->Send_0->Response_0.message is None
    &&& a->Send_0->Response_0.body is Some
}

/// The body of a success response.
pub open spec fn body_of(a: Action) -> ResponseBody {
    a->Send_0->Response_0.body->0
}

/// The breakpoints reported for `lines`, each placed.
pub open spec fn placed(bps: Seq<Breakpoint>, lines: Seq<i64>) -> bool {
    &&& bps.len() == lines.len()
    &&& forall|i: int| 0 <= i < lines.len() ==> #[trigger] bps[i] == (Breakpoint { verified: true, line: lines[i] })
}

/// `a` sends, one by one, the text of `cmds` to the debugger.
pub open spec fn sends_commands(a: Seq<Action>, cmds: Seq<MiCommand>) -> bool {
    &&& a.len() == cmds.len()
    &&& forall|i: int| 0 <= i < cmds.len() ==> (#[trigger] a[i]) is Driver && a[i]->Driver_0 is Command
        && a[i]->Driver_0->text@ == command_text(cmds[i])
}

/// Whether the client names itself.
pub open spec fn names_client(args: InitializeArguments) -> bool {
    args.client_name is Some && args.client_name->0@.len() > 0
}

/// What `initialize` with `args` does to session `s0`, leaving `s1` and
/// actions `a`.
pub open spec fn initialise_post(s0: IdeAcceptor, seq: i64, args: InitializeArguments, s1: IdeAcceptor, a: Seq<Action>) -> bool {
    &&& names_client(args) ==> s1.state == SessionState::Initialized && a.len() == 1
        && is_success_response(a[0], seq) && body_of(a[0]) == ResponseBody::Initialize(capabilities())
        && s1.gdb == s0.gdb && s1.in_flight@ == s0.in_flight@
    &&& !names_client(args) ==> s1 == s0 && is_error_reply(a, seq, "Missing client name"@)
}

/// What `launch` with `args` does to session `s0`.
pub open spec fn launch_post(s0: IdeAcceptor, seq: i64, args: LaunchRequestArguments, s1: IdeAcceptor, a: Seq<Action>) -> bool {
    &&& s1.launch_arguments == args
    &&& s1.gdb == s0.gdb
    &&& s1.in_flight@ == s0.in_flight@
    &&& args.program is None ==> s1.state == SessionState::Initialized && is_error_reply(a, seq, "missing executable"@)
    &&& args.program is Some ==> s1.state == SessionState::Launching && s1.launch_seq == seq && a.len() == 1
        && a[0] is Driver && a[0]->Driver_0 is Launch
        && a[0]->Driver_0->load_command@ == exec_and_symbols_text(args.program->0@)
}

/// What `setBreakpoints` with `args` does to a configuring session `s0`: the
/// driver's error, if it refuses; else the driver reconciles, and either no
/// command is needed and the breakpoints are reported at once, or the
/// commands go to the debugger and the request waits at the end of the queue.
pub open spec fn set_breakpoints_step(
    s0: IdeAcceptor,
    seq: i64,
    args: SetBreakpointsArguments,
    s1: IdeAcceptor,
    a: Seq<Action>,
) -> bool {
    &&& s1.state == s0.state
    &&& s1.launch_arguments == s0.launch_arguments
    &&& args.source_path is None ==> s1 == s0 && is_error_reply(a, seq, "missing source path"@)
    &&& args.source_path is Some && s0.gdb.next_number + new_lines(s0.gdb.breakpoints@, args.source_path->0@, args.lines@).len()
        > u64::MAX ==> s1 == s0
        && is_error_reply(a, seq, "no breakpoint numbers are left"@)
    &&& args.source_path is Some && s0.gdb.next_number + new_lines(s0.gdb.breakpoints@, args.source_path->0@, args.lines@).len()
        <= u64::MAX ==> exists|cmds: Seq<MiCommand>|
        {
            &&& set_breakpoints_post(s0.gdb, args.source_path->0@, args.lines@, s1.gdb, cmds)
            &&& cmds.len() == 0 ==> s1.in_flight@ == s0.in_flight@ && a.len() == 1 && is_success_response(a[0], seq)
                && body_of(a[0]) is SetBreakpoints && placed(body_of(a[0])->SetBreakpoints_0@, args.lines@)
            &&& cmds.len() > 0 ==> sends_commands(a, cmds) && s1.in_flight@ == s0.in_flight@.push(
                InFlightRequest::SetBreakpoint { seq, lines: args.lines, pending: cmds.len() as u64, failed: false },
            )
        }
}

/// The error that answers `cmd` in `state` by the sequence rules, when the
/// phase does not take it.
pub open spec fn rejection(state: SessionState, cmd: Command) -> Option<Seq<char>> {
    match state {
        SessionState::Uninitialized => if cmd is Initialize {
            None
        } else {
            Some("the session is not initialized"@)
        },
        SessionState::Initialized => if cmd is Launch {
            None
        } else {
            Some("expected the launch request"@)
        },
        SessionState::Launching => Some("a launch is in progress"@),
        SessionState::Configuring => if cmd is SetBreakpoints || cmd is ConfigurationDone {
            None
        } else if cmd is SetFunctionBreakpoints {
            Some("command SetFunctionBreakpoints unsupported"@)
        } else {
            Some("requests are restricted to configuration commands at this stage"@)
        },
        SessionState::Running => Some("requests are not accepted while the debuggee runs"@),
        SessionState::Terminated => Some("the session has ended"@),
    }
}

/// What one request does to session `s0`, leaving `s1` and actions `a`.
pub open spec fn request_post(s0: IdeAcceptor, req: Request, s1: IdeAcceptor, a: Seq<Action>) -> bool {
    &&& rejection(s0.state, req.command) is Some ==> s1 == s0 && is_error_reply(
        a,
        req.seq,
        rejection(s0.state, req.command)->0,
    )
    &&& s0.state == SessionState::Uninitialized && req.command is Initialize ==> initialise_post(
        s0,
        req.seq,
        req.command->Initialize_0,
        s1,
        a,
    )
    &&& s0.state == SessionState::Initialized && req.command is Launch ==> launch_post(
        s0,
        req.seq,
        req.command->Launch_0,
        s1,
        a,
    )
    &&& s0.state == SessionState::Configuring && req.command is SetBreakpoints ==> set_breakpoints_step(
        s0,
        req.seq,
        req.command->SetBreakpoints_0,
        s1,
        a,
    )
    &&& s0.state == SessionState::Configuring && req.command is ConfigurationDone ==> s1.state
        == SessionState::Running && s1.gdb == s0.gdb && s1.in_flight@ == s0.in_flight@ && a.len() == 1
        && is_success_response(a[0], req.seq) && body_of(a[0]) == ResponseBody::ConfigurationDone
}

/// What a result record of class `class` does to `s0`, whose queue is not
/// empty: the head has one reply less; when none is left it leaves the queue
/// and is answered.
pub open spec fn record_answers(s0: IdeAcceptor, class: ResultClass, s1: IdeAcceptor, a: Seq<Action>) -> bool {
    let head = s0.in_flight@[0];
    let failed = head->failed || class == ResultClass::Error;
    &&& s1.state == s0.state
    &&& s1.gdb == s0.gdb
    &&& s1.launch_arguments == s0.launch_arguments
    &&& head->pending > 1 ==> a.len() == 0 && s1.in_flight@ == seq![
        InFlightRequest::SetBreakpoint { seq: head->seq, lines: head->lines, pending: (head->pending - 1) as u64, failed },
    ] + s0.in_flight@.drop_first()
    &&& head->pending <= 1 ==> s1.in_flight@ == s0.in_flight@.drop_first()
    &&& head->pending <= 1 && failed ==> is_error_reply(a, head->seq, "the debugger refused a breakpoint command"@)
    &&& head->pending <= 1 && !failed ==> a.len() == 1 && is_success_response(a[0], head->seq)
        && body_of(a[0]) is SetBreakpoints && placed(body_of(a[0])->SetBreakpoints_0@, head->lines@)
}

/// A session that has seen nothing yet: waiting for `initialize`, with
/// empty launch arguments, no debugger, no breakpoints and no waiting request.
pub open spec fn is_fresh(s: IdeAcceptor) -> bool {
    &&& s.state == SessionState::Uninitialized
    &&& s.launch_arguments == (LaunchRequestArguments { no_debug: None, program: None, args: None, cwd: None, env: None })
    &&& s.launch_seq == 0
    &&& !s.gdb.launched
    &&& s.gdb.breakpoints@.len() == 0
    &&& s.gdb.next_number == 1
    &&& s.in_flight@.len() == 0
}

impl IdeAcceptor {
    /// The invariant of a session: the driver keeps its own; the debugger is live from a
    /// successful launch on, a pending launch knows its program, and requests
    /// wait only once the debugger is live.
    pub open spec fn wf(&self) -> bool {
        &&& self.gdb.wf()
        &&& (self.state == SessionState::Uninitialized || self.state == SessionState::Initialized
            || self.state == SessionState::Launching) ==> !self.gdb.launched && self.in_flight@.len() == 0
        &&& self.state == SessionState::Launching ==> self.launch_arguments.program is Some
        &&& self.state == SessionState::Configuring ==> self.gdb.launched
        &&& forall|i: int| 0 <= i < self.in_flight@.len() ==> (#[trigger] self.in_flight@[i])->pending > 0
    }

    /// A fresh session, waiting for `initialize`.
    pub fn new() -> (r: Self)
        ensures
            r.wf(),
            is_fresh(r),
    {
        IdeAcceptor {
            state: SessionState::Uninitialized,
            launch_arguments: LaunchRequestArguments {
                no_debug: None,
                program: None,
                args: None,
                cwd: None,
                env: None,
            },
            launch_seq: 0,
            gdb: DriverGDB::new(),
            in_flight: InFlightRequestQueue::new(),
        }
    }

    fn reply_error(seq: i64, msg: &str) -> (r: Vec<Action>)
        ensures
            is_error_reply(r@, seq, msg@),
    {
        let mut r = Vec::new();
        r.push(Action::Send(Sendable::Response(Response::make_error(seq, msg))));
        r
    }

    /// Answers `initialize`: the capabilities when the client names itself,
    /// else an error and no change.
    pub fn handle_initialise(&mut self, seq: i64, args: &InitializeArguments) -> (r: Vec<Action>)
        requires
            old(self).state == SessionState::Uninitialized,
            old(self).wf(),
        ensures
            final(self).wf(),
            initialise_post(*old(self), seq, *args, *final(self), r@),
    {
        let named = match &args.client_name {
            Some(name) => name.unicode_len() > 0,
            None => false,
        };
        if !named {
            return Self::reply_error(seq, "Missing client name");
        }
        self.state = SessionState::Initialized;
        let caps = Capabilities {
            supports_configuration_done_request: Some(true),
            supports_evaluate_for_hovers: Some(true),
            supports_function_breakpoints: Some(true),
        };
        let mut r = Vec::new();
        r.push(Action::Send(Sendable::Response(Response::make_success(seq, ResponseBody::Initialize(caps)))));
        r
    }

    /// Takes `launch`: keeps its arguments and asks the driver to start the
    /// debugger on the program, its path normalized; without a program it
    /// answers "missing executable" and starts nothing.
    pub fn handle_launch(&mut self, seq: i64, args: LaunchRequestArguments) -> (r: Vec<Action>)
        requires
            old(self).state == SessionState::Initialized,
            old(self).wf(),
        ensures
            final(self).wf(),
            launch_post(*old(self), seq, args, *final(self), r@),
    {
        self.launch_arguments = args;
        match self.gdb.launch(&self.launch_arguments) {
            Err(e) => {
                let msg = e.message();
                Self::reply_error(seq, msg.as_str())
            },
            Ok(work) => {
                self.state = SessionState::Launching;
                self.launch_seq = seq;
                let mut r = Vec::new();
                r.push(Action::Driver(work));
                r
            },
        }
    }
    /// Takes the outcome of a launch: on `done` the launch succeeds and the
    /// IDE gets, in this order, the success response, the process event and
    /// the initialized event; otherwise an error response, and the session
    /// waits for `launch` again. Outside a launch nothing happens.
    pub fn launch_finished(&mut self, outcome: LaunchOutcome) -> (r: Vec<Action>)
        requires
            old(self).wf(),
        ensures
            final(self).wf(),
            final(self).launch_arguments == old(self).launch_arguments,
            final(self).in_flight@ == old(self).in_flight@,
            old(self).state != SessionState::Launching ==> *final(self) == *old(self) && r@.len() == 0,
            old(self).state == SessionState::Launching && outcome is Loaded && outcome->class == ResultClass::Done
                ==> final(self).state == SessionState::Configuring && final(self).gdb.launched && r@.len() == 3
                && is_success_response(r@[0], old(self).launch_seq) && body_of(r@[0]) == ResponseBody::Launch
                && r@[1] is Send && r@[1]->Send_0 is Event && r@[1]->Send_0->Event_0 is Process
                && launched_process(old(self).launch_arguments.program->0@, r@[1]->Send_0->Event_0->Process_0)
                && r@[2] == Action::Send(Sendable::Event(EventBody::Initialized)),
            old(self).state == SessionState::Launching && outcome is SpawnFailed ==> final(self).state
                == SessionState::Initialized && final(self).gdb == old(self).gdb
                && is_error_reply(r@, old(self).launch_seq, "failed to start gdb debugger!"@),
            old(self).state == SessionState::Launching && outcome is Loaded && outcome->class != ResultClass::Done
                ==> final(self).state == SessionState::Initialized && final(self).gdb == old(self).gdb
                && is_error_reply(r@, old(self).launch_seq, outcome->content@),
    {
        if self.state != SessionState::Launching {
            return Vec::new();
        }
        let seq = self.launch_seq;
        let program = match &self.launch_arguments.program {
            Some(p) => p,
            None => {
                return Vec::new();
            },
        };
        match self.gdb.launch_finished(program.as_str(), outcome) {
            Err(e) => {
                self.state = SessionState::Initialized;
                let msg = e.message();
                Self::reply_error(seq, msg.as_str())
            },
            Ok(process) => {
                self.state = SessionState::Configuring;
                let mut r = Vec::new();
                r.push(Action::Send(Sendable::Response(Response::make_success(seq, ResponseBody::Launch))));
                r.push(Action::Send(Sendable::Event(EventBody::Process(process))));
                r.push(Action::Send(Sendable::Event(EventBody::Initialized)));
                r
            },
        }
    }
    fn placed_breakpoints(lines: &Vec<i64>) -> (r: Vec<Breakpoint>)
        ensures
            placed(r@, lines@),
    {
        let mut r: Vec<Breakpoint> = Vec::new();
        let mut i: usize = 0;
        while i < lines.len()
            invariant
                i <= lines@.len(),
                placed(r@, lines@.subrange(0, i as int)),
            decreases lines@.len() - i,
        {
            r.push(Breakpoint { verified: true, line: lines[i] });
            i = i + 1;
        }
        assert(lines@.subrange(0, lines@.len() as int) =~= lines@);
        r
    }

    fn command_actions(cmds: &Vec<MiCommand>) -> (r: Vec<Action>)
        ensures
            sends_commands(r@, cmds@),
    {
        let mut r: Vec<Action> = Vec::new();
        let mut i: usize = 0;
        while i < cmds.len()
            invariant
                i <= cmds@.len(),
                sends_commands(r@, cmds@.subrange(0, i as int)),
            decreases cmds@.len() - i,
        {
            r.push(Action::Driver(Message::Command { text: cmds[i].to_text() }));
            i = i + 1;
        }
        assert(cmds@.subrange(0, cmds@.len() as int) =~= cmds@);
        r
    }

    /// Takes `setBreakpoints` while configuring.
    pub fn handle_set_breakpoints(&mut self, seq: i64, args: SetBreakpointsArguments) -> (r: Vec<Action>)
        requires
            old(self).state == SessionState::Configuring,
            old(self).wf(),
        ensures
            final(self).wf(),
            set_breakpoints_step(*old(self), seq, args, *final(self), r@),
    {
        match self.gdb.set_breakpoints(&args) {
            Err(e) => {
                let msg = e.message();
                Self::reply_error(seq, msg.as_str())
            },
            Ok(cmds) => {
                if cmds.len() == 0 {
                    let bps = Self::placed_breakpoints(&args.lines);
                    let mut r = Vec::new();
                    r.push(Action::Send(Sendable::Response(Response::make_success(seq, ResponseBody::SetBreakpoints(bps)))));
                    r
                } else {
                    let r = Self::command_actions(&cmds);
                    let pending = cmds.len() as u64;
                    self.in_flight.push(InFlightRequest::SetBreakpoint { seq, lines: args.lines, pending, failed: false });
                    r
                }
            },
        }
    }
    /// Answers one request from the IDE according to the phase: a request
    /// the phase does not take gets an error response and changes nothing.
    pub fn handle_request(&mut self, request: Request) -> (r: Vec<Action>)
        requires
            old(self).wf(),
        ensures
            final(self).wf(),
            request_post(*old(self), request, *final(self), r@),
    {
        let seq = request.seq;
        match self.state {
            SessionState::Uninitialized => match request.command {
                Command::Initialize(args) => self.handle_initialise(seq, &args),
                _ => Self::reply_error(seq, "the session is not initialized"),
            },
            SessionState::Initialized => match request.command {
                Command::Launch(args) => self.handle_launch(seq, args),
                _ => Self::reply_error(seq, "expected the launch request"),
            },
            SessionState::Launching => Self::reply_error(seq, "a launch is in progress"),
            SessionState::Configuring => match request.command {
                Command::SetBreakpoints(args) => self.handle_set_breakpoints(seq, args),
                Command::ConfigurationDone => {
                    self.state = SessionState::Running;
                    let mut r = Vec::new();
                    r.push(
                        Action::Send(Sendable::Response(Response::make_success(seq, ResponseBody::ConfigurationDone))),
                    );
                    r
                },
                Command::SetFunctionBreakpoints => Self::reply_error(
                    seq,
                    "command SetFunctionBreakpoints unsupported",
                ),
                _ => Self::reply_error(seq, "requests are restricted to configuration commands at this stage"),
            },
            SessionState::Running => Self::reply_error(seq, "requests are not accepted while the debuggee runs"),
            SessionState::Terminated => Self::reply_error(seq, "the session has ended"),
        }
    }

    /// Takes one record of debugger output. A result record answers the
    /// oldest waiting request: once all its commands are answered it leaves
    /// the queue and gets its response, an error if the debugger refused
    /// one of them. A result of class `exit` means the debugger is gone and
    /// ends the session. Any other record, or one that no request waits
    /// for, is dropped.
    pub fn handle_record(&mut self, record: Record) -> (r: Vec<Action>)
        requires
            old(self).wf(),
        ensures
            final(self).wf(),
            record is Result && record->Result_class == ResultClass::Exit ==> final(self).state
                == SessionState::Terminated && !final(self).gdb.launched && final(self).in_flight@.len() == 0
                && r@.len() == 0,
            !(record is Result && old(self).in_flight@.len() > 0) && !(record is Result && record->Result_class
                == ResultClass::Exit) ==> *final(self) == *old(self) && r@.len() == 0,
            record is Result && record->Result_class != ResultClass::Exit && old(self).in_flight@.len() > 0
                ==> record_answers(
                *old(self),
                record->Result_class,
                *final(self),
                r@,
            ),
    {
        let class = match &record {
            Record::Result { class, .. } => *class,
            _ => {
                return Vec::new();
            },
        };
        if class == ResultClass::Exit {
            self.terminate();
            return Vec::new();
        }
        if self.in_flight.is_empty() {
            return Vec::new();
        }
        match self.in_flight.pop() {
            None => Vec::new(),
            Some(InFlightRequest::SetBreakpoint { seq, lines, pending, failed }) => {
                let failed = failed || class == ResultClass::Error;
                if pending > 1 {
                    self.in_flight.restore_front(
                        InFlightRequest::SetBreakpoint { seq, lines, pending: pending - 1, failed },
                    );
                    proof {
                        assert forall|i: int| 0 <= i < self.in_flight@.len() implies (#[trigger] self.in_flight@[i])->pending
                            > 0 by {
                            if i > 0 {
                                assert(self.in_flight@[i] == old(self).in_flight@[i]);
                            }
                        }
                    }
                    Vec::new()
                } else if failed {
                    proof {
                        assert forall|i: int| 0 <= i < self.in_flight@.len() implies (#[trigger] self.in_flight@[i])->pending
                            > 0 by {
                            assert(self.in_flight@[i] == old(self).in_flight@[i + 1]);
                        }
                    }
                    Self::reply_error(seq, "the debugger refused a breakpoint command")
                } else {
                    proof {
                        assert forall|i: int| 0 <= i < self.in_flight@.len() implies (#[trigger] self.in_flight@[i])->pending
                            > 0 by {
                            assert(self.in_flight@[i] == old(self).in_flight@[i + 1]);
                        }
                    }
                    let bps = Self::placed_breakpoints(&lines);
                    let mut r = Vec::new();
                    r.push(Action::Send(Sendable::Response(Response::make_success(seq, ResponseBody::SetBreakpoints(bps)))));
                    r
                }
            },
        }
    }

    /// Ends the session: the debugger or the transport is gone, and no
    /// waiting request will be answered.
    pub fn terminate(&mut self)
        requires
            old(self).wf(),
        ensures
            final(self).wf(),
            final(self).state == SessionState::Terminated,
            !final(self).gdb.launched,
            final(self).in_flight@.len() == 0,
    {
        self.state = SessionState::Terminated;
        self.in_flight.clear();
        self.gdb.process_exited();
    }
}

impl Default for IdeAcceptor {
    /// A fresh session, waiting for `initialize`.
    fn default() -> (r: Self)
        ensures
            r.wf(),
            is_fresh(r),
    {
        IdeAcceptor::new()
    }
}

/// `initialize` without a client name is answered with an error and leaves
/// the session waiting for `initialize`.
pub proof fn lemma_initialize_needs_client_name(s0: IdeAcceptor, req: Request, s1: IdeAcceptor, a: Seq<Action>)
    requires
        s0.state == SessionState::Uninitialized,
        req.command is Initialize,
        !names_client(req.command->Initialize_0),
        request_post(s0, req, s1, a),
    ensures
        s1.state == SessionState::Uninitialized,
        s1 == s0,
        is_error_reply(a, req.seq, "Missing client name"@),
{
}

/// Before `initialize`, every other request is answered with an error and
/// changes nothing.
pub proof fn lemma_uninitialized_rejects(s0: IdeAcceptor, req: Request, s1: IdeAcceptor, a: Seq<Action>)
    requires
        s0.state == SessionState::Uninitialized,
        !(req.command is Initialize),
        request_post(s0, req, s1, a),
    ensures
        s1 == s0,
        is_error_reply(a, req.seq, "the session is not initialized"@),
{
}

/// `launch` without a program is answered "missing executable" and hands
/// the driver no work, so no debugger is started.
pub proof fn lemma_launch_without_program(s0: IdeAcceptor, req: Request, s1: IdeAcceptor, a: Seq<Action>)
    requires
        s0.wf(),
        s0.state == SessionState::Initialized,
        req.command is Launch,
        req.command->Launch_0.program is None,
        request_post(s0, req, s1, a),
    ensures
        is_error_reply(a, req.seq, "missing executable"@),
        forall|i: int| 0 <= i < a.len() ==> !(#[trigger] a[i] is Driver),
        s1.state == SessionState::Initialized,
        !s1.gdb.launched,
{
}

/// Only `configurationDone` leaves the configuration phase; once it has
/// succeeded, a `setBreakpoints` request is a sequence error that changes
/// nothing.
pub proof fn lemma_configuration_done_ends_configuration(
    s0: IdeAcceptor,
    req: Request,
    s1: IdeAcceptor,
    a: Seq<Action>,
    req2: Request,
    s2: IdeAcceptor,
    a2: Seq<Action>,
)
    requires
        s0.state == SessionState::Configuring,
        request_post(s0, req, s1, a),
    ensures
        !(req.command is ConfigurationDone) ==> s1.state == SessionState::Configuring,
        req.command is ConfigurationDone ==> s1.state == SessionState::Running,
        req.command is ConfigurationDone && req2.command is SetBreakpoints && request_post(s1, req2, s2, a2)
            ==> s2 == s1 && is_error_reply(a2, req2.seq, "requests are not accepted while the debuggee runs"@),
{
}

/// Sending the same `setBreakpoints` request twice while configuring gives
/// the debugger no command the second time: the request is answered at once
/// or refused.
pub proof fn lemma_repeated_breakpoints_send_no_command(
    s0: IdeAcceptor,
    seq1: i64,
    seq2: i64,
    args: SetBreakpointsArguments,
    s1: IdeAcceptor,
    a1: Seq<Action>,
    s2: IdeAcceptor,
    a2: Seq<Action>,
)
    requires
        set_breakpoints_step(s0, seq1, args, s1, a1),
        set_breakpoints_step(s1, seq2, args, s2, a2),
    ensures
        a2.len() == 1,
        !(a2[0] is Driver),
        s2.in_flight@ == s1.in_flight@,
        args.source_path is Some && s0.gdb.next_number + new_lines(s0.gdb.breakpoints@, args.source_path->0@, args.lines@).len()
            <= u64::MAX ==> is_success_response(a2[0], seq2)
            && lines_at(s2.gdb.breakpoints@, args.source_path->0@) == lines_at(s1.gdb.breakpoints@, args.source_path->0@),
{
    if args.source_path is Some {
        let src = args.source_path->0@;
        let lines = args.lines@;
        if s0.gdb.next_number + new_lines(s0.gdb.breakpoints@, src, lines).len() <= u64::MAX {
            let cmds1 = choose|cmds: Seq<MiCommand>| {
                &&& set_breakpoints_post(s0.gdb, src, lines, s1.gdb, cmds)
                &&& cmds.len() == 0 ==> s1.in_flight@ == s0.in_flight@ && a1.len() == 1 && is_success_response(a1[0], seq1)
                    && body_of(a1[0]) is SetBreakpoints && placed(body_of(a1[0])->SetBreakpoints_0@, lines)
                &&& cmds.len() > 0 ==> sends_commands(a1, cmds) && s1.in_flight@ == s0.in_flight@.push(
                    InFlightRequest::SetBreakpoint { seq: seq1, lines: args.lines, pending: cmds.len() as u64, failed: false },
                )
            };
            assert(new_lines(s1.gdb.breakpoints@, src, lines) =~= Set::<i64>::empty());
            let cmds2 = choose|cmds: Seq<MiCommand>| {
                &&& set_breakpoints_post(s1.gdb, src, lines, s2.gdb, cmds)
                &&& cmds.len() == 0 ==> s2.in_flight@ == s1.in_flight@ && a2.len() == 1 && is_success_response(a2[0], seq2)
                    && body_of(a2[0]) is SetBreakpoints && placed(body_of(a2[0])->SetBreakpoints_0@, lines)
                &&& cmds.len() > 0 ==> sends_commands(a2, cmds) && s2.in_flight@ == s1.in_flight@.push(
                    InFlightRequest::SetBreakpoint { seq: seq2, lines: args.lines, pending: cmds.len() as u64, failed: false },
                )
            };
            lemma_set_breakpoints_idempotent(s0.gdb, src, lines, s1.gdb, cmds1, s2.gdb, cmds2);
        } else {
            assert(s1 == s0);
        }
    }
}

} // verus!
