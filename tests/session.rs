use dapd::driver::{LaunchOutcome, Message};
use dapd::mi::{Record, ResultClass};
use dapd::protocol::{
    Breakpoint, Capabilities, Command, EventBody, InitializeArguments, LaunchRequestArguments,
    ProcessEventStartMethod, Request, Response, ResponseBody, Sendable, SetBreakpointsArguments,
};
use dapd::session::{Action, IdeAcceptor, SessionState};

fn initialize(seq: i64, client_name: Option<&str>) -> Request {
    Request {
        seq,
        command: Command::Initialize(InitializeArguments {
            client_id: Some("wxdap".to_string()),
            client_name: client_name.map(|c| c.to_string()),
            adapter_id: "my-id".to_string(),
        }),
    }
}

fn launch_arguments(program: Option<&str>) -> LaunchRequestArguments {
    LaunchRequestArguments {
        no_debug: Some(false),
        program: program.map(|p| p.to_string()),
        args: Some(vec![]),
        cwd: Some("/home/eran/wd".to_string()),
        env: Some(vec![
            "SHELL=CMD.EXE".to_string(),
            "CodeLiteDir=/home/eran/devl/codelite/build-release/install".to_string(),
            "WXCFG=clang_x64_dll/mswu".to_string(),
            "WXWIN=/home/eran/root".to_string(),
        ]),
    }
}

fn launch(seq: i64, program: Option<&str>) -> Request {
    Request { seq, command: Command::Launch(launch_arguments(program)) }
}

fn set_breakpoints(seq: i64, path: &str, lines: &[i64]) -> Request {
    Request {
        seq,
        command: Command::SetBreakpoints(SetBreakpointsArguments {
            source_path: Some(path.to_string()),
            lines: lines.to_vec(),
        }),
    }
}

fn response(actions: &[Action]) -> Response {
    assert_eq!(actions.len(), 1);
    match &actions[0] {
        Action::Send(Sendable::Response(r)) => r.clone(),
        other => panic!("expected a response, got {:?}", other),
    }
}

fn done() -> Record {
    Record::Result { class: ResultClass::Done, content: String::new() }
}

/// A session that has been initialized and launched.
fn configuring() -> IdeAcceptor {
    let mut s = IdeAcceptor::new();
    s.handle_request(initialize(1, Some("wxdap")));
    s.handle_request(launch(2, Some("/bin/app")));
    s.launch_finished(LaunchOutcome::Loaded { class: ResultClass::Done, content: String::new() });
    assert_eq!(s.state, SessionState::Configuring);
    s
}

#[test]
fn handlers_test_initialize_request() {
    let mut s = IdeAcceptor::new();
    let init = InitializeArguments {
        client_id: Some("wxdap".to_string()),
        client_name: Some("wxdap".to_string()),
        adapter_id: "my-id".to_string(),
    };
    let r = response(&s.handle_initialise(1, &init));
    assert!(r.success);
    assert_eq!(r.request_seq, 1);
    assert_eq!(s.state, SessionState::Initialized);
}

#[test]
fn handlers_test_launch_request() {
    let mut s = IdeAcceptor::new();
    s.handle_request(initialize(1, Some("wxdap")));
    let program = "C:/Users/eran/Documents/TestWxCrafter/build-Debug/bin/TestWxCrafter.exe";
    let actions = s.handle_launch(2, launch_arguments(Some(program)));
    assert_eq!(
        actions,
        vec![Action::Driver(Message::Launch { load_command: format!("-file-exec-and-symbols \"{}\"", program) })]
    );
    assert_eq!(s.state, SessionState::Launching);
}

#[test]
fn ide_acceptor_test_initialize_request() {
    let mut acceptor = IdeAcceptor::new();
    let res = response(&acceptor.handle_request(initialize(1, Some("wxdap"))));
    assert!(res.success);
    assert_eq!(res.request_seq, 1);
    assert_eq!(
        res.body,
        Some(ResponseBody::Initialize(Capabilities {
            supports_configuration_done_request: Some(true),
            supports_evaluate_for_hovers: Some(true),
            supports_function_breakpoints: Some(true),
        }))
    );
}

#[test]
fn ide_acceptor_test_launch_request() {
    let mut acceptor = IdeAcceptor::new();
    acceptor.handle_request(initialize(1, Some("wxdap")));
    let program = "C:/Users/eran/Documents/TestWxCrafter/build-Debug/bin/TestWxCrafter.exe";
    acceptor.handle_request(launch(2, Some(program)));
    let actions = acceptor.launch_finished(LaunchOutcome::Loaded { class: ResultClass::Done, content: String::new() });
    let res = match &actions[0] {
        Action::Send(Sendable::Response(r)) => r.clone(),
        other => panic!("failed to process request: {:?}", other),
    };
    assert!(res.success);
    assert_eq!(acceptor.launch_arguments.no_debug, Some(false));
    assert_eq!(acceptor.launch_arguments.cwd, Some("/home/eran/wd".to_string()));
    let env = acceptor.launch_arguments.env.clone().expect("expected non None environment!");
    assert_eq!(env.len(), 4);
    assert_eq!(env[0], "SHELL=CMD.EXE".to_string());
    assert_eq!(env[1], "CodeLiteDir=/home/eran/devl/codelite/build-release/install".to_string());
    assert_eq!(env[2], "WXCFG=clang_x64_dll/mswu".to_string());
    assert_eq!(env[3], "WXWIN=/home/eran/root".to_string());
}

#[test]
fn initialize_without_client_name_is_an_error() {
    let mut s = IdeAcceptor::new();
    let r = response(&s.handle_request(initialize(1, None)));
    assert!(!r.success);
    assert_eq!(r.message, Some("Missing client name".to_string()));
    assert_eq!(s.state, SessionState::Uninitialized);
    let r = response(&s.handle_request(initialize(2, Some(""))));
    assert!(!r.success);
    assert_eq!(s.state, SessionState::Uninitialized);
}

#[test]
fn requests_before_initialize_are_rejected() {
    let mut s = IdeAcceptor::new();
    let r = response(&s.handle_request(set_breakpoints(1, "main.c", &[3])));
    assert!(!r.success);
    assert_eq!(r.request_seq, 1);
    assert_eq!(r.message, Some("the session is not initialized".to_string()));
    assert_eq!(s.state, SessionState::Uninitialized);
    let r = response(&s.handle_request(launch(2, Some("/bin/app"))));
    assert!(!r.success);
    assert_eq!(s.state, SessionState::Uninitialized);
}

#[test]
fn only_launch_after_initialize() {
    let mut s = IdeAcceptor::new();
    s.handle_request(initialize(1, Some("wxdap")));
    let r = response(&s.handle_request(Request { seq: 2, command: Command::ConfigurationDone }));
    assert_eq!(r.message, Some("expected the launch request".to_string()));
    assert_eq!(s.state, SessionState::Initialized);
}

#[test]
fn launch_without_program_is_missing_executable() {
    let mut s = IdeAcceptor::new();
    s.handle_request(initialize(1, Some("wxdap")));
    let actions = s.handle_request(launch(2, None));
    assert!(actions.iter().all(|a| !matches!(a, Action::Driver(_))));
    let r = response(&actions);
    assert!(!r.success);
    assert_eq!(r.message, Some("missing executable".to_string()));
    assert_eq!(s.state, SessionState::Initialized);
    assert!(!s.gdb.launched);
}

#[test]
fn launch_success_emits_three_messages_in_order() {
    let mut s = IdeAcceptor::new();
    s.handle_request(initialize(1, Some("wxdap")));
    s.handle_request(launch(2, Some(r"C:\a\b.exe")));
    let actions = s.launch_finished(LaunchOutcome::Loaded { class: ResultClass::Done, content: String::new() });
    assert_eq!(actions.len(), 3);
    assert_eq!(
        actions[0],
        Action::Send(Sendable::Response(Response {
            request_seq: 2,
            success: true,
            message: None,
            body: Some(ResponseBody::Launch),
        }))
    );
    match &actions[1] {
        Action::Send(Sendable::Event(EventBody::Process(p))) => {
            assert_eq!(p.name, "C:/a/b.exe");
            assert_eq!(p.start_method, Some(ProcessEventStartMethod::Launch));
            assert_eq!(p.system_process_id, Some(-1));
        },
        other => panic!("expected the process event, got {:?}", other),
    }
    assert_eq!(actions[2], Action::Send(Sendable::Event(EventBody::Initialized)));
    assert!(s.gdb.launched);
}

#[test]
fn launch_failure_returns_to_initialized() {
    let mut s = IdeAcceptor::new();
    s.handle_request(initialize(1, Some("wxdap")));
    s.handle_request(launch(2, Some("/bin/app")));
    let r = response(&s.handle_request(launch(3, Some("/bin/app"))));
    assert_eq!(r.message, Some("a launch is in progress".to_string()));
    let r = response(&s.launch_finished(LaunchOutcome::SpawnFailed));
    assert_eq!(r.request_seq, 2);
    assert_eq!(r.message, Some("failed to start gdb debugger!".to_string()));
    assert_eq!(s.state, SessionState::Initialized);
    s.handle_request(launch(4, Some("/bin/app")));
    let r = response(&s.launch_finished(LaunchOutcome::Loaded {
        class: ResultClass::Error,
        content: "msg=\"No symbol table\"".to_string(),
    }));
    assert_eq!(r.request_seq, 4);
    assert_eq!(r.message, Some("msg=\"No symbol table\"".to_string()));
    assert_eq!(s.state, SessionState::Initialized);
    assert!(s.launch_finished(LaunchOutcome::SpawnFailed).is_empty());
}

#[test]
fn breakpoints_wait_for_the_debugger_in_order() {
    let mut s = configuring();
    let a1 = s.handle_request(set_breakpoints(3, "main.c", &[10, 20]));
    assert_eq!(
        a1,
        vec![
            Action::Driver(Message::Command { text: "-break-insert \"main.c:10\"".to_string() }),
            Action::Driver(Message::Command { text: "-break-insert \"main.c:20\"".to_string() }),
        ]
    );
    let a2 = s.handle_request(set_breakpoints(4, "util.c", &[5]));
    assert_eq!(a2.len(), 1);
    assert_eq!(s.in_flight.len(), 2);
    assert!(s.handle_record(Record::Stream { text: "~\"hi\"".to_string() }).is_empty());
    assert!(s.handle_record(done()).is_empty());
    let r = response(&s.handle_record(done()));
    assert_eq!(r.request_seq, 3);
    assert!(r.success);
    assert_eq!(
        r.body,
        Some(ResponseBody::SetBreakpoints(vec![
            Breakpoint { verified: true, line: 10 },
            Breakpoint { verified: true, line: 20 },
        ]))
    );
    let r = response(&s.handle_record(Record::Result { class: ResultClass::Error, content: String::new() }));
    assert_eq!(r.request_seq, 4);
    assert!(!r.success);
    assert_eq!(r.message, Some("the debugger refused a breakpoint command".to_string()));
    assert!(s.handle_record(done()).is_empty());
}

#[test]
fn same_breakpoints_twice_are_answered_at_once() {
    let mut s = configuring();
    s.handle_request(set_breakpoints(3, "main.c", &[10]));
    s.handle_record(done());
    let r = response(&s.handle_request(set_breakpoints(4, "main.c", &[10])));
    assert!(r.success);
    assert_eq!(r.body, Some(ResponseBody::SetBreakpoints(vec![Breakpoint { verified: true, line: 10 }])));
    assert!(s.in_flight.is_empty());
}

#[test]
fn configuration_rejects_other_requests() {
    let mut s = configuring();
    let r = response(&s.handle_request(Request { seq: 3, command: Command::SetFunctionBreakpoints }));
    assert_eq!(r.message, Some("command SetFunctionBreakpoints unsupported".to_string()));
    let r = response(&s.handle_request(Request { seq: 4, command: Command::Next }));
    assert_eq!(r.message, Some("requests are restricted to configuration commands at this stage".to_string()));
    let r = response(&s.handle_request(Request { seq: 5, command: Command::Other("threads".to_string()) }));
    assert!(!r.success);
    let r = response(&s.handle_request(Request {
        seq: 6,
        command: Command::SetBreakpoints(SetBreakpointsArguments { source_path: None, lines: vec![1] }),
    }));
    assert_eq!(r.message, Some("missing source path".to_string()));
    assert_eq!(s.state, SessionState::Configuring);
}

#[test]
fn set_breakpoints_after_configuration_done_is_a_sequence_error() {
    let mut s = configuring();
    let r = response(&s.handle_request(Request { seq: 3, command: Command::ConfigurationDone }));
    assert!(r.success);
    assert_eq!(r.body, Some(ResponseBody::ConfigurationDone));
    assert_eq!(s.state, SessionState::Running);
    let r = response(&s.handle_request(set_breakpoints(4, "main.c", &[1])));
    assert!(!r.success);
    assert_eq!(r.message, Some("requests are not accepted while the debuggee runs".to_string()));
    assert_eq!(s.state, SessionState::Running);
}

#[test]
fn terminate_ends_the_session() {
    let mut s = configuring();
    s.handle_request(set_breakpoints(3, "main.c", &[10]));
    s.terminate();
    assert_eq!(s.state, SessionState::Terminated);
    assert!(s.in_flight.is_empty());
    assert!(!s.gdb.launched);
    let r = response(&s.handle_request(initialize(9, Some("wxdap"))));
    assert_eq!(r.message, Some("the session has ended".to_string()));
}

#[test]
fn exit_result_terminates_the_session() {
    let mut s = configuring();
    s.handle_request(set_breakpoints(3, "main.c", &[10]));
    assert!(s.handle_record(Record::Result { class: ResultClass::Exit, content: String::new() }).is_empty());
    assert_eq!(s.state, SessionState::Terminated);
    assert!(s.in_flight.is_empty());
    assert!(!s.gdb.launched);
}

#[test]
fn default_session_is_fresh() {
    let s = IdeAcceptor::default();
    assert_eq!(s.state, SessionState::Uninitialized);
    assert_eq!(
        s.launch_arguments,
        LaunchRequestArguments { no_debug: None, program: None, args: None, cwd: None, env: None }
    );
    assert_eq!(s.launch_seq, 0);
    assert!(!s.gdb.launched);
    assert!(s.gdb.breakpoints.is_empty());
    assert_eq!(s.gdb.next_number, 1);
    assert!(s.in_flight.is_empty());
}
