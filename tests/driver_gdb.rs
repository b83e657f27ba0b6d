use dapd::driver::{DriverError, DriverGDB, LaunchOutcome, Message};
use dapd::mi::{MiCommand, ResultClass};
use dapd::protocol::{LaunchRequestArguments, ProcessEventStartMethod, SetBreakpointsArguments};

fn launch_args(program: Option<&str>) -> LaunchRequestArguments {
    LaunchRequestArguments {
        no_debug: Some(false),
        program: program.map(|p| p.to_string()),
        args: None,
        cwd: None,
        env: None,
    }
}

fn launched_driver() -> DriverGDB {
    let mut driver = DriverGDB::new();
    let outcome = LaunchOutcome::Loaded { class: ResultClass::Done, content: String::new() };
    driver.launch_finished("/bin/app", outcome).unwrap();
    driver
}

fn bp_args(path: &str, lines: &[i64]) -> SetBreakpointsArguments {
    SetBreakpointsArguments { source_path: Some(path.to_string()), lines: lines.to_vec() }
}

#[test]
fn test_launch_gdb() {
    let driver = DriverGDB::new();
    let args = launch_args(Some(r#"C:\Users\eran\Documents\HellWorldCxx\build-Debug\bin\HellWorldCxx.exe"#));
    let work = driver.launch(&args).unwrap();
    assert_eq!(
        work,
        Message::Launch {
            load_command: r#"-file-exec-and-symbols "C:/Users/eran/Documents/HellWorldCxx/build-Debug/bin/HellWorldCxx.exe""#
                .to_string()
        }
    );
}

#[test]
fn driver_launch_without_program_is_missing_executable() {
    let driver = DriverGDB::new();
    assert_eq!(driver.launch(&launch_args(None)), Err(DriverError::MissingExecutable));
    assert_eq!(DriverError::MissingExecutable.message(), "missing executable");
}

#[test]
fn launch_twice_is_refused() {
    let driver = launched_driver();
    assert_eq!(driver.launch(&launch_args(Some("/bin/app"))), Err(DriverError::AlreadyRunning));
}

#[test]
fn send_cmd_raw_on_fresh_driver_is_not_running() {
    let driver = DriverGDB::new();
    assert_eq!(driver.send_cmd_raw("-exec-run"), Err(DriverError::NotRunning));
    assert_eq!(DriverError::NotRunning.message(), "gdb is not running");
}

#[test]
fn send_cmd_raw_on_live_driver_passes_the_line() {
    let driver = launched_driver();
    assert_eq!(driver.send_cmd_raw("-exec-run"), Ok(Message::Command { text: "-exec-run".to_string() }));
}

#[test]
fn launch_finished_done_gives_process_event() {
    let mut driver = DriverGDB::new();
    let outcome = LaunchOutcome::Loaded { class: ResultClass::Done, content: String::new() };
    let body = driver.launch_finished(r"C:\a\b.exe", outcome).unwrap();
    assert!(driver.launched);
    assert_eq!(body.name, "C:/a/b.exe");
    assert_eq!(body.system_process_id, Some(-1));
    assert_eq!(body.is_local_process, Some(true));
    assert_eq!(body.start_method, Some(ProcessEventStartMethod::Launch));
    assert_eq!(body.pointer_size, Some(8));
}

#[test]
fn launch_finished_error_keeps_driver_down() {
    let mut driver = DriverGDB::new();
    let outcome = LaunchOutcome::Loaded { class: ResultClass::Error, content: "msg=\"No such file\"".to_string() };
    let r = driver.launch_finished("/bin/none", outcome);
    assert_eq!(r, Err(DriverError::LoadFailed { content: "msg=\"No such file\"".to_string() }));
    assert!(!driver.launched);
    assert_eq!(driver.launch_finished("/bin/none", LaunchOutcome::SpawnFailed), Err(DriverError::StartFailed));
    assert_eq!(DriverError::StartFailed.message(), "failed to start gdb debugger!");
}

#[test]
fn set_breakpoints_needs_a_live_driver() {
    let mut driver = DriverGDB::new();
    assert_eq!(driver.set_breakpoints(&bp_args("main.c", &[3])), Err(DriverError::NotRunning));
}

#[test]
fn set_breakpoints_needs_a_source() {
    let mut driver = launched_driver();
    let args = SetBreakpointsArguments { source_path: None, lines: vec![3] };
    assert_eq!(driver.set_breakpoints(&args), Err(DriverError::MissingSource));
    assert_eq!(DriverError::MissingSource.message(), "missing source path");
}

#[test]
fn set_breakpoints_with_no_numbers_left_is_exhausted() {
    let mut driver = launched_driver();
    driver.next_number = u64::MAX;
    assert_eq!(driver.set_breakpoints(&bp_args("main.c", &[3])), Err(DriverError::Exhausted));
    assert_eq!(driver.next_number, u64::MAX);
}

#[test]
fn set_breakpoints_inserts_each_line_once() {
    let mut driver = launched_driver();
    let cmds = driver.set_breakpoints(&bp_args(r"src\main.c", &[10, 20, 10])).unwrap();
    assert_eq!(
        cmds,
        vec![
            MiCommand::BreakInsert { source: r"src\main.c".to_string(), line: 10 },
            MiCommand::BreakInsert { source: r"src\main.c".to_string(), line: 20 },
        ]
    );
    assert_eq!(cmds[0].to_text(), "-break-insert \"src/main.c:10\"");
    assert_eq!(driver.breakpoints.len(), 2);
    assert_eq!(driver.next_number, 3);
}

#[test]
fn set_breakpoints_twice_sends_nothing_the_second_time() {
    let mut driver = launched_driver();
    let first = driver.set_breakpoints(&bp_args("main.c", &[5, 7])).unwrap();
    assert_eq!(first.len(), 2);
    let second = driver.set_breakpoints(&bp_args("main.c", &[5, 7])).unwrap();
    assert!(second.is_empty());
}

#[test]
fn set_breakpoints_deletes_lines_no_longer_wanted() {
    let mut driver = launched_driver();
    driver.set_breakpoints(&bp_args("main.c", &[5, 7])).unwrap();
    driver.set_breakpoints(&bp_args("util.c", &[1])).unwrap();
    let cmds = driver.set_breakpoints(&bp_args("main.c", &[7, 9])).unwrap();
    assert_eq!(
        cmds,
        vec![
            MiCommand::BreakDelete { number: 1 },
            MiCommand::BreakInsert { source: "main.c".to_string(), line: 9 },
        ]
    );
    assert_eq!(cmds[0].to_text(), "-break-delete 1");
    let util: Vec<i64> = driver.breakpoints.iter().filter(|b| b.source == "util.c").map(|b| b.line).collect();
    assert_eq!(util, vec![1]);
    let cleared = driver.set_breakpoints(&bp_args("main.c", &[])).unwrap();
    assert_eq!(cleared, vec![MiCommand::BreakDelete { number: 2 }, MiCommand::BreakDelete { number: 4 }]);
}

#[test]
fn process_exit_stops_the_driver() {
    let mut driver = launched_driver();
    driver.process_exited();
    assert_eq!(driver.send_cmd_raw("-exec-run"), Err(DriverError::NotRunning));
}

#[test]
fn launch_without_program_on_live_driver_is_missing_executable() {
    let driver = launched_driver();
    assert_eq!(driver.launch(&launch_args(None)), Err(DriverError::MissingExecutable));
}

#[test]
fn set_breakpoints_moves_lines_with_one_command_each() {
    let mut driver = launched_driver();
    driver.set_breakpoints(&bp_args("main.c", &[10, 20])).unwrap();
    let cmds = driver.set_breakpoints(&bp_args("main.c", &[20, 30])).unwrap();
    assert_eq!(
        cmds,
        vec![
            MiCommand::BreakDelete { number: 1 },
            MiCommand::BreakInsert { source: "main.c".to_string(), line: 30 },
        ]
    );
    let mut lines: Vec<i64> = driver.breakpoints.iter().map(|b| b.line).collect();
    lines.sort();
    assert_eq!(lines, vec![20, 30]);
    assert_eq!(driver.next_number, 4);
}

#[test]
fn set_breakpoints_counts_numbers_only_for_new_lines() {
    let mut driver = launched_driver();
    driver.next_number = u64::MAX - 1;
    let first = driver.set_breakpoints(&bp_args("main.c", &[5, 5])).unwrap();
    assert_eq!(first, vec![MiCommand::BreakInsert { source: "main.c".to_string(), line: 5 }]);
    assert_eq!(driver.next_number, u64::MAX);
    assert_eq!(driver.set_breakpoints(&bp_args("main.c", &[5])), Ok(vec![]));
    assert_eq!(driver.set_breakpoints(&bp_args("main.c", &[5, 6])), Err(DriverError::Exhausted));
    assert_eq!(driver.breakpoints.len(), 1);
}
