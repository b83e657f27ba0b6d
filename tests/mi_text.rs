use dapd::mi::{correlate, exec_and_symbols_command, int_to_text, nat_to_text, normalize_path, MiCommand, Record, ResultClass};

#[test]
fn normalize_path_is_idempotent_across_separators() {
    let a = normalize_path(r"C:\a\b.exe");
    let b = normalize_path("C:/a/b.exe");
    assert_eq!(a, "C:/a/b.exe");
    assert_eq!(a, b);
    assert_eq!(normalize_path(&a), a);
    assert_eq!(normalize_path(""), "");
}

#[test]
fn load_command_quotes_the_normalized_path() {
    assert_eq!(exec_and_symbols_command(r"C:\a\b.exe"), "-file-exec-and-symbols \"C:/a/b.exe\"");
}

#[test]
fn decimal_text() {
    assert_eq!(nat_to_text(0), "0");
    assert_eq!(nat_to_text(907), "907");
    assert_eq!(nat_to_text(u64::MAX), "18446744073709551615");
    assert_eq!(int_to_text(-42), "-42");
    assert_eq!(int_to_text(i64::MIN), "-9223372036854775808");
    assert_eq!(int_to_text(i64::MAX), "9223372036854775807");
}

#[test]
fn breakpoint_command_text() {
    let insert = MiCommand::BreakInsert { source: r"d:\src\x.cpp".to_string(), line: 120 };
    assert_eq!(insert.to_text(), "-break-insert \"d:/src/x.cpp:120\"");
    assert_eq!(MiCommand::BreakDelete { number: 12 }.to_text(), "-break-delete 12");
}

#[test]
fn correlate_keeps_async_and_stops_at_result() {
    let mut skipped = Vec::new();
    let stream = Record::Stream { text: "GNU gdb".to_string() };
    let notify = Record::Async { class: "thread-group-added".to_string(), content: "id=\"i1\"".to_string() };
    let result = Record::Result { class: ResultClass::Done, content: String::new() };
    assert_eq!(correlate(&mut skipped, stream), None);
    assert_eq!(correlate(&mut skipped, notify.clone()), None);
    assert_eq!(correlate(&mut skipped, result.clone()), Some(result));
    assert_eq!(skipped, vec![notify]);
}
