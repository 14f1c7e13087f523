use proc_memory::resolve::{
    check_handle, check_pid, mem_path, parse_pidof_output, parse_tlist_output, pidof_command,
    tasklist_filter,
};
use proc_memory::ProcError;

#[test]
fn pidof_output_gives_pid() {
    assert_eq!(parse_pidof_output(b"1234\n"), Ok(1234));
    assert_eq!(parse_pidof_output(b"  \t42 17\n"), Ok(42));
    assert_eq!(parse_pidof_output(b"2147483647"), Ok(2147483647));
}

#[test]
fn pidof_nothing_printed_is_not_found() {
    assert_eq!(parse_pidof_output(b""), Err(ProcError::NotFound));
    assert_eq!(parse_pidof_output(b"\n"), Err(ProcError::NotFound));
}

#[test]
fn pidof_zero_or_oversized_is_not_found() {
    assert_eq!(parse_pidof_output(b"0\n"), Err(ProcError::NotFound));
    assert_eq!(parse_pidof_output(b"2147483648"), Err(ProcError::NotFound));
    assert_eq!(parse_pidof_output(b"99999999999999999999"), Err(ProcError::NotFound));
    assert_eq!(parse_pidof_output(b"pid 12"), Err(ProcError::NotFound));
}

#[test]
fn tlist_output_gives_pid() {
    let line = b"\"notepad.exe\",\"5512\",\"Console\",\"1\",\"12,345 K\"\r\n";
    assert_eq!(parse_tlist_output(line), Ok(5512));
    assert_eq!(parse_tlist_output(b"a,77"), Ok(77));
    assert_eq!(parse_tlist_output(b"a,\"4294967295\",b"), Ok(4294967295));
}

#[test]
fn tlist_no_match_is_not_found() {
    let info = b"INFO: No tasks are running which match the specified criteria.\r\n";
    assert_eq!(parse_tlist_output(info), Err(ProcError::NotFound));
    assert_eq!(parse_tlist_output(b""), Err(ProcError::NotFound));
    assert_eq!(parse_tlist_output(b"a,\"\",b"), Err(ProcError::NotFound));
    assert_eq!(parse_tlist_output(b"a,\"0\",b"), Err(ProcError::NotFound));
    assert_eq!(parse_tlist_output(b"a,\"12x\",b"), Err(ProcError::NotFound));
    assert_eq!(parse_tlist_output(b"a,\"4294967296\",b"), Err(ProcError::NotFound));
}

#[test]
fn commands_and_paths() {
    assert_eq!(pidof_command("nonexistent-process-xyz"), "pidof -s 'nonexistent-process-xyz'");
    assert_eq!(tasklist_filter("notepad"), "IMAGENAME eq notepad.exe");
    assert_eq!(mem_path(1234), "/proc/1234/mem");
    assert_eq!(mem_path(0), "/proc/0/mem");
    assert_eq!(mem_path(4294967295), "/proc/4294967295/mem");
}

#[test]
fn zero_pid_and_null_handle_are_refused() {
    assert_eq!(check_pid(0), Err(ProcError::NotFound));
    assert_eq!(check_pid(17), Ok(17));
    assert_eq!(check_handle(0), Err(ProcError::AccessDenied));
    assert_eq!(check_handle(-1), Ok(-1));
}

#[test]
fn pidof_command_quotes_the_name_for_the_shell() {
    assert_eq!(pidof_command("x; touch /tmp/pwned"), "pidof -s 'x; touch /tmp/pwned'");
    assert_eq!(pidof_command("two words"), "pidof -s 'two words'");
    assert_eq!(pidof_command("it's"), "pidof -s 'it'\\''s'");
    assert_eq!(pidof_command("$(id)`id`"), "pidof -s '$(id)`id`'");
    assert_eq!(pidof_command(""), "pidof -s ''");
    assert_eq!(pidof_command("\u{e9}t\u{e9}"), "pidof -s '\u{e9}t\u{e9}'");
}
