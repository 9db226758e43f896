use bigos::testing::{core_log_prefix, running_tests_line, QemuExitCode};
use bigos::text::push_decimal;
use bigos::xtask::{
    cflags, describe_exit_code, discover_test_bins, kernel_bin, kernel_max_cores, parse_core_id, parse_pid,
    llvm_tool_candidates, merge_serial_output, parse_task, Task, qemu_flags, qemu_smp_arg, route_log_lines, TestTally, select_tests, split_extra, strip_ansi, test_passed,
    TEST_FAILED_EXIT, TEST_SUCCESS_EXIT,
};

#[test]
fn max_cores_from_source() {
    let src = "pub const LIMINE_BASE_REVISION: u64 = 5;\npub const MAX_CORES: u8 = 4;\npub const AP_CORE_COUNT: u8 = MAX_CORES - 1;\n";
    assert_eq!(kernel_max_cores(src), 4);
    assert_eq!(kernel_max_cores("    pub const MAX_CORES: u8 = 16;  \r\n"), 16);
    // The type's digits are not read: only those after the `=`.
    assert_eq!(kernel_max_cores("pub const MAX_CORES: u8 = 12;"), 12);
    assert_eq!(kernel_max_cores("fn main() {}\n"), 4);
    // Out of range or unreadable counts fall through to the next line, then to 4.
    assert_eq!(kernel_max_cores("pub const MAX_CORES: u8 = 65;\npub const MAX_CORES: u8 = 2;"), 2);
    assert_eq!(kernel_max_cores("pub const MAX_CORES: u8 = 0;"), 4);
    assert_eq!(kernel_max_cores("pub const MAX_CORES: u8 = 300;"), 4);
    assert_eq!(kernel_max_cores("pub const MAX_CORES: u8;"), 4);
    assert_eq!(kernel_max_cores("pub const MAX_CORES = 1_0;"), 10);
    assert_eq!(kernel_max_cores(""), 4);
}

#[test]
fn smp_argument() {
    assert_eq!(qemu_smp_arg(4), "cores=4,threads=1");
    assert_eq!(qemu_smp_arg(64), "cores=64,threads=1");
}

#[test]
fn ansi_sequences_are_stripped() {
    assert_eq!(strip_ansi("\x1b[32mok\x1b[0m done"), "ok done");
    assert_eq!(strip_ansi("plain text"), "plain text");
    assert_eq!(strip_ansi("\x1b[1;31"), "");
    assert_eq!(strip_ansi("a\x1bb"), "a\x1bb");
    assert_eq!(strip_ansi("\x1b\x1b[mX"), "\x1bX");
    assert_eq!(strip_ansi(""), "");
    assert_eq!(strip_ansi("é\x1b[2Jü"), "éü");
}

#[test]
fn core_ids_of_lines() {
    assert_eq!(parse_core_id("[Core 3] hello"), Some(3));
    assert_eq!(parse_core_id("[Core 12]"), Some(12));
    assert_eq!(parse_core_id("[Core ] x"), None);
    assert_eq!(parse_core_id("[Core 7"), None);
    assert_eq!(parse_core_id("Core 1] x"), None);
    assert_eq!(parse_core_id("[Core 99999999999999999999999] x"), None);
}

#[test]
fn pids_of_lines() {
    assert_eq!(parse_pid("[pid=42] hi"), Some(42));
    assert_eq!(parse_pid("log [pid=7]"), Some(7));
    assert_eq!(parse_pid("[pid=+5]"), Some(5));
    assert_eq!(parse_pid("[pid=-5]"), None);
    assert_eq!(parse_pid("[pid=5"), None);
    assert_eq!(parse_pid("[pid=]"), None);
    assert_eq!(parse_pid("[pid=4294967296]"), None);
    assert_eq!(parse_pid("[pid=4294967295]"), Some(4294967295));
    assert_eq!(parse_pid("no tag"), None);
}

#[test]
fn kernel_tags_are_read_back() {
    for id in [0u8, 3, 10, 255] {
        let line = format!("{}something", core_log_prefix(id));
        assert_eq!(parse_core_id(&line), Some(id as usize));
    }
    assert_eq!(core_log_prefix(2), "[Core 2] ");
}

#[test]
fn extra_arguments_split_at_double_dash() {
    let args: Vec<String> = vec!["--release".into(), "--".into(), "-W".into(), "--".into()];
    let (cargo, lint) = split_extra(&args);
    assert_eq!(cargo, &args[..1]);
    assert_eq!(lint, &args[2..]);
    let none: Vec<String> = vec!["a".into(), "b".into()];
    let (cargo, lint) = split_extra(&none);
    assert_eq!(cargo.len(), 2);
    assert!(lint.is_empty());
    let empty: Vec<String> = vec![];
    let (cargo, lint) = split_extra(&empty);
    assert!(cargo.is_empty() && lint.is_empty());
}

#[test]
fn compile_flags_and_paths() {
    let f = cflags();
    assert_eq!(f.len(), 13);
    assert_eq!(f[0], "--target=x86_64-unknown-elf");
    assert_eq!(f[12], "-g");
    assert_eq!(kernel_bin(false), vec!["target", "x86_64-unknown-none", "debug", "kernel"]);
    assert_eq!(kernel_bin(true), vec!["target", "x86_64-unknown-none", "release", "kernel"]);
}

#[test]
fn exit_statuses() {
    assert_eq!(QemuExitCode::Success.code(), 0x10);
    assert_eq!(QemuExitCode::Failed.code(), 0x11);
    assert_eq!(QemuExitCode::Success.process_exit_status(), TEST_SUCCESS_EXIT);
    assert_eq!(QemuExitCode::Failed.process_exit_status(), TEST_FAILED_EXIT);
    assert!(test_passed(Some(QemuExitCode::Success.process_exit_status())));
    assert!(!test_passed(Some(QemuExitCode::Failed.process_exit_status())));
    assert!(!test_passed(None));
    assert_eq!(describe_exit_code(None), "none (timeout)");
    assert_eq!(describe_exit_code(Some(0)), "0 (unexpected exit)");
    assert_eq!(describe_exit_code(Some(35)), "35 (kernel reported failure)");
    assert_eq!(describe_exit_code(Some(1)), "1");
    assert_eq!(describe_exit_code(Some(-9)), "-9");
    assert_eq!(describe_exit_code(Some(i32::MIN)), "-2147483648");
}

#[test]
fn test_selection() {
    let names: Vec<String> = vec!["test_heap".into(), "test_elf_loader".into(), "test_heap_big".into()];
    assert_eq!(select_tests(names.clone(), &vec![]), names);
    assert_eq!(select_tests(names.clone(), &vec!["heap".into()]), vec!["test_heap".to_string(), "test_heap_big".to_string()]);
    assert_eq!(select_tests(names.clone(), &vec!["elf".into(), "big".into()]), vec!["test_elf_loader".to_string(), "test_heap_big".to_string()]);
    assert!(select_tests(names, &vec!["nothing".into()]).is_empty());
}

#[test]
fn log_routing() {
    let text = "[Core 0] boot\r\n[Core 1] ap up\n[pid=3] hello \n[Core 1] [pid=3]  x\nplain\n[Core 9] too far\n[pid=4]w\n";
    let r = route_log_lines(text, 4);
    assert_eq!(r.core_logs.len(), 4);
    assert_eq!(r.core_logs[0], vec!["[Core 0] boot".to_string()]);
    assert_eq!(r.core_logs[1], vec!["[Core 1] ap up".to_string(), "[Core 1] [pid=3]  x".to_string()]);
    assert!(r.core_logs[2].is_empty());
    assert!(r.core_logs[3].is_empty());
    assert_eq!(r.pid_logs.len(), 2);
    assert_eq!(r.pid_logs[0].pid, 3);
    assert_eq!(r.pid_logs[0].lines, vec!["hello".to_string(), "[Core 1]   x".to_string()]);
    assert_eq!(r.pid_logs[1].pid, 4);
    assert_eq!(r.pid_logs[1].lines, vec!["w".to_string()]);
}

#[test]
fn text_helpers() {
    assert_eq!(running_tests_line(3), "Running 3 test(s)");
    let mut s = String::from("n=");
    push_decimal(&mut s, 0);
    push_decimal(&mut s, 1234567890123);
    assert_eq!(s, "n=01234567890123");
}

#[test]
fn test_binaries_are_found_and_sorted() {
    let files: Vec<String> = vec![
        "test_stack_overflow.rs".into(),
        "main.rs".into(),
        "test_heap.rs".into(),
        "test_basic_boot.rs".into(),
        "test_notes.txt".into(),
        "test_.rs".into(),
        "Test_upper.rs".into(),
        "test_Heap.rs".into(),
    ];
    assert_eq!(
        discover_test_bins(&files),
        vec!["test_", "test_Heap", "test_basic_boot", "test_heap", "test_stack_overflow"]
    );
    assert!(discover_test_bins(&vec![]).is_empty());
}

#[test]
fn second_serial_port_is_appended_when_not_blank() {
    assert_eq!(merge_serial_output("boot\nok".to_string(), "pid log\n"), "boot\nok\npid log\n");
    assert_eq!(merge_serial_output("boot".to_string(), "  \n\t"), "boot");
    assert_eq!(merge_serial_output("boot".to_string(), ""), "boot");
    assert_eq!(merge_serial_output(String::new(), "x"), "\nx");
}

#[test]
fn tally_of_a_run() {
    let mut t = TestTally::new();
    assert!(t.all_passed());
    assert!(t.record("test_basic_boot".to_string(), Some(TEST_SUCCESS_EXIT)));
    assert!(t.all_passed());
    assert!(!t.record("test_heap".to_string(), Some(TEST_FAILED_EXIT)));
    assert!(!t.record("test_hang".to_string(), None));
    assert!(t.record("test_gdt".to_string(), Some(33)));
    assert!(!t.all_passed());
    assert_eq!(t.passed, vec!["test_basic_boot".to_string(), "test_gdt".to_string()]);
    assert_eq!(
        t.failed,
        vec![("test_heap".to_string(), Some(TEST_FAILED_EXIT)), ("test_hang".to_string(), None)]
    );
}

#[test]
fn declared_core_count_is_read_back() {
    for n in [1u8, 4, 9, 10, 64] {
        let src = format!("\t  pub const MAX_CORES: u8 = {};\n", n);
        assert_eq!(kernel_max_cores(&src), n);
        assert_eq!(qemu_smp_arg(kernel_max_cores(&src)), format!("cores={},threads=1", n));
    }
}

#[test]
fn stripping_keeps_plain_text_and_drops_sequences() {
    let plain = "[Core 0] booted: ok";
    assert_eq!(strip_ansi(plain), plain);
    assert_eq!(strip_ansi(&format!("{}\x1b[1;32mdone", plain)), format!("{}done", plain));
    assert_eq!(strip_ansi("\x1b[0;1;33mwarn\x1b[0m"), "warn");
    for s in ["", "abc", "\x1b[", "\x1b[12", "x\x1b[3mY\x1b"] {
        assert!(strip_ansi(s).chars().count() <= s.chars().count());
    }
}

#[test]
fn qemu_flags_from_the_setting() {
    assert_eq!(qemu_flags(None), vec!["-m".to_string(), "2G".to_string()]);
    assert_eq!(
        qemu_flags(Some("  -m 4G\t-enable-kvm\n")),
        vec!["-m".to_string(), "4G".to_string(), "-enable-kvm".to_string()]
    );
    assert!(qemu_flags(Some("")).is_empty());
    assert!(qemu_flags(Some(" \u{3000} ")).is_empty());
    assert_eq!(qemu_flags(Some("a\u{2003}b")), vec!["a".to_string(), "b".to_string()]);
    for s in ["x  y z", " lead", "trail ", "-smp 2 -m 1G"] {
        let expected: Vec<String> = s.split_whitespace().map(str::to_string).collect();
        assert_eq!(qemu_flags(Some(s)), expected);
    }
}

#[test]
fn llvm_tool_search_order() {
    let c = llvm_tool_candidates("ld.lld");
    assert_eq!(c.len(), 21);
    assert_eq!(c[0], "/usr/lib/llvm30/bin/ld.lld");
    assert_eq!(c[1], "/usr/lib/llvm29/bin/ld.lld");
    assert_eq!(c[20], "/usr/lib/llvm10/bin/ld.lld");
    assert_eq!(llvm_tool_candidates("llvm-ar")[16], "/usr/lib/llvm14/bin/llvm-ar");
}

#[test]
fn task_names() {
    assert_eq!(parse_task(None), Some(Task::Iso));
    assert_eq!(parse_task(Some("build")), Some(Task::Build));
    assert_eq!(parse_task(Some("iso")), Some(Task::Iso));
    assert_eq!(parse_task(Some("run-hdd")), Some(Task::RunHdd));
    assert_eq!(parse_task(Some("run-bios")), Some(Task::RunBios));
    assert_eq!(parse_task(Some("fat32-image")), Some(Task::Fat32Image));
    assert_eq!(parse_task(Some("clippy")), Some(Task::Clippy));
    assert_eq!(parse_task(Some("test")), Some(Task::Test));
    assert_eq!(parse_task(Some("Test")), None);
    assert_eq!(parse_task(Some("")), None);
    assert_eq!(parse_task(Some("run ")), None);
}

#[test]
fn text_without_escape_bracket_is_kept() {
    for s in ["a\x1bb", "\x1b", "x\x1b", "[\x1b]", "\x1b\x1b"] {
        assert_eq!(strip_ansi(s), s);
    }
    // What comes back is the input with characters left out.
    let s = "a\x1b[1mb\x1bc\x1b[0;2Kd";
    let out: Vec<char> = strip_ansi(s).chars().collect();
    assert_eq!(strip_ansi(s), "ab\x1bcd");
    let mut it = s.chars();
    for c in out {
        assert!(it.any(|d| d == c));
    }
}
