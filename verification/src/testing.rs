//! How the kernel reports test results to the host: the exit codes written to
//! QEMU's debug-exit port, the exit status that QEMU then returns, and the tag
//! that marks each log line with the core that printed it.

use vstd::prelude::*;
use vstd::string::StringExecFns;
use crate::text::{all_digits, decimal, is_digit, lemma_decimal_digits, push_decimal};
use crate::xtask::{core_id_of, core_tag, first_non_digit, is_core_line, parse_unsigned, TEST_FAILED_EXIT, TEST_SUCCESS_EXIT};

verus! {

/// The codes that the kernel writes to QEMU's debug-exit port.
#[derive(Clone, Copy, PartialEq, Eq, Structural)]
pub enum QemuExitCode {
    Success,
    Failed,
}

/// The value written to the debug-exit port.
pub open spec fn exit_code_value(c: QemuExitCode) -> u32 {
    match c {
        QemuExitCode::Success => 0x10,
        QemuExitCode::Failed => 0x11,
    }
}

/// The exit status of QEMU after `value` was written to its debug-exit port.
pub open spec fn qemu_exit_status(value: u32) -> int {
    value as int * 2 + 1
}

impl QemuExitCode {
    /// The value written to the debug-exit port.
    pub fn code(&self) -> (r: u32)
        ensures
            r == exit_code_value(*self),
    {
        match self {
            QemuExitCode::Success => 0x10,
            QemuExitCode::Failed => 0x11,
        }
    }

    /// The exit status that QEMU returns for this code (`(code << 1) | 1`).
    pub fn process_exit_status(&self) -> (r: i32)
        ensures
            r == qemu_exit_status(exit_code_value(*self)),
    {
        let c = self.code();
        (c * 2 + 1) as i32
    }
}

/// The build tool reads the kernel's reports right: the status that QEMU
/// returns for the success code is the one it counts as a pass, and the one
/// for the failure code is its "kernel reported failure".
pub proof fn lemma_exit_codes_agree()
    ensures
        qemu_exit_status(exit_code_value(QemuExitCode::Success)) == TEST_SUCCESS_EXIT,
        qemu_exit_status(exit_code_value(QemuExitCode::Failed)) == TEST_FAILED_EXIT,
{
}

/// The tag with which the kernel starts a line printed by core `core_id`.
pub fn core_log_prefix(core_id: u8) -> (r: String)
    ensures
        r@ == core_tag(core_id as nat),
{
    let mut s = String::from_str("[Core ");
    push_decimal(&mut s, core_id as u64);
    s.append("] ");
    s
}

/// The line with which a test run starts.
pub fn running_tests_line(count: usize) -> (r: String)
    ensures
        r@ == "Running "@ + decimal(count as nat) + " test(s)"@,
{
    let mut s = String::from_str("Running ");
    push_decimal(&mut s, count as u64);
    s.append(" test(s)");
    s
}

/// The build tool recovers the core id that the kernel tagged a line with:
/// whatever follows the tag, reading the core id of the line gives `core_id`,
/// so the line goes to the log of that core.
pub proof fn lemma_core_tag_parses(core_id: u8, rest: Seq<char>)
    ensures
        core_id_of(core_tag(core_id as nat) + rest) == Some(core_id as nat),
        is_core_line(core_tag(core_id as nat) + rest, core_id as nat),
{
    reveal_strlit("[Core ");
    reveal_strlit("] ");
    let d = decimal(core_id as nat);
    lemma_decimal_digits(core_id as nat);
    let line = core_tag(core_id as nat) + rest;
    assert(line.subrange(0, 6) =~= "[Core "@);
    let after = line.subrange(6, line.len() as int);
    assert(after =~= d + ("] "@ + rest));
    assert(after.subrange(0, d.len() as int) =~= d);
    assert(after[d.len() as int] == ']');
    assert forall|k: int| 0 <= k <= d.len() implies first_non_digit(after, k) == Some(d.len() as int) by {
        lemma_first_non_digit(after, d, k);
    }
    assert(after.subrange(0, d.len() as int) =~= d);
    assert(d[0] != '+') by {
        assert(is_digit(d[0]));
    }
}

proof fn lemma_first_non_digit(after: Seq<char>, d: Seq<char>, k: int)
    requires
        0 <= k <= d.len(),
        all_digits(d),
        d.len() < after.len(),
        after.subrange(0, d.len() as int) == d,
        !is_digit(after[d.len() as int]),
    ensures
        first_non_digit(after, k) == Some(d.len() as int),
    decreases d.len() - k,
{
    if k < d.len() {
        assert(after[k] == d[k]);
        lemma_first_non_digit(after, d, k + 1);
    }
}

} // verus!
