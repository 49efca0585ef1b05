use vstd::prelude::*;

verus! {

/// The exit status of a successful run.
pub const EXIT_SUCCESS: u8 = 0;

/// The exit status of a failed run.
pub const EXIT_FAILURE: u8 = 1;

/// The exit status when the command cannot be found, as a shell gives it.
pub const EXIT_COMMAND_NOT_FOUND: u8 = 127;

/// How running the command ended.
#[derive(Debug, Clone, Copy, PartialEq, Eq)]
pub enum CommandOutcome {
    /// It exited with this status code.
    Exited(i32),
    /// It was ended by this signal.
    Signaled(i32),
    /// It ended with neither a status code nor a signal.
    Unknown,
    /// There is no such command.
    NotFound,
    /// It could not be started for another reason.
    FailedToStart,
}

/// The exit status that reports `outcome`, the way a shell reports a
/// command: its own status, `128` plus the signal that ended it, `127` when
/// it does not exist, and a failure otherwise; reduced to a byte.
pub open spec fn spec_exit_status(outcome: CommandOutcome) -> u8 {
    match outcome {
        CommandOutcome::Exited(code) => code as u8,
        CommandOutcome::Signaled(signal) => (128 + signal) as u8,
        CommandOutcome::Unknown => EXIT_FAILURE,
        CommandOutcome::NotFound => EXIT_COMMAND_NOT_FOUND,
        CommandOutcome::FailedToStart => EXIT_FAILURE,
    }
}

/// The exit status that reports how running the command ended.
pub fn exit_status(outcome: CommandOutcome) -> (r: u8)
    requires
        outcome matches CommandOutcome::Signaled(signal) ==> signal <= i32::MAX - 128,
    ensures
        r == spec_exit_status(outcome),
{
    match outcome {
        CommandOutcome::Exited(code) => code as u8,
        CommandOutcome::Signaled(signal) => (128 + signal) as u8,
        CommandOutcome::Unknown => EXIT_FAILURE,
        CommandOutcome::NotFound => EXIT_COMMAND_NOT_FOUND,
        CommandOutcome::FailedToStart => EXIT_FAILURE,
    }
}

/// The exit status after the usage text was shown: a failure when it was
/// shown because the input was not piped, a success when it was asked for.
pub fn help_exit_status(refused: bool) -> (r: u8)
    ensures
        r == (if refused { EXIT_FAILURE } else { EXIT_SUCCESS }),
{
    if refused {
        EXIT_FAILURE
    } else {
        EXIT_SUCCESS
    }
}


/// The command's own exit status is passed on unchanged for every status a
/// process can report (0 to 255), so a failing command makes a failing run.
pub proof fn law_command_status_is_passed_on(code: i32)
    requires
        0 <= code <= 255,
    ensures
        spec_exit_status(CommandOutcome::Exited(code)) == code,
{
    assert((code as u8) as i32 == code) by (bit_vector)
        requires
            0 <= code <= 255,
    ;
}

/// A command ended by signal `s` (1 to 127) gives 128 plus `s`; a missing
/// command gives 127; a command that could not be run, or ended with
/// neither status nor signal, gives 1.
pub proof fn law_signal_and_failure_statuses(signal: i32)
    requires
        0 < signal < 128,
    ensures
        spec_exit_status(CommandOutcome::Signaled(signal)) == 128 + signal,
        spec_exit_status(CommandOutcome::NotFound) == 127,
        spec_exit_status(CommandOutcome::FailedToStart) == 1,
        spec_exit_status(CommandOutcome::Unknown) == 1,
{
    let total: i32 = (128 + signal) as i32;
    assert((total as u8) as i32 == total) by (bit_vector)
        requires
            128 < total < 256,
    ;
}


/// Any exit code is reported modulo 256, as a process's status byte is.
pub proof fn law_command_status_is_taken_modulo_256(code: i32)
    ensures
        spec_exit_status(CommandOutcome::Exited(code)) as int == (code as int) % 256,
{
    let low: i32 = code & 255;
    assert((code as u8) as i32 == low) by (bit_vector)
        requires
            low == code & 255,
    ;
    assert(0 <= low < 256) by (bit_vector)
        requires
            low == code & 255,
    ;
    assert(code == (code >> 8) * 256 + low) by (bit_vector)
        requires
            low == code & 255,
    ;
    let high = (code >> 8) as int;
    assert((code as int) == high * 256 + low as int);
    assert((high * 256 + low as int) % 256 == low as int) by (nonlinear_arith)
        requires
            0 <= low < 256,
    ;
}

} // verus!
