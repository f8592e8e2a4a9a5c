//! What a POSIX wait status says of how a job's process ended.
use vstd::prelude::*;

verus! {

/// The low seven bits of a wait status: 0 when the process exited, the
/// terminating signal when it was killed, 0x7f when it stopped.
pub open spec fn wait_signal_bits(status: i32) -> i32 {
    status & 0x7f
}

/// The exit code byte of a wait status.
pub open spec fn wait_exit_byte(status: i32) -> i32 {
    (status >> 8) & 0xff
}

/// An exit code as a signed byte, a killing signal as its negation, and -1
/// for anything else (a stopped or continued process).
pub open spec fn normalized_wait_status(status: i32) -> int {
    let signal = wait_signal_bits(status);
    let code = wait_exit_byte(status);
    if signal == 0 {
        if code < 128 { code as int } else { code - 256 }
    } else if signal != 0x7f {
        -signal
    } else {
        -1
    }
}

/// The exit status of a job's process from the status `waitpid` reported:
/// the exit code reinterpreted as `i8` when it exited, the negated signal
/// when a signal killed it, -1 otherwise.
pub fn normalize_wait_status(status: i32) -> (code: i8)
    ensures
        code == normalized_wait_status(status),
{
    let signal = status & 0x7f;
    let code = (status >> 8) & 0xff;
    assert(0 <= status & 0x7f <= 0x7f) by (bit_vector);
    assert(0 <= (status >> 8) & 0xff <= 0xff) by (bit_vector);
    if signal == 0 {
        if code < 128 {
            code as i8
        } else {
            (code - 256) as i8
        }
    } else if signal != 0x7f {
        -(signal as i8)
    } else {
        -1
    }
}

} // verus!
