use vstd::prelude::*;

use crate::message::ChannelError;

verus! {

/// What a wait on a child process reported: still running, exited with a
/// status code, or terminated by a signal. Under the child-result protocol
/// any termination other than a clean exit with status zero is a protocol
/// violation.
pub enum WaitStatus {
    StillAlive,
    Exited(i32),
    Signaled,
}

/// Why a wait on a child failed: the wait primitive itself failed, or the
/// child broke the result protocol by exiting nonzero or dying to a
/// signal.
pub enum WaitError {
    Nix,
    BadIpcError,
}

/// The verdict `poll_finished` owes for a wait status and the child's
/// one-shot message, if one arrived.
pub open spec fn poll_spec<T>(status: WaitStatus, inbox: Option<T>) -> Result<
    Option<Result<T, ChannelError>>,
    WaitError,
> {
    match status {
        WaitStatus::StillAlive => Ok(None),
        WaitStatus::Exited(code) => if code == 0 {
            match inbox {
                Some(v) => Ok(Some(Ok(v))),
                None => Ok(Some(Err(ChannelError::Broken))),
            }
        } else {
            Err(WaitError::BadIpcError)
        },
        WaitStatus::Signaled => Err(WaitError::BadIpcError),
    }
}

/// Non-blocking liveness probe: a child is alive exactly while the wait
/// primitive reports it still running. Nothing is reaped.
pub fn is_alive(status: WaitStatus) -> (r: bool)
    ensures
        r == (status is StillAlive),
{
    match status {
        WaitStatus::StillAlive => true,
        _ => false,
    }
}

/// Decide a non-blocking poll of a child run under the result protocol:
/// nothing while the child is alive; the received value once it exited
/// with status zero (a missing message is a broken one-shot channel); and
/// a protocol violation for a nonzero exit or a signal termination — a
/// child must report a result before a clean exit.
pub fn poll_finished<T>(status: WaitStatus, inbox: Option<T>) -> (r: Result<
    Option<Result<T, ChannelError>>,
    WaitError,
>)
    ensures
        r == poll_spec(status, inbox),
{
    match status {
        WaitStatus::StillAlive => Ok(None),
        WaitStatus::Exited(code) => {
            if code == 0 {
                match inbox {
                    Some(v) => Ok(Some(Ok(v))),
                    None => Ok(Some(Err(ChannelError::Broken))),
                }
            } else {
                Err(WaitError::BadIpcError)
            }
        },
        WaitStatus::Signaled => Err(WaitError::BadIpcError),
    }
}

/// Decide a blocking wait on a child run under the result protocol: the
/// same contract as `poll_finished`, entered once the child has
/// terminated.
pub fn wait<T>(status: WaitStatus, inbox: Option<T>) -> (r: Result<
    Result<T, ChannelError>,
    WaitError,
>)
    requires
        !(status is StillAlive),
    ensures
        match poll_spec(status, inbox) {
            Ok(Some(v)) => r == Ok::<Result<T, ChannelError>, WaitError>(v),
            Ok(None) => false,
            Err(e) => r == Err::<Result<T, ChannelError>, WaitError>(e),
        },
{
    match poll_finished(status, inbox) {
        Ok(Some(v)) => Ok(v),
        Ok(None) => {
            proof {
                assert(false);
            }
            Err(WaitError::Nix)
        },
        Err(e) => Err(e),
    }
}

/// The status a child exits with under the child-result protocol: zero
/// exactly when its result went out on the one-shot channel.
pub fn child_exit_status(sent: bool) -> (r: i32)
    ensures
        sent ==> r == 0,
        !sent ==> r == 1,
{
    if sent {
        0
    } else {
        1
    }
}

} // verus!
