use vstd::prelude::*;

verus! {

/// What one readiness probe of the display backend observed: the backend
/// process already exited (a startup failure), or a trial connection to
/// the display succeeded, or the connection was refused for now.
pub enum DisplayProbe {
    BackendExited,
    Connected,
    Refused,
}

/// The backend quit before the display became ready.
pub enum DisplayError {
    XServerQuit,
}

/// Decide one display-readiness poll: fatal exactly when the backend
/// process has already exited; otherwise report whether the trial
/// connection succeeded, and the caller keeps polling until it did.
pub fn poll_for_x_available(probe: DisplayProbe) -> (r: Result<bool, DisplayError>)
    ensures
        match probe {
            DisplayProbe::BackendExited => r == Err::<bool, DisplayError>(
                DisplayError::XServerQuit,
            ),
            DisplayProbe::Connected => r == Ok::<bool, DisplayError>(true),
            DisplayProbe::Refused => r == Ok::<bool, DisplayError>(false),
        },
{
    match probe {
        DisplayProbe::BackendExited => Err(DisplayError::XServerQuit),
        DisplayProbe::Connected => Ok(true),
        DisplayProbe::Refused => Ok(false),
    }
}

} // verus!
