use vstd::prelude::*;

use crate::freedesktop::Entry;
use crate::supervisor::{poll_finished, poll_spec, WaitStatus};

verus! {

/// Why the orchestration stops with a fatal error: the asset server died,
/// the renderer broke the child-result protocol, its one-shot channel
/// broke, or it reported an internal failure of its own.
pub enum OrchestrationError {
    AssetServerDied,
    RendererViolation,
    RendererChannelBroken,
    RendererFailed(String),
}

/// What one orchestration pass decides: keep polling, launch the chosen
/// entry, or stop with a fatal error. A failing decision says whether the
/// renderer is still to be terminated during teardown.
pub enum TickAction {
    Continue,
    Launch(Entry),
    Fail { error: OrchestrationError, kill_renderer: bool },
}

/// The decision owed for one orchestration pass.
pub open spec fn tick_spec(
    assets_alive: bool,
    renderer: WaitStatus,
    inbox: Option<Result<Entry, String>>,
) -> TickAction {
    if !assets_alive {
        TickAction::Fail { error: OrchestrationError::AssetServerDied, kill_renderer: true }
    } else {
        match poll_spec(renderer, inbox) {
            Ok(None) => TickAction::Continue,
            Ok(Some(Ok(Ok(entry)))) => TickAction::Launch(entry),
            Ok(Some(Ok(Err(msg)))) => TickAction::Fail {
                error: OrchestrationError::RendererFailed(msg),
                kill_renderer: false,
            },
            Ok(Some(Err(_))) => TickAction::Fail {
                error: OrchestrationError::RendererChannelBroken,
                kill_renderer: false,
            },
            Err(_) => TickAction::Fail {
                error: OrchestrationError::RendererViolation,
                kill_renderer: false,
            },
        }
    }
}

/// Decide one pass of the orchestration loop, from the asset server's
/// liveness, the renderer's wait status, and the renderer's one-shot
/// message if one arrived. A dead asset server is fatal at once, and its
/// teardown still has the live renderer to terminate. A drain failure of
/// the authentication service is not fatal to the loop: the caller logs it
/// and polls again.
pub fn orchestrate_tick(
    assets_alive: bool,
    renderer: WaitStatus,
    inbox: Option<Result<Entry, String>>,
) -> (r: TickAction)
    ensures
        r == tick_spec(assets_alive, renderer, inbox),
        !assets_alive ==> r == (TickAction::Fail {
            error: OrchestrationError::AssetServerDied,
            kill_renderer: true,
        }),
{
    if !assets_alive {
        return TickAction::Fail { error: OrchestrationError::AssetServerDied, kill_renderer: true };
    }
    match poll_finished(renderer, inbox) {
        Ok(None) => TickAction::Continue,
        Ok(Some(Ok(Ok(entry)))) => TickAction::Launch(entry),
        Ok(Some(Ok(Err(msg)))) => TickAction::Fail {
            error: OrchestrationError::RendererFailed(msg),
            kill_renderer: false,
        },
        Ok(Some(Err(_))) => TickAction::Fail {
            error: OrchestrationError::RendererChannelBroken,
            kill_renderer: false,
        },
        Err(_) => TickAction::Fail {
            error: OrchestrationError::RendererViolation,
            kill_renderer: false,
        },
    }
}

} // verus!
