//! The frame-loop decisions. The host owns the window and the event loop;
//! the core decides, per event, what the next surface state is and what the
//! host should do. Frame operations are only ever issued in the `Ready`
//! state, and a surface, once ready, always carries positive dimensions.

use vstd::prelude::*;
use crate::plot::SCREEN_DIM_MAX;

verus! {

/// Lifecycle of the presentation surface.
#[derive(Clone, Copy, Debug, PartialEq, Eq, Structural)]
pub enum SurfaceState {
    Uninitialized,
    Ready { width: u32, height: u32 },
}

/// What the host reports to the core.
#[derive(Clone, Copy, Debug, PartialEq, Eq, Structural)]
pub enum HostEvent {
    SurfaceCreated { width: u32, height: u32 },
    Resized { width: u32, height: u32 },
    RedrawRequested,
    CloseRequested,
}

/// What the core asks the host to do in response.
#[derive(Clone, Copy, Debug, PartialEq, Eq, Structural)]
pub enum HostAction {
    Exit,
    ResizeAndRedraw { width: u32, height: u32 },
    Render { width: u32, height: u32 },
    RequestRedraw,
    Ignore,
}

/// A ready surface always has renderable dimensions.
pub open spec fn state_wf(s: SurfaceState) -> bool {
    s matches SurfaceState::Ready { width, height } ==> {
        &&& 1 <= width <= SCREEN_DIM_MAX
        &&& 1 <= height <= SCREEN_DIM_MAX
    }
}

/// The host never reports a degenerate surface size; a zero-sized or
/// oversized surface is a host-contract violation it must reject itself.
pub open spec fn event_wf(e: HostEvent) -> bool {
    match e {
        HostEvent::SurfaceCreated { width, height } => {
            &&& 1 <= width <= SCREEN_DIM_MAX
            &&& 1 <= height <= SCREEN_DIM_MAX
        },
        HostEvent::Resized { width, height } => {
            &&& 1 <= width <= SCREEN_DIM_MAX
            &&& 1 <= height <= SCREEN_DIM_MAX
        },
        HostEvent::RedrawRequested => true,
        HostEvent::CloseRequested => true,
    }
}

/// The state after an event: surface creation readies an uninitialized
/// surface, a resize updates a ready one, everything else keeps the state.
pub open spec fn next_state_spec(s: SurfaceState, e: HostEvent) -> SurfaceState {
    match e {
        HostEvent::SurfaceCreated { width, height } => {
            if s is Uninitialized {
                SurfaceState::Ready { width, height }
            } else {
                s
            }
        },
        HostEvent::Resized { width, height } => {
            if s is Ready {
                SurfaceState::Ready { width, height }
            } else {
                s
            }
        },
        HostEvent::RedrawRequested => s,
        HostEvent::CloseRequested => s,
    }
}

/// The action an event earns: a fresh or resized surface asks for a redraw,
/// a redraw request renders at the ready dimensions, a close request exits;
/// frame work on an unready surface is skipped.
pub open spec fn action_spec(s: SurfaceState, e: HostEvent) -> HostAction {
    match e {
        HostEvent::SurfaceCreated { .. } => {
            if s is Uninitialized {
                HostAction::RequestRedraw
            } else {
                HostAction::Ignore
            }
        },
        HostEvent::Resized { width, height } => {
            if s is Ready {
                HostAction::ResizeAndRedraw { width, height }
            } else {
                HostAction::RequestRedraw
            }
        },
        HostEvent::RedrawRequested => {
            match s {
                SurfaceState::Ready { width, height } => HostAction::Render { width, height },
                SurfaceState::Uninitialized => HostAction::Ignore,
            }
        },
        HostEvent::CloseRequested => HostAction::Exit,
    }
}

/// Advance the surface state machine by one host event. Readiness with
/// positive dimensions is preserved, so every `Render` and
/// `ResizeAndRedraw` action carries renderable dimensions.
pub fn handle_event(state: SurfaceState, event: HostEvent) -> (r: (SurfaceState, HostAction))
    requires
        state_wf(state),
        event_wf(event),
    ensures
        r.0 == next_state_spec(state, event),
        r.1 == action_spec(state, event),
        state_wf(r.0),
{
    match event {
        HostEvent::SurfaceCreated { width, height } => {
            match state {
                SurfaceState::Uninitialized => (
                    SurfaceState::Ready { width, height },
                    HostAction::RequestRedraw,
                ),
                SurfaceState::Ready { .. } => (state, HostAction::Ignore),
            }
        },
        HostEvent::Resized { width, height } => {
            match state {
                SurfaceState::Ready { .. } => (
                    SurfaceState::Ready { width, height },
                    HostAction::ResizeAndRedraw { width, height },
                ),
                SurfaceState::Uninitialized => (state, HostAction::RequestRedraw),
            }
        },
        HostEvent::RedrawRequested => {
            match state {
                SurfaceState::Ready { width, height } => (
                    state,
                    HostAction::Render { width, height },
                ),
                SurfaceState::Uninitialized => (state, HostAction::Ignore),
            }
        },
        HostEvent::CloseRequested => (state, HostAction::Exit),
    }
}

} // verus!
