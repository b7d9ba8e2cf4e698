//! The decisions of the overlay's event loop: when the window lets clicks
//! through to the desktop, when the surface is (re)configured, what to do
//! with each acquired frame, and how each window event is handled. The loop
//! itself, which talks to the window system and the GPU, performs the
//! actions decided here.

use vstd::prelude::*;

verus! {

/// Whether the window catches the cursor (hit testing on) or lets it through
/// to what lies below, and whether the platform supports switching at all.
#[derive(Clone, Copy, Debug, PartialEq, Eq, Structural)]
pub struct CursorHittest {
    pub enabled: bool,
    pub available: bool,
}

/// The hit-testing state the overlay wants: on while the GUI uses the
/// pointer, otherwise on exactly when the cursor is over an interactive
/// region; `None` when the cursor position is unknown.
pub open spec fn desired_hittest(ui_using_pointer: bool, cursor_hit: Option<bool>) -> Option<bool> {
    if ui_using_pointer {
        Some(true)
    } else {
        cursor_hit
    }
}

impl CursorHittest {
    /// The initial state: hit testing on, switching assumed available.
    pub fn new() -> (h: CursorHittest)
        ensures
            h.enabled,
            h.available,
    {
        CursorHittest { enabled: true, available: true }
    }

    /// The hit-testing state to ask the window for this frame, if any: none
    /// once switching proved unavailable, none when the desired state is
    /// unknown or already in force.
    pub open spec fn spec_request(self, ui_using_pointer: bool, cursor_hit: Option<bool>) -> Option<bool> {
        if !self.available {
            None
        } else {
            match desired_hittest(ui_using_pointer, cursor_hit) {
                Some(d) => if d == self.enabled {
                    None
                } else {
                    Some(d)
                },
                None => None,
            }
        }
    }

    /// Decides the hit-testing state to ask the window for.
    pub fn request(&self, ui_using_pointer: bool, cursor_hit: Option<bool>) -> (r: Option<bool>)
        ensures
            r == self.spec_request(ui_using_pointer, cursor_hit),
    {
        if !self.available {
            return None;
        }
        let desired = if ui_using_pointer {
            Some(true)
        } else {
            cursor_hit
        };
        match desired {
            Some(d) => if d == self.enabled {
                None
            } else {
                Some(d)
            },
            None => None,
        }
    }

    /// Records the window's answer to a request for `requested`: on success
    /// the state is in force; on failure switching is marked unavailable.
    pub fn record(&mut self, requested: bool, succeeded: bool)
        ensures
            succeeded ==> *final(self) == (CursorHittest { enabled: requested, ..*old(self) }),
            !succeeded ==> *final(self) == (CursorHittest { available: false, ..*old(self) }),
    {
        if succeeded {
            self.enabled = requested;
        } else {
            self.available = false;
        }
    }
}

/// Once switching proved unavailable the overlay never asks again, and the
/// overlay never asks for the state already in force.
pub proof fn lemma_hittest_requests(h: CursorHittest, ui_using_pointer: bool, cursor_hit: Option<bool>)
    ensures
        !h.available ==> h.spec_request(ui_using_pointer, cursor_hit) is None,
        h.spec_request(ui_using_pointer, cursor_hit) matches Some(d) ==> d != h.enabled,
        h.spec_request(ui_using_pointer, cursor_hit) matches Some(d) ==> desired_hittest(
            ui_using_pointer,
            cursor_hit,
        ) == Some(d),
{
}

/// When switching is available the overlay asks for what the frame calls
/// for whenever that differs from the state in force: hit testing on while
/// the panel uses the pointer, and otherwise on or off as the cursor is over
/// an interactive region or not. Nothing is asked when the cursor position is
/// unknown and the panel does not use the pointer.
pub proof fn lemma_hittest_follows_cursor(h: CursorHittest, ui_using_pointer: bool, cursor_hit: Option<bool>)
    ensures
        h.available && ui_using_pointer && !h.enabled ==> h.spec_request(ui_using_pointer, cursor_hit)
            == Some(true),
        h.available && !ui_using_pointer && cursor_hit == Some(true) && !h.enabled ==> h.spec_request(
            ui_using_pointer,
            cursor_hit,
        ) == Some(true),
        h.available && !ui_using_pointer && cursor_hit == Some(false) && h.enabled ==> h.spec_request(
            ui_using_pointer,
            cursor_hit,
        ) == Some(false),
        !ui_using_pointer && cursor_hit is None ==> h.spec_request(ui_using_pointer, cursor_hit) is None,
        h.spec_request(ui_using_pointer, cursor_hit) matches Some(d) ==> h.available && d != h.enabled
            && (d == true <==> (ui_using_pointer || cursor_hit == Some(true))),
{
}

/// The size the surface is configured with, and whether it has been
/// configured yet (nothing is drawn before that).
#[derive(Clone, Copy, Debug, PartialEq, Eq, Structural)]
pub struct SurfaceSize {
    pub width: u32,
    pub height: u32,
    pub configured: bool,
}

impl SurfaceSize {
    /// A surface of the window's initial size, not yet configured.
    pub fn new(width: u32, height: u32) -> (s: SurfaceSize)
        ensures
            s == (SurfaceSize { width, height, configured: false }),
    {
        SurfaceSize { width, height, configured: false }
    }

    /// Takes a new window size. A size with a zero side is ignored;
    /// otherwise the surface takes it and counts as configured. Returns
    /// whether the surface must be configured anew.
    pub fn resize(&mut self, width: u32, height: u32) -> (reconfigure: bool)
        ensures
            reconfigure == (width > 0 && height > 0),
            reconfigure ==> *final(self) == (SurfaceSize { width, height, configured: true }),
            !reconfigure ==> *final(self) == *old(self),
    {
        if width > 0 && height > 0 {
            self.width = width;
            self.height = height;
            self.configured = true;
            true
        } else {
            false
        }
    }

    /// Whether a frame may be rendered: only once the surface is configured.
    pub fn ready(&self) -> (r: bool)
        ensures
            r == self.configured,
    {
        self.configured
    }
}

/// Whether the GUI has asked to close; once asked, it stays asked.
#[derive(Clone, Copy, Debug, PartialEq, Eq, Structural)]
pub struct CloseLatch {
    pub closed: bool,
}

impl CloseLatch {
    /// No close asked yet.
    pub fn new() -> (l: CloseLatch)
        ensures
            !l.closed,
    {
        CloseLatch { closed: false }
    }

    /// Takes a frame's output: `close_commanded` tells whether it held a
    /// close command.
    pub fn observe(&mut self, close_commanded: bool)
        ensures
            final(self).closed == (old(self).closed || close_commanded),
    {
        if close_commanded {
            self.closed = true;
        }
    }
}

/// How a surface blends with what lies behind the window.
#[derive(Clone, Copy, Debug, PartialEq, Eq, Structural)]
pub enum AlphaMode {
    Auto,
    Opaque,
    PreMultiplied,
    PostMultiplied,
    Inherit,
}

/// The alpha mode chosen among the supported ones (`supported` not empty):
/// premultiplied, else postmultiplied, else inherited alpha, whichever is
/// supported first in that order; else the first supported mode.
pub open spec fn preferred_alpha_mode(supported: Seq<AlphaMode>) -> AlphaMode {
    if supported.contains(AlphaMode::PreMultiplied) {
        AlphaMode::PreMultiplied
    } else if supported.contains(AlphaMode::PostMultiplied) {
        AlphaMode::PostMultiplied
    } else if supported.contains(AlphaMode::Inherit) {
        AlphaMode::Inherit
    } else {
        supported[0]
    }
}

fn supports(supported: &Vec<AlphaMode>, mode: AlphaMode) -> (r: bool)
    ensures
        r == supported@.contains(mode),
{
    let mut i: usize = 0;
    while i < supported.len()
        invariant
            i <= supported@.len(),
            forall|j: int| 0 <= j < i ==> supported@[j] != mode,
        decreases supported@.len() - i,
    {
        if supported[i] == mode {
            return true;
        }
        i = i + 1;
    }
    false
}

/// The alpha mode chosen is one the surface supports, and the preference
/// order is premultiplied, then postmultiplied, then inherited alpha; with
/// none of these the first supported mode is taken.
pub proof fn lemma_alpha_preference(supported: Seq<AlphaMode>)
    requires
        supported.len() > 0,
    ensures
        supported.contains(preferred_alpha_mode(supported)),
        supported.contains(AlphaMode::PreMultiplied) ==> preferred_alpha_mode(supported)
            == AlphaMode::PreMultiplied,
        !supported.contains(AlphaMode::PreMultiplied) && supported.contains(AlphaMode::PostMultiplied)
            ==> preferred_alpha_mode(supported) == AlphaMode::PostMultiplied,
        !supported.contains(AlphaMode::PreMultiplied) && !supported.contains(AlphaMode::PostMultiplied)
            && supported.contains(AlphaMode::Inherit) ==> preferred_alpha_mode(supported)
            == AlphaMode::Inherit,
        !supported.contains(AlphaMode::PreMultiplied) && !supported.contains(AlphaMode::PostMultiplied)
            && !supported.contains(AlphaMode::Inherit) ==> preferred_alpha_mode(supported) == supported[0],
        preferred_alpha_mode(supported) == AlphaMode::PostMultiplied ==> !supported.contains(
            AlphaMode::PreMultiplied,
        ),
{
    assert(supported.contains(supported[0]));
}

/// Chooses the surface's alpha mode, so that the overlay is transparent
/// where the platform allows it; `None` when no mode is supported.
pub fn choose_alpha_mode(supported: &Vec<AlphaMode>) -> (mode: Option<AlphaMode>)
    ensures
        supported@.len() == 0 ==> mode is None,
        supported@.len() > 0 ==> mode == Some(preferred_alpha_mode(supported@)),
{
    if supported.len() == 0 {
        None
    } else if supports(supported, AlphaMode::PreMultiplied) {
        Some(AlphaMode::PreMultiplied)
    } else if supports(supported, AlphaMode::PostMultiplied) {
        Some(AlphaMode::PostMultiplied)
    } else if supports(supported, AlphaMode::Inherit) {
        Some(AlphaMode::Inherit)
    } else {
        Some(supported[0])
    }
}

/// The index of the surface format chosen among the supported ones, given
/// which of them are sRGB: the first sRGB format, else the first format;
/// `None` when no format is supported.
pub fn choose_format(is_srgb: &Vec<bool>) -> (index: Option<usize>)
    ensures
        is_srgb@.len() == 0 ==> index is None,
        is_srgb@.len() > 0 ==> (index matches Some(i) && i < is_srgb@.len() && (if is_srgb@.contains(true) {
            is_srgb@[i as int] && forall|j: int| 0 <= j < i ==> !is_srgb@[j]
        } else {
            i == 0
        })),
{
    if is_srgb.len() == 0 {
        return None;
    }
    let mut i: usize = 0;
    while i < is_srgb.len()
        invariant
            i <= is_srgb@.len(),
            forall|j: int| 0 <= j < i ==> !is_srgb@[j],
        decreases is_srgb@.len() - i,
    {
        if is_srgb[i] {
            return Some(i);
        }
        i = i + 1;
    }
    Some(0)
}

/// What acquiring the next surface texture gave.
#[derive(Clone, Copy, Debug, PartialEq, Eq, Structural)]
pub enum SurfaceAcquire {
    Success,
    Suboptimal,
    Occluded,
    Timeout,
    Validation,
    Outdated,
    Lost,
}

/// What to do with the acquired frame.
#[derive(Clone, Copy, Debug, PartialEq, Eq, Structural)]
pub enum FramePlan {
    /// Draw the frame.
    Draw,
    /// Configure the surface anew, then draw the frame.
    ReconfigureThenDraw,
    /// Skip the frame: the window is hidden.
    Skip,
    /// Skip the frame: the surface is not ready (worth a trace message).
    SkipNotReady,
    /// Configure the surface anew and skip the frame.
    ReconfigureAndSkip,
    /// The device is lost: rendering fails.
    Fail,
}

/// The plan for each outcome of acquiring a texture.
pub open spec fn spec_plan_frame(acquired: SurfaceAcquire) -> FramePlan {
    match acquired {
        SurfaceAcquire::Success => FramePlan::Draw,
        SurfaceAcquire::Suboptimal => FramePlan::ReconfigureThenDraw,
        SurfaceAcquire::Occluded => FramePlan::Skip,
        SurfaceAcquire::Timeout => FramePlan::SkipNotReady,
        SurfaceAcquire::Validation => FramePlan::SkipNotReady,
        SurfaceAcquire::Outdated => FramePlan::ReconfigureAndSkip,
        SurfaceAcquire::Lost => FramePlan::Fail,
    }
}

/// Decides what to do with the acquired frame.
pub fn plan_frame(acquired: SurfaceAcquire) -> (plan: FramePlan)
    ensures
        plan == spec_plan_frame(acquired),
{
    match acquired {
        SurfaceAcquire::Success => FramePlan::Draw,
        SurfaceAcquire::Suboptimal => FramePlan::ReconfigureThenDraw,
        SurfaceAcquire::Occluded => FramePlan::Skip,
        SurfaceAcquire::Timeout | SurfaceAcquire::Validation => FramePlan::SkipNotReady,
        SurfaceAcquire::Outdated => FramePlan::ReconfigureAndSkip,
        SurfaceAcquire::Lost => FramePlan::Fail,
    }
}

/// A frame is drawn exactly when a texture was acquired, and rendering
/// fails only when the device is lost.
pub proof fn lemma_frame_plans(acquired: SurfaceAcquire)
    ensures
        (spec_plan_frame(acquired) == FramePlan::Draw || spec_plan_frame(acquired)
            == FramePlan::ReconfigureThenDraw) <==> (acquired == SurfaceAcquire::Success
            || acquired == SurfaceAcquire::Suboptimal),
        (spec_plan_frame(acquired) == FramePlan::Fail) <==> (acquired == SurfaceAcquire::Lost),
{
}

/// Whether a window event is handled at all.
#[derive(Clone, Copy, Debug, PartialEq, Eq, Structural)]
pub enum EventGate {
    /// The overlay is not initialized yet: leave the event loop.
    ExitUninitialized,
    /// The GUI asked to close: leave the event loop.
    ExitRequested,
    /// Hand the event to the GUI, then act on it.
    Handle,
}

/// Decides whether a window event is handled.
pub fn gate_event(initialized: bool, should_close: bool) -> (gate: EventGate)
    ensures
        !initialized ==> gate == EventGate::ExitUninitialized,
        initialized && should_close ==> gate == EventGate::ExitRequested,
        initialized && !should_close ==> gate == EventGate::Handle,
{
    if !initialized {
        EventGate::ExitUninitialized
    } else if should_close {
        EventGate::ExitRequested
    } else {
        EventGate::Handle
    }
}

/// The window events the overlay acts on.
#[derive(Clone, Copy, Debug, PartialEq, Eq, Structural)]
pub enum WindowEventKind {
    CloseRequested,
    RedrawRequested,
    /// A window took the given size; `same_window` tells whether it is the overlay window.
    Resized { width: u32, height: u32, same_window: bool },
    Other,
}

/// The step taken on a window event.
#[derive(Clone, Copy, Debug, PartialEq, Eq, Structural)]
pub enum EventStep {
    /// Leave the event loop.
    Exit,
    /// Update the overlay state, then render a frame.
    UpdateAndRender,
    /// Resize the surface.
    Resize { width: u32, height: u32 },
    /// Nothing to do.
    Nothing,
}

/// What to do after the GUI took an event: ask for a redraw when the GUI
/// wants one, then take the event's step.
#[derive(Clone, Copy, Debug, PartialEq, Eq, Structural)]
pub struct EventPlan {
    pub request_redraw: bool,
    pub step: EventStep,
}

/// The step for each event.
pub open spec fn spec_event_step(event: WindowEventKind) -> EventStep {
    match event {
        WindowEventKind::CloseRequested => EventStep::Exit,
        WindowEventKind::RedrawRequested => EventStep::UpdateAndRender,
        WindowEventKind::Resized { width, height, same_window } => if same_window {
            EventStep::Resize { width, height }
        } else {
            EventStep::Nothing
        },
        WindowEventKind::Other => EventStep::Nothing,
    }
}

/// Decides what to do after the GUI took an event.
pub fn plan_event(repaint: bool, event: WindowEventKind) -> (plan: EventPlan)
    ensures
        plan.request_redraw == repaint,
        plan.step == spec_event_step(event),
{
    let step = match event {
        WindowEventKind::CloseRequested => EventStep::Exit,
        WindowEventKind::RedrawRequested => EventStep::UpdateAndRender,
        WindowEventKind::Resized { width, height, same_window } => if same_window {
            EventStep::Resize { width, height }
        } else {
            EventStep::Nothing
        },
        WindowEventKind::Other => EventStep::Nothing,
    };
    EventPlan { request_redraw: repaint, step }
}

} // verus!
