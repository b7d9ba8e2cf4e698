use feline::overlay::{choose_alpha_mode, choose_format, AlphaMode};
use feline::overlay::{
    gate_event, plan_event, plan_frame, CursorHittest, EventGate, EventStep, FramePlan, SurfaceAcquire,
    SurfaceSize, WindowEventKind,
};

#[test]
fn hittest_follows_pointer_and_cursor() {
    let mut h = CursorHittest::new();
    assert!(h.enabled && h.available);
    // already on: nothing to ask
    assert_eq!(h.request(true, None), None);
    assert_eq!(h.request(false, Some(true)), None);
    // unknown cursor: nothing to ask
    assert_eq!(h.request(false, None), None);
    // cursor left the interactive regions
    assert_eq!(h.request(false, Some(false)), Some(false));
    h.record(false, true);
    assert!(!h.enabled && h.available);
    // the GUI grabs the pointer
    assert_eq!(h.request(true, Some(false)), Some(true));
}

#[test]
fn hittest_failure_disables_switching() {
    let mut h = CursorHittest::new();
    assert_eq!(h.request(false, Some(false)), Some(false));
    h.record(false, false);
    assert!(h.enabled && !h.available);
    assert_eq!(h.request(false, Some(false)), None);
    assert_eq!(h.request(true, Some(true)), None);
}

#[test]
fn resize_ignores_empty_sizes() {
    let mut s = SurfaceSize::new(800, 600);
    assert!(!s.configured);
    assert!(!s.resize(0, 100));
    assert!(!s.resize(100, 0));
    assert_eq!(s, SurfaceSize { width: 800, height: 600, configured: false });
    assert!(s.resize(1024, 768));
    assert_eq!(s, SurfaceSize { width: 1024, height: 768, configured: true });
}

#[test]
fn frame_plans() {
    assert_eq!(plan_frame(SurfaceAcquire::Success), FramePlan::Draw);
    assert_eq!(plan_frame(SurfaceAcquire::Suboptimal), FramePlan::ReconfigureThenDraw);
    assert_eq!(plan_frame(SurfaceAcquire::Occluded), FramePlan::Skip);
    assert_eq!(plan_frame(SurfaceAcquire::Timeout), FramePlan::SkipNotReady);
    assert_eq!(plan_frame(SurfaceAcquire::Validation), FramePlan::SkipNotReady);
    assert_eq!(plan_frame(SurfaceAcquire::Outdated), FramePlan::ReconfigureAndSkip);
    assert_eq!(plan_frame(SurfaceAcquire::Lost), FramePlan::Fail);
}

#[test]
fn event_gate_and_plan() {
    assert_eq!(gate_event(false, true), EventGate::ExitUninitialized);
    assert_eq!(gate_event(true, true), EventGate::ExitRequested);
    assert_eq!(gate_event(true, false), EventGate::Handle);
    let p = plan_event(true, WindowEventKind::CloseRequested);
    assert!(p.request_redraw);
    assert_eq!(p.step, EventStep::Exit);
    assert_eq!(plan_event(false, WindowEventKind::RedrawRequested).step, EventStep::UpdateAndRender);
    assert_eq!(
        plan_event(false, WindowEventKind::Resized { width: 3, height: 4, same_window: true }).step,
        EventStep::Resize { width: 3, height: 4 }
    );
    assert_eq!(
        plan_event(false, WindowEventKind::Resized { width: 3, height: 4, same_window: false }).step,
        EventStep::Nothing
    );
    assert_eq!(plan_event(false, WindowEventKind::Other).step, EventStep::Nothing);
}

#[test]
fn close_latch_is_sticky() {
    let mut l = feline::overlay::CloseLatch::new();
    assert!(!l.closed);
    l.observe(false);
    assert!(!l.closed);
    l.observe(true);
    assert!(l.closed);
    l.observe(false);
    assert!(l.closed);
}

#[test]
fn surface_ready_once_configured() {
    let mut s = SurfaceSize::new(10, 10);
    assert!(!s.ready());
    s.resize(20, 30);
    assert!(s.ready());
}

#[test]
fn format_choice_prefers_srgb() {
    assert_eq!(choose_format(&vec![]), None);
    assert_eq!(choose_format(&vec![false, true, true]), Some(1));
    assert_eq!(choose_format(&vec![false, false]), Some(0));
    assert_eq!(choose_format(&vec![true]), Some(0));
}

#[test]
fn alpha_choice_prefers_transparency() {
    assert_eq!(choose_alpha_mode(&vec![]), None);
    assert_eq!(choose_alpha_mode(&vec![AlphaMode::Opaque]), Some(AlphaMode::Opaque));
    assert_eq!(
        choose_alpha_mode(&vec![AlphaMode::Opaque, AlphaMode::Inherit, AlphaMode::PostMultiplied]),
        Some(AlphaMode::PostMultiplied)
    );
    assert_eq!(
        choose_alpha_mode(&vec![AlphaMode::Inherit, AlphaMode::PreMultiplied]),
        Some(AlphaMode::PreMultiplied)
    );
    assert_eq!(choose_alpha_mode(&vec![AlphaMode::Auto, AlphaMode::Inherit]), Some(AlphaMode::Inherit));
}
