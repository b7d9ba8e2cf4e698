use feline::panel::{DemoTab, PanelState};

#[test]
fn panel_starts_on_overview() {
    let p = PanelState::new();
    assert!(p.open && p.glow && p.diagnostics);
    assert_eq!(p.selected_tab, DemoTab::Overview);
    assert_eq!(p.command, "scan --overlay --theme feline");
    assert!(p.is_selected(DemoTab::Overview));
    assert!(!p.should_close());
    assert_eq!(p.profile_label(), "neon glass");
}

#[test]
fn tabs_switch_on_click_only() {
    let mut p = PanelState::new();
    p.click_tab(DemoTab::Console, false);
    assert_eq!(p.selected_tab, DemoTab::Overview);
    p.click_tab(DemoTab::Console, true);
    assert_eq!(p.selected_tab, DemoTab::Console);
    assert!(!p.is_selected(DemoTab::Controls));
    p.glow = false;
    assert_eq!(p.profile_label(), "quiet glass");
    p.open = false;
    assert!(p.should_close());
}
