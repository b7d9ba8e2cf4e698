//! The state of the overlay's demo control panel that is not drawing: which
//! tab is shown, whether the window is open, the toggles and the command
//! line. (The sliders' values are fractional and live with the drawing code.)

use vstd::prelude::*;

verus! {

broadcast use vstd::string::group_string_axioms;

/// The tabs of the demo panel.
#[derive(Clone, Copy, Debug, PartialEq, Eq, Structural)]
pub enum DemoTab {
    Overview,
    Controls,
    Console,
}

/// The panel's non-drawing state.
#[derive(Debug)]
pub struct PanelState {
    pub open: bool,
    pub glow: bool,
    pub diagnostics: bool,
    pub selected_tab: DemoTab,
    pub command: String,
}

impl PanelState {
    /// The panel as it first appears: open, glow and diagnostics on, the
    /// overview shown, and a sample command typed in.
    pub fn new() -> (p: PanelState)
        ensures
            p.open,
            p.glow,
            p.diagnostics,
            p.selected_tab == DemoTab::Overview,
            p.command@ == "scan --overlay --theme feline"@,
    {
        PanelState {
            open: true,
            glow: true,
            diagnostics: true,
            selected_tab: DemoTab::Overview,
            command: String::from_str("scan --overlay --theme feline"),
        }
    }

    /// Whether `tab` is the one shown.
    pub fn is_selected(&self, tab: DemoTab) -> (r: bool)
        ensures
            r == (self.selected_tab == tab),
    {
        self.selected_tab == tab
    }

    /// Handles a tab button: a click shows that tab; otherwise nothing changes.
    pub fn click_tab(&mut self, tab: DemoTab, clicked: bool)
        ensures
            final(self).selected_tab == (if clicked { tab } else { old(self).selected_tab }),
            final(self).open == old(self).open,
            final(self).glow == old(self).glow,
            final(self).diagnostics == old(self).diagnostics,
            final(self).command == old(self).command,
    {
        if clicked {
            self.selected_tab = tab;
        }
    }

    /// The name of the look the glow toggle selects.
    pub fn profile_label(&self) -> (label: &'static str)
        ensures
            label@ == (if self.glow { "neon glass"@ } else { "quiet glass"@ }),
    {
        if self.glow {
            "neon glass"
        } else {
            "quiet glass"
        }
    }

    /// The panel asks to close once its window was closed.
    pub fn should_close(&self) -> (r: bool)
        ensures
            r == !self.open,
    {
        !self.open
    }
}

} // verus!
