# feline

The logic of Feline, a transparent, always-on-top desktop overlay that draws
small egui applications over the desktop, proved with Verus.

- `src/bank.rs` — the bank of registered applications: ids, render order,
  unregistration by swapping in the last application, reuse of freed ids,
  collection of applications that asked to close. Its abstract model and the
  laws over it (ids stay unique, unregistering undoes registering, a
  collection removes exactly the closing applications) are proved there.
- `src/overlay.rs` — the event-loop decisions: cursor hit testing, surface
  resizing, the surface's format and alpha mode, the sticky close request, what
  to do with each acquired frame, how window events are handled.
- `src/logging.rs` — level filtering and the text of log lines.
- `src/log_config.rs` — the levels that `LOG_LEVEL` sets, globally or for one target.
- `src/panel.rs` — the demo panel's tab selection, toggles and close request.
- `src/chat.rs`, `src/theme.rs`, `src/env.rs` — the chat model, the theme's
  colors and frames, and the notices of the environment loader.
- `app/` — the program around the library: the winit event loop, the wgpu and
  egui renderer, platform calls, the `log` backend and `.env` loading.
