use feline::logging::{logfmt, painted_tag, Level};

#[test]
fn tags_follow_the_color_override() {
    colored::control::set_override(true);
    assert_eq!(painted_tag(Level::Error), "\u{1b}[31m[ERRO]\u{1b}[0m");
    assert_eq!(painted_tag(Level::Warn), "\u{1b}[33m[WARN]\u{1b}[0m");
    assert_eq!(painted_tag(Level::Info), "\u{1b}[32m[INFO]\u{1b}[0m");
    assert_eq!(painted_tag(Level::Debug), "\u{1b}[34m[DBUG]\u{1b}[0m");
    assert_eq!(painted_tag(Level::Trace), "\u{1b}[35m[TRCE]\u{1b}[0m");
    assert_eq!(
        logfmt(Level::Error, "gpu", "state.rs", 180, "Lost device"),
        "\u{1b}[31m[ERRO]\u{1b}[0m (gpu -> state.rs:180) - Lost device"
    );

    colored::control::set_override(false);
    assert_eq!(painted_tag(Level::Error), "[ERRO]");
    assert_eq!(painted_tag(Level::Trace), "[TRCE]");
    assert_eq!(
        logfmt(Level::Info, "app", "main.rs", 9, "Logger initialized"),
        "[INFO] (app -> main.rs:9) - Logger initialized"
    );
}
