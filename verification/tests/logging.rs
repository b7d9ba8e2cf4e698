use feline::logging::{compose_log_line, level_allowed, logfmt, painted_tag, record_line, Level, LevelFilter};

const LEVELS: [Level; 5] = [Level::Error, Level::Warn, Level::Info, Level::Debug, Level::Trace];

#[test]
fn filters_let_through_levels_up_to_their_verbosity() {
    assert!(LEVELS.iter().all(|l| !level_allowed(*l, LevelFilter::Off)));
    assert!(LEVELS.iter().all(|l| level_allowed(*l, LevelFilter::Trace)));
    assert!(level_allowed(Level::Error, LevelFilter::Error));
    assert!(!level_allowed(Level::Warn, LevelFilter::Error));
    assert!(level_allowed(Level::Warn, LevelFilter::Warn));
    assert!(!level_allowed(Level::Info, LevelFilter::Warn));
    assert!(level_allowed(Level::Info, LevelFilter::Info));
    assert!(!level_allowed(Level::Debug, LevelFilter::Info));
    assert!(level_allowed(Level::Debug, LevelFilter::Debug));
    assert!(!level_allowed(Level::Trace, LevelFilter::Debug));
}

#[test]
fn filter_monotone_on_examples() {
    let filters = [
        LevelFilter::Off,
        LevelFilter::Error,
        LevelFilter::Warn,
        LevelFilter::Info,
        LevelFilter::Debug,
        LevelFilter::Trace,
    ];
    for l in LEVELS {
        for i in 0..filters.len() {
            for j in i..filters.len() {
                if level_allowed(l, filters[i]) {
                    assert!(level_allowed(l, filters[j]));
                }
            }
        }
    }
}

#[test]
fn composes_line() {
    assert_eq!(compose_log_line("[INFO]", "env", "src/env.rs", 42, "hello"), "[INFO] (env -> src/env.rs:42) - hello");
    assert_eq!(compose_log_line("T", "", "", 0, ""), "T ( -> :0) - ");
    assert_eq!(compose_log_line("T", "a", "b", 4294967295, "m"), "T (a -> b:4294967295) - m");
    assert_eq!(compose_log_line("T", "a", "b", 1000000, "m"), "T (a -> b:1000000) - m");
}

fn strip(tag: &str, text: &str) -> bool {
    text == tag || text.starts_with("\u{1b}[") && text.ends_with("\u{1b}[0m") && text.contains(tag)
}

#[test]
fn tags_are_plain_or_painted() {
    let tags = ["[ERRO]", "[WARN]", "[INFO]", "[DBUG]", "[TRCE]"];
    let codes = ["31", "33", "32", "34", "35"];
    for (i, l) in LEVELS.iter().enumerate() {
        let t = painted_tag(*l);
        assert!(
            t == tags[i] || t == format!("\u{1b}[{}m{}\u{1b}[0m", codes[i], tags[i]),
            "unexpected tag {t:?}"
        );
        // the wrapper did not hand back something unrelated
        assert!(strip(tags[i], &t));
    }
}

#[test]
fn logfmt_line() {
    let line = logfmt(Level::Warn, "net", "main.rs", 7, "slow");
    let plain = "[WARN] (net -> main.rs:7) - slow";
    let painted = "\u{1b}[33m[WARN]\u{1b}[0m (net -> main.rs:7) - slow";
    assert!(line == plain || line == painted, "unexpected line {line:?}");
}

#[test]
fn record_line_filters_and_defaults() {
    assert!(record_line(Level::Debug, LevelFilter::Info, "t", None, None, "m").is_none());
    let line = record_line(Level::Error, LevelFilter::Info, "t", None, None, "m").unwrap();
    assert!(line.ends_with(" (t -> unknown:0) - m"), "unexpected line {line:?}");
    let line = record_line(Level::Info, LevelFilter::Info, "t", Some("f.rs"), Some(12), "m").unwrap();
    assert!(line.ends_with(" (t -> f.rs:12) - m"), "unexpected line {line:?}");
}
