use feline::log_config::{is_target_under, Config};
use feline::logging::LevelFilter;

#[test]
fn unset_means_info() {
    let c = Config::from_directive(None);
    assert_eq!(c.default, LevelFilter::Info);
    assert!(c.target.is_none());
    assert_eq!(c.get_log_level("anything"), LevelFilter::Info);
    assert_eq!(c.get_max_log_level(), LevelFilter::Info);
}

#[test]
fn global_level() {
    let c = Config::from_directive(Some("debug"));
    assert_eq!(c.get_log_level("feline::state"), LevelFilter::Debug);
    assert_eq!(c.get_max_log_level(), LevelFilter::Debug);
    assert_eq!(Config::from_directive(Some("TRACE")).default, LevelFilter::Trace);
    assert_eq!(Config::from_directive(Some("Off")).get_log_level("x"), LevelFilter::Off);
    // not a level name
    assert_eq!(Config::from_directive(Some("loud")).default, LevelFilter::Info);
}

#[test]
fn per_target_level() {
    let c = Config::from_directive(Some("websearch=trace"));
    assert_eq!(c.target.as_deref(), Some("websearch"));
    assert_eq!(c.get_log_level("websearch"), LevelFilter::Trace);
    assert_eq!(c.get_log_level("websearch::client"), LevelFilter::Trace);
    assert_eq!(c.get_log_level("websearcher"), LevelFilter::Info);
    assert_eq!(c.get_log_level("feline"), LevelFilter::Info);
    assert_eq!(c.get_max_log_level(), LevelFilter::Trace);
    let quiet = Config::from_directive(Some("noisy=error"));
    assert_eq!(quiet.get_log_level("noisy"), LevelFilter::Error);
    assert_eq!(quiet.get_max_log_level(), LevelFilter::Info);
    // a bad level after `=` leaves everything at INFO
    let bad = Config::from_directive(Some("websearch=loud"));
    assert!(bad.target.is_none());
    assert_eq!(bad.get_log_level("websearch"), LevelFilter::Info);
}

#[test]
fn targets_below() {
    assert!(is_target_under("a", "a"));
    assert!(is_target_under("a", "a::b"));
    assert!(!is_target_under("a", "a:b"));
    assert!(!is_target_under("a", "ab"));
    assert!(!is_target_under("ab", "a"));
    assert!(is_target_under("", ""));
}
