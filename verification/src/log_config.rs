//! The log-level configuration taken from the `LOG_LEVEL` variable: either a
//! level for every target (`debug`), or a level for one target and the
//! targets below it (`websearch=trace`), the others staying at INFO. Without
//! the variable, or when its level is not a level name, everything logs at
//! INFO.

use crate::logging::{filter_rank, LevelFilter};
use vstd::prelude::*;
use vstd::string::StrSliceExecFns;

verus! {

broadcast use vstd::string::group_string_axioms;

/// `c` with ASCII upper-case letters turned to lower case.
pub open spec fn ascii_lower(c: char) -> char {
    if 'A' <= c && c <= 'Z' {
        ((c as u32) + 32) as char
    } else {
        c
    }
}

/// `a` and `b` are equal up to ASCII case.
pub open spec fn eq_ignore_ascii_case(a: Seq<char>, b: Seq<char>) -> bool {
    a.len() == b.len() && forall|i: int| 0 <= i < a.len() ==> #[trigger] ascii_lower(a[i]) == ascii_lower(b[i])
}

/// The level filter that `text` names, up to ASCII case, if any.
pub open spec fn named_filter(text: Seq<char>) -> Option<LevelFilter> {
    if eq_ignore_ascii_case(text, "OFF"@) {
        Some(LevelFilter::Off)
    } else if eq_ignore_ascii_case(text, "ERROR"@) {
        Some(LevelFilter::Error)
    } else if eq_ignore_ascii_case(text, "WARN"@) {
        Some(LevelFilter::Warn)
    } else if eq_ignore_ascii_case(text, "INFO"@) {
        Some(LevelFilter::Info)
    } else if eq_ignore_ascii_case(text, "DEBUG"@) {
        Some(LevelFilter::Debug)
    } else if eq_ignore_ascii_case(text, "TRACE"@) {
        Some(LevelFilter::Trace)
    } else {
        None
    }
}

/// `log::LevelFilter::from_str` on `text`, the variant mapped one for one.
/// The crate compares `text`, ignoring ASCII case, with `OFF`, `ERROR`,
/// `WARN`, `INFO`, `DEBUG` and `TRACE` in turn and returns the first match,
/// or an error when none matches.
#[verifier::external_body]
fn parse_level_filter(text: &str) -> (filter: Option<LevelFilter>)
    ensures
        filter == named_filter(text@),
{
    match text.parse::<log::LevelFilter>() {
        Ok(log::LevelFilter::Off) => Some(LevelFilter::Off),
        Ok(log::LevelFilter::Error) => Some(LevelFilter::Error),
        Ok(log::LevelFilter::Warn) => Some(LevelFilter::Warn),
        Ok(log::LevelFilter::Info) => Some(LevelFilter::Info),
        Ok(log::LevelFilter::Debug) => Some(LevelFilter::Debug),
        Ok(log::LevelFilter::Trace) => Some(LevelFilter::Trace),
        Err(_) => None,
    }
}

/// The configured levels: a level for every target, and possibly one target
/// (with the targets below it) that logs at its own level.
pub struct Config {
    pub default: LevelFilter,
    pub target: Option<String>,
    pub target_level: LevelFilter,
}

/// The abstract form of a configuration: default level, and the overridden
/// target with its level.
pub open spec fn config_view(c: Config) -> (LevelFilter, Option<(Seq<char>, LevelFilter)>) {
    (c.default, match c.target {
        Some(t) => Some((t@, c.target_level)),
        None => None,
    })
}

/// The index of the first `=` in `text`, if any.
pub open spec fn first_equals(text: Seq<char>) -> Option<int> {
    if text.contains('=') {
        Some(choose|p: int| 0 <= p < text.len() && text[p] == '=' && forall|j: int| 0 <= j < p ==> text[j] != '=')
    } else {
        None
    }
}

/// The configuration that the `LOG_LEVEL` value `value` sets.
pub open spec fn directive_config(value: Option<Seq<char>>) -> (LevelFilter, Option<(Seq<char>, LevelFilter)>) {
    match value {
        None => (LevelFilter::Info, None),
        Some(v) => match first_equals(v) {
            Some(p) => match named_filter(v.subrange(p + 1, v.len() as int)) {
                Some(f) => (LevelFilter::Info, Some((v.subrange(0, p), f))),
                None => (LevelFilter::Info, None),
            },
            None => match named_filter(v) {
                Some(f) => (f, None),
                None => (LevelFilter::Info, None),
            },
        },
    }
}

/// The record target `target` is `prefix` or lies below it (`prefix::...`).
pub open spec fn target_under(prefix: Seq<char>, target: Seq<char>) -> bool {
    target == prefix || (target.len() >= prefix.len() + 2 && target.subrange(0, prefix.len() as int)
        == prefix && target[prefix.len() as int] == ':' && target[prefix.len() + 1int] == ':')
}

/// The level filter that applies to records of `target`.
pub open spec fn level_for(config: (LevelFilter, Option<(Seq<char>, LevelFilter)>), target: Seq<char>) -> LevelFilter {
    match config.1 {
        Some((t, f)) => if target_under(t, target) {
            f
        } else {
            config.0
        },
        None => config.0,
    }
}

/// The most verbose level any target logs at.
pub open spec fn max_level(config: (LevelFilter, Option<(Seq<char>, LevelFilter)>)) -> LevelFilter {
    match config.1 {
        Some((_, f)) => if filter_rank(f) > filter_rank(config.0) {
            f
        } else {
            config.0
        },
        None => config.0,
    }
}

fn find_equals(text: &str) -> (p: Option<usize>)
    ensures
        p is None ==> !text@.contains('='),
        p matches Some(i) ==> (i < text@.len() && first_equals(text@) == Some(i as int)),
{
    let n = text.unicode_len();
    let mut i: usize = 0;
    while i < n
        invariant
            n == text@.len(),
            i <= n,
            forall|j: int| 0 <= j < i ==> text@[j] != '=',
        decreases n - i,
    {
        if text.get_char(i) == '=' {
            proof {
                assert(text@.contains('='));
                let q = choose|q: int| 0 <= q < text@.len() && text@[q] == '=' && forall|j: int| 0 <= j < q ==> text@[j] != '=';
                if q < i {
                } else if q > i {
                    assert(text@[i as int] == '=');
                }
            }
            return Some(i);
        }
        i = i + 1;
    }
    None
}

/// Whether `target` is `prefix` or lies below it.
pub fn is_target_under(prefix: &str, target: &str) -> (r: bool)
    ensures
        r == target_under(prefix@, target@),
{
    proof {
        reveal_strlit(":");
    }
    let n = prefix.unicode_len();
    let m = target.unicode_len();
    if m < n {
        return false;
    }
    let mut i: usize = 0;
    while i < n
        invariant
            n == prefix@.len(),
            m == target@.len(),
            n <= m,
            i <= n,
            forall|j: int| 0 <= j < i ==> target@[j] == prefix@[j],
        decreases n - i,
    {
        if target.get_char(i) != prefix.get_char(i) {
            assert(target@.subrange(0, n as int)[i as int] != prefix@[i as int]);
            assert(target@ != prefix@);
            return false;
        }
        i = i + 1;
    }
    assert(target@.subrange(0, n as int) =~= prefix@);
    if m == n {
        assert(target@ =~= prefix@);
        return true;
    }
    if m - n < 2 {
        return false;
    }
    target.get_char(n) == ':' && target.get_char(n + 1) == ':'
}

impl Config {
    /// The configuration that the `LOG_LEVEL` value `value` sets (`None`
    /// when the variable is unset).
    pub fn from_directive(value: Option<&str>) -> (c: Config)
        ensures
            config_view(c) == directive_config(
                match value {
                    Some(v) => Some(v@),
                    None => None,
                },
            ),
    {
        match value {
            None => Config { default: LevelFilter::Info, target: None, target_level: LevelFilter::Info },
            Some(v) => match find_equals(v) {
                Some(p) => {
                    let n = v.unicode_len();
                    let level_text = v.substring_char(p + 1, n);
                    match parse_level_filter(level_text) {
                        Some(f) => {
                            let t = v.substring_char(0, p);
                            Config { default: LevelFilter::Info, target: Some(t.to_string()), target_level: f }
                        },
                        None => Config { default: LevelFilter::Info, target: None, target_level: LevelFilter::Info },
                    }
                },
                None => match parse_level_filter(v) {
                    Some(f) => Config { default: f, target: None, target_level: f },
                    None => Config { default: LevelFilter::Info, target: None, target_level: LevelFilter::Info },
                },
            },
        }
    }

    /// The level filter that applies to records of `target`.
    pub fn get_log_level(&self, target: &str) -> (f: LevelFilter)
        ensures
            f == level_for(config_view(*self), target@),
    {
        match &self.target {
            Some(t) => if is_target_under(t.as_str(), target) {
                self.target_level
            } else {
                self.default
            },
            None => self.default,
        }
    }

    /// The most verbose level any target logs at, which the global logger
    /// must let through.
    pub fn get_max_log_level(&self) -> (f: LevelFilter)
        ensures
            f == max_level(config_view(*self)),
    {
        match &self.target {
            Some(_) => if filter_number(self.target_level) > filter_number(self.default) {
                self.target_level
            } else {
                self.default
            },
            None => self.default,
        }
    }
}

fn filter_number(f: LevelFilter) -> (n: u8)
    ensures
        n == filter_rank(f),
{
    match f {
        LevelFilter::Off => 0,
        LevelFilter::Error => 1,
        LevelFilter::Warn => 2,
        LevelFilter::Info => 3,
        LevelFilter::Debug => 4,
        LevelFilter::Trace => 5,
    }
}

/// A target's level is the overriding level when the target lies below the
/// overridden one, and the default otherwise; no target logs more verbosely
/// than the maximum.
pub proof fn lemma_level_within_max(config: (LevelFilter, Option<(Seq<char>, LevelFilter)>), target: Seq<char>)
    ensures
        filter_rank(level_for(config, target)) <= filter_rank(max_level(config)),
{
}

/// A `LOG_LEVEL` value without `=` that names a level (in any ASCII case)
/// sets that level for every target, and it is the most verbose level any
/// target logs at.
pub proof fn lemma_global_level(v: Seq<char>, f: LevelFilter)
    requires
        !v.contains('='),
        named_filter(v) == Some(f),
    ensures
        directive_config(Some(v)) == (f, None::<(Seq<char>, LevelFilter)>),
        forall|target: Seq<char>| #[trigger] level_for(directive_config(Some(v)), target) == f,
        max_level(directive_config(Some(v))) == f,
{
}

/// A `LOG_LEVEL` value `target=level` (split at its first `=`) whose level
/// part names a level gives that level to the target and the targets below
/// it, and INFO to every other target.
pub proof fn lemma_target_level(v: Seq<char>, p: int, f: LevelFilter)
    requires
        0 <= p < v.len(),
        v[p] == '=',
        forall|j: int| 0 <= j < p ==> v[j] != '=',
        named_filter(v.subrange(p + 1, v.len() as int)) == Some(f),
    ensures
        directive_config(Some(v)) == (LevelFilter::Info, Some((v.subrange(0, p), f))),
        forall|target: Seq<char>|
            #[trigger] level_for(directive_config(Some(v)), target) == if target_under(v.subrange(0, p), target) {
                f
            } else {
                LevelFilter::Info
            },
{
    assert(v.contains('='));
    let q = choose|q: int| 0 <= q < v.len() && v[q] == '=' && forall|j: int| 0 <= j < q ==> v[j] != '=';
    if q < p {
        assert(v[q] != '=');
    }
    if q > p {
        assert(v[p] != '=');
    }
    assert(first_equals(v) == Some(p));
}

/// Without `LOG_LEVEL`, or with a value that is neither a level name nor
/// `target=level`, every target logs at INFO.
pub proof fn lemma_default_info(value: Option<Seq<char>>)
    requires
        value matches Some(v) ==> !v.contains('=') && named_filter(v) is None,
    ensures
        directive_config(value) == (LevelFilter::Info, None::<(Seq<char>, LevelFilter)>),
        forall|target: Seq<char>| #[trigger] level_for(directive_config(value), target) == LevelFilter::Info,
{
}

} // verus!
