//! Logging levels and their order.
//!
//! The wire names the eight levels `debug < info < notice < warning < error
//! < critical < alert < emergency`. A session stores its level under a
//! session item; the server emits a log notification only when the message
//! level is at least the session's level.

use vstd::prelude::*;

verus! {

/// A logging level, least severe first.
#[derive(Debug, Clone, Copy, PartialEq, Eq, Structural)]
pub enum LoggingLevel {
    Debug,
    Info,
    Notice,
    Warning,
    Error,
    Critical,
    Alert,
    Emergency,
}

/// The position of a level in the severity order.
pub open spec fn level_rank(l: LoggingLevel) -> int {
    match l {
        LoggingLevel::Debug => 0,
        LoggingLevel::Info => 1,
        LoggingLevel::Notice => 2,
        LoggingLevel::Warning => 3,
        LoggingLevel::Error => 4,
        LoggingLevel::Critical => 5,
        LoggingLevel::Alert => 6,
        LoggingLevel::Emergency => 7,
    }
}

/// The wire name of a level.
pub open spec fn level_label(l: LoggingLevel) -> Seq<char> {
    match l {
        LoggingLevel::Debug => seq!['d', 'e', 'b', 'u', 'g'],
        LoggingLevel::Info => seq!['i', 'n', 'f', 'o'],
        LoggingLevel::Notice => seq!['n', 'o', 't', 'i', 'c', 'e'],
        LoggingLevel::Warning => seq!['w', 'a', 'r', 'n', 'i', 'n', 'g'],
        LoggingLevel::Error => seq!['e', 'r', 'r', 'o', 'r'],
        LoggingLevel::Critical => seq!['c', 'r', 'i', 't', 'i', 'c', 'a', 'l'],
        LoggingLevel::Alert => seq!['a', 'l', 'e', 'r', 't'],
        LoggingLevel::Emergency => seq!['e', 'm', 'e', 'r', 'g', 'e', 'n', 'c', 'y'],
    }
}

/// The lower-case image of a character's code point, for case-insensitive
/// comparison of ASCII text.
pub open spec fn lower_code(c: char) -> u32 {
    if 65 <= (c as u32) <= 90 {
        ((c as u32) + 32) as u32
    } else {
        c as u32
    }
}

/// Whether two texts are equal up to ASCII case.
pub open spec fn eq_ignore_ascii_case(a: Seq<char>, b: Seq<char>) -> bool {
    a.len() == b.len() && forall|i: int|
        0 <= i < a.len() ==> lower_code(#[trigger] a[i]) == lower_code(b[i])
}

/// The level a wire name denotes. Unknown names, like a misspelled level,
/// fall back to `Info`; the short form `warn` is accepted for `Warning`.
pub open spec fn spec_level_from(s: Seq<char>) -> LoggingLevel {
    if eq_ignore_ascii_case(s, level_label(LoggingLevel::Debug)) {
        LoggingLevel::Debug
    } else if eq_ignore_ascii_case(s, level_label(LoggingLevel::Notice)) {
        LoggingLevel::Notice
    } else if eq_ignore_ascii_case(s, level_label(LoggingLevel::Warning)) {
        LoggingLevel::Warning
    } else if eq_ignore_ascii_case(s, seq!['w', 'a', 'r', 'n']) {
        LoggingLevel::Warning
    } else if eq_ignore_ascii_case(s, level_label(LoggingLevel::Error)) {
        LoggingLevel::Error
    } else if eq_ignore_ascii_case(s, level_label(LoggingLevel::Critical)) {
        LoggingLevel::Critical
    } else if eq_ignore_ascii_case(s, level_label(LoggingLevel::Alert)) {
        LoggingLevel::Alert
    } else if eq_ignore_ascii_case(s, level_label(LoggingLevel::Emergency)) {
        LoggingLevel::Emergency
    } else {
        LoggingLevel::Info
    }
}

/// Whether two string slices are equal up to ASCII case.
fn str_eq_ignore_case(a: &str, b: &str) -> (r: bool)
    ensures
        r == eq_ignore_ascii_case(a@, b@),
{
    let na = a.unicode_len();
    let nb = b.unicode_len();
    if na != nb {
        return false;
    }
    let mut i: usize = 0;
    while i < na
        invariant
            na == a@.len(),
            na == b@.len(),
            i <= na,
            forall|k: int| 0 <= k < i ==> lower_code(#[trigger] a@[k]) == lower_code(b@[k]),
        decreases na - i,
    {
        let ca = a.get_char(i);
        let cb = b.get_char(i);
        let ua: u32 = ca as u32;
        let ub: u32 = cb as u32;
        let la: u32 = if 65 <= ua && ua <= 90 {
            ua + 32
        } else {
            ua
        };
        let lb: u32 = if 65 <= ub && ub <= 90 {
            ub + 32
        } else {
            ub
        };
        if la != lb {
            return false;
        }
        i = i + 1;
    }
    true
}

impl LoggingLevel {
    /// The position of this level in the severity order.
    pub fn rank(&self) -> (r: u32)
        ensures
            r as int == level_rank(*self),
    {
        match self {
            LoggingLevel::Debug => 0,
            LoggingLevel::Info => 1,
            LoggingLevel::Notice => 2,
            LoggingLevel::Warning => 3,
            LoggingLevel::Error => 4,
            LoggingLevel::Critical => 5,
            LoggingLevel::Alert => 6,
            LoggingLevel::Emergency => 7,
        }
    }

    /// Whether this level is at least as severe as `other`.
    pub fn at_least(&self, other: &LoggingLevel) -> (r: bool)
        ensures
            r == (level_rank(*self) >= level_rank(*other)),
    {
        self.rank() >= other.rank()
    }

    /// The wire name of this level.
    pub fn to_string(&self) -> (r: String)
        ensures
            r@ == level_label(*self),
    {
        proof {
            reveal_strlit("debug");
            reveal_strlit("info");
            reveal_strlit("notice");
            reveal_strlit("warning");
            reveal_strlit("error");
            reveal_strlit("critical");
            reveal_strlit("alert");
            reveal_strlit("emergency");
        }
        let r = match self {
            LoggingLevel::Debug => String::from_str("debug"),
            LoggingLevel::Info => String::from_str("info"),
            LoggingLevel::Notice => String::from_str("notice"),
            LoggingLevel::Warning => String::from_str("warning"),
            LoggingLevel::Error => String::from_str("error"),
            LoggingLevel::Critical => String::from_str("critical"),
            LoggingLevel::Alert => String::from_str("alert"),
            LoggingLevel::Emergency => String::from_str("emergency"),
        };
        proof {
            assert(r@ =~= level_label(*self));
        }
        r
    }
}

/// The four thresholds the embedder's log backend distinguishes.
#[derive(Debug, Clone, Copy, PartialEq, Eq, Structural)]
pub enum LogFilterLevel {
    Debug,
    Info,
    Warn,
    Error,
}

/// The backend threshold a wire level maps to: `notice` reads as `info`;
/// `critical` as `error`; `alert` and `emergency` as `warn`. The embedder
/// applies the result to its log backend.
pub fn setup_logging(level: &LoggingLevel) -> (r: LogFilterLevel)
    ensures
        r == (match *level {
            LoggingLevel::Debug => LogFilterLevel::Debug,
            LoggingLevel::Info => LogFilterLevel::Info,
            LoggingLevel::Error => LogFilterLevel::Error,
            LoggingLevel::Notice => LogFilterLevel::Info,
            LoggingLevel::Warning => LogFilterLevel::Warn,
            LoggingLevel::Critical => LogFilterLevel::Error,
            LoggingLevel::Alert => LogFilterLevel::Warn,
            LoggingLevel::Emergency => LogFilterLevel::Warn,
        }),
{
    match level {
        LoggingLevel::Debug => LogFilterLevel::Debug,
        LoggingLevel::Info => LogFilterLevel::Info,
        LoggingLevel::Error => LogFilterLevel::Error,
        LoggingLevel::Notice => LogFilterLevel::Info,
        LoggingLevel::Warning => LogFilterLevel::Warn,
        LoggingLevel::Critical => LogFilterLevel::Error,
        LoggingLevel::Alert => LogFilterLevel::Warn,
        LoggingLevel::Emergency => LogFilterLevel::Warn,
    }
}

impl<'a> vstd::std_specs::convert::FromSpecImpl<&'a str> for LoggingLevel {
    open spec fn obeys_from_spec() -> bool {
        true
    }

    open spec fn from_spec(s: &'a str) -> LoggingLevel {
        spec_level_from(s@)
    }
}

impl<'a> From<&'a str> for LoggingLevel {
    /// The level a wire name denotes, read case-insensitively.
    fn from(level_str: &'a str) -> (r: LoggingLevel) {
        proof {
            reveal_strlit("debug");
            reveal_strlit("notice");
            reveal_strlit("warning");
            reveal_strlit("warn");
            reveal_strlit("error");
            reveal_strlit("critical");
            reveal_strlit("alert");
            reveal_strlit("emergency");
            assert(("debug")@ =~= level_label(LoggingLevel::Debug));
            assert(("notice")@ =~= level_label(LoggingLevel::Notice));
            assert(("warning")@ =~= level_label(LoggingLevel::Warning));
            assert(("warn")@ =~= seq!['w', 'a', 'r', 'n']);
            assert(("error")@ =~= level_label(LoggingLevel::Error));
            assert(("critical")@ =~= level_label(LoggingLevel::Critical));
            assert(("alert")@ =~= level_label(LoggingLevel::Alert));
            assert(("emergency")@ =~= level_label(LoggingLevel::Emergency));
        }
        if str_eq_ignore_case(level_str, "debug") {
            LoggingLevel::Debug
        } else if str_eq_ignore_case(level_str, "notice") {
            LoggingLevel::Notice
        } else if str_eq_ignore_case(level_str, "warning") {
            LoggingLevel::Warning
        } else if str_eq_ignore_case(level_str, "warn") {
            LoggingLevel::Warning
        } else if str_eq_ignore_case(level_str, "error") {
            LoggingLevel::Error
        } else if str_eq_ignore_case(level_str, "critical") {
            LoggingLevel::Critical
        } else if str_eq_ignore_case(level_str, "alert") {
            LoggingLevel::Alert
        } else if str_eq_ignore_case(level_str, "emergency") {
            LoggingLevel::Emergency
        } else {
            LoggingLevel::Info
        }
    }
}

} // verus!
