//! Classification: the level of a raw log line, from the level the daemon
//! recorded, a `level` member of a JSON line, or the first rule whose
//! pattern matches.

use vstd::prelude::*;
use vstd::string::{StrSliceExecFns, StringExecFns};

use crate::log_engine::{LogLevel, ProcessedEntry, ProcessedEntryView};
use crate::order::{positions, rank_desc, ranked};
use crate::outside::{
    json_member_text, json_string_member, lowercase, pattern_error, pattern_matches,
    regex_matches, regex_valid, to_lowercase,
};
use crate::protocol::{views, LogEntry, LogEntryView};
use crate::text::str_eq;

verus! {

/// The pattern of the default rule for `Fatal`.
pub const FATAL_PATTERN: &'static str = "(?i)\\b(fatal|panic|critical)\\b";

/// The pattern of the default rule for `Error`.
pub const ERROR_PATTERN: &'static str = "(?i)\\b(error|err|exception|fail(ed|ure)?)\\b";

/// The pattern of the default rule for `Warn`.
pub const WARN_PATTERN: &'static str = "(?i)\\b(warn(ing)?|deprecated)\\b";

/// The pattern of the default rule for `Debug`.
pub const DEBUG_PATTERN: &'static str = "(?i)\\b(debug|trace|verbose)\\b";

/// A rule: lines that the regular expression matches have the level. Rules
/// of higher priority are tried first.
#[derive(Debug, Clone)]
pub struct ClassificationRule {
    pub pattern: String,
    pub level: LogLevel,
    pub priority: u8,
}

/// The mathematical content of a [`ClassificationRule`].
pub struct RuleView {
    pub pattern: Seq<char>,
    pub level: LogLevel,
    pub priority: u8,
}

impl View for ClassificationRule {
    type V = RuleView;

    open spec fn view(&self) -> RuleView {
        RuleView { pattern: self.pattern@, level: self.level, priority: self.priority }
    }
}

/// The default rules, in the order in which they are tried.
pub open spec fn default_rules() -> Seq<RuleView> {
    seq![
        RuleView { pattern: FATAL_PATTERN@, level: LogLevel::Fatal, priority: 10 },
        RuleView { pattern: ERROR_PATTERN@, level: LogLevel::Error, priority: 8 },
        RuleView { pattern: WARN_PATTERN@, level: LogLevel::Warn, priority: 6 },
        RuleView { pattern: DEBUG_PATTERN@, level: LogLevel::Debug, priority: 4 },
    ]
}

/// The priorities of a sequence of rules.
pub open spec fn priorities(rules: Seq<RuleView>) -> Seq<u64> {
    rules.map_values(|r: RuleView| r.priority as u64)
}

/// The rules ordered by descending priority, rules of equal priority in
/// their given order.
pub open spec fn by_priority(rules: Seq<RuleView>) -> Seq<RuleView> {
    ranked(priorities(rules)).map_values(|i: int| rules[i])
}

/// Whether a rule applies to a message: its pattern is a regular
/// expression and matches somewhere in the message.
pub open spec fn rule_applies(rule: RuleView, message: Seq<char>) -> bool {
    regex_valid(rule.pattern) && regex_matches(rule.pattern, message)
}

/// The level of the first rule that applies to the message.
pub open spec fn first_match(rules: Seq<RuleView>, message: Seq<char>) -> Option<LogLevel>
    decreases rules.len(),
{
    if rules.len() == 0 {
        None
    } else if rule_applies(rules[0], message) {
        Some(rules[0].level)
    } else {
        first_match(rules.drop_first(), message)
    }
}

/// The level that a lower-case level name of a JSON line stands for.
pub open spec fn named_level(name: Seq<char>) -> LogLevel {
    if name == "fatal"@ || name == "panic"@ || name == "critical"@ {
        LogLevel::Fatal
    } else if name == "error"@ || name == "err"@ {
        LogLevel::Error
    } else if name == "warn"@ || name == "warning"@ {
        LogLevel::Warn
    } else if name == "debug"@ || name == "trace"@ {
        LogLevel::Debug
    } else {
        LogLevel::Info
    }
}

/// The level under which a line on the given stream is filed when a rule
/// says `level`: nothing on stderr is below `Warn`.
pub open spec fn with_stderr_floor(level: LogLevel, stream: u8) -> LogLevel {
    if stream == 1 && level.rank_spec() < LogLevel::Warn.rank_spec() {
        LogLevel::Warn
    } else {
        level
    }
}

/// The level of a raw entry under the given rules.
///
/// A level other than `Info` that the daemon recorded stands. Else, if the
/// message begins with `{` and is a JSON object with a string member
/// `level`, the lower-cased member names the level. Else the first rule
/// that applies gives the level, raised to `Warn` on stderr. Else the
/// level is `Warn` on stderr and `Info` elsewhere.
pub open spec fn classified(rules: Seq<RuleView>, e: LogEntryView) -> LogLevel {
    if e.level != 1 {
        LogLevel::of_rank(e.level)
    } else if e.message.len() > 0 && e.message[0] == '{' && json_string_member(
        e.message,
        "level"@,
    ) is Some {
        named_level(lowercase(json_string_member(e.message, "level"@)->0))
    } else {
        match first_match(rules, e.message) {
            Some(level) => with_stderr_floor(level, e.stream),
            None => if e.stream == 1 {
                LogLevel::Warn
            } else {
                LogLevel::Info
            },
        }
    }
}

/// The entry with its classified level.
pub open spec fn classified_entry(rules: Seq<RuleView>, e: LogEntryView) -> ProcessedEntryView {
    ProcessedEntryView {
        timestamp_ms: e.timestamp_ms,
        level: classified(rules, e),
        stream: e.stream,
        message: e.message,
    }
}

/// Tells the level that a lower-case level name stands for.
fn level_of_name(name: &str) -> (l: LogLevel)
    ensures
        l == named_level(name@),
{
    if str_eq(name, "fatal") || str_eq(name, "panic") || str_eq(name, "critical") {
        LogLevel::Fatal
    } else if str_eq(name, "error") || str_eq(name, "err") {
        LogLevel::Error
    } else if str_eq(name, "warn") || str_eq(name, "warning") {
        LogLevel::Warn
    } else if str_eq(name, "debug") || str_eq(name, "trace") {
        LogLevel::Debug
    } else {
        LogLevel::Info
    }
}

/// Finds the level of log lines that carry none.
pub struct Classifier {
    rules: Vec<ClassificationRule>,
}

impl Classifier {
    /// The rules, in the order in which they are tried.
    pub closed spec fn rules(&self) -> Seq<RuleView> {
        views(self.rules@)
    }

    /// A classifier with the default rules.
    pub fn with_defaults() -> (c: Self)
        ensures
            c.rules() == default_rules(),
    {
        let mut rules: Vec<ClassificationRule> = Vec::new();
        rules.push(
            ClassificationRule {
                pattern: String::from_str(FATAL_PATTERN),
                level: LogLevel::Fatal,
                priority: 10,
            },
        );
        rules.push(
            ClassificationRule {
                pattern: String::from_str(ERROR_PATTERN),
                level: LogLevel::Error,
                priority: 8,
            },
        );
        rules.push(
            ClassificationRule {
                pattern: String::from_str(WARN_PATTERN),
                level: LogLevel::Warn,
                priority: 6,
            },
        );
        rules.push(
            ClassificationRule {
                pattern: String::from_str(DEBUG_PATTERN),
                level: LogLevel::Debug,
                priority: 4,
            },
        );
        assert(views(rules@) =~= default_rules());
        Self { rules }
    }

    /// A classifier without rules.
    pub fn empty() -> (c: Self)
        ensures
            c.rules() == Seq::<RuleView>::empty(),
    {
        let rules: Vec<ClassificationRule> = Vec::new();
        assert(views(rules@) =~= Seq::<RuleView>::empty());
        Self { rules }
    }

    /// Adds a rule and orders all rules by descending priority, rules of
    /// equal priority staying in the order in which they were added. A
    /// pattern that is no regular expression adds nothing.
    pub fn add_rule(&mut self, pattern: &str, level: LogLevel, priority: u8)
        ensures
            final(self).rules() == if regex_valid(pattern@) {
                by_priority(old(self).rules().push(RuleView { pattern: pattern@, level, priority }))
            } else {
                old(self).rules()
            },
    {
        if pattern_error(pattern).is_some() {
            return ;
        }
        let ghost all = views(self.rules@).push(RuleView { pattern: pattern@, level, priority });
        self.rules.push(ClassificationRule { pattern: String::from_str(pattern), level, priority });
        assert(views(self.rules@) =~= all);
        let mut keys: Vec<u64> = Vec::new();
        let mut k: usize = 0;
        while k < self.rules.len()
            invariant
                k <= self.rules.len(),
                all == views(self.rules@),
                keys@ == priorities(all).take(k as int),
            decreases self.rules.len() - k,
        {
            keys.push(self.rules[k].priority as u64);
            k += 1;
            assert(keys@ =~= priorities(all).take(k as int));
        }
        assert(priorities(all).take(all.len() as int) =~= priorities(all));
        let order = rank_desc(&keys);
        let mut sorted: Vec<ClassificationRule> = Vec::new();
        let mut p: usize = 0;
        while p < order.len()
            invariant
                p <= order.len(),
                all == views(self.rules@),
                order@.len() == all.len(),
                positions(order@) == ranked(priorities(all)),
                forall|q: int|
                    0 <= q < order@.len() ==> 0 <= #[trigger] positions(order@)[q] < all.len(),
                sorted@.len() == p,
                forall|q: int| 0 <= q < p ==> (#[trigger] sorted@[q])@ == all[order@[q] as int],
            decreases order.len() - p,
        {
            assert(positions(order@)[p as int] == order@[p as int]);
            let r = &self.rules[order[p]];
            sorted.push(
                ClassificationRule {
                    pattern: r.pattern.clone(),
                    level: r.level,
                    priority: r.priority,
                },
            );
            p += 1;
        }
        proof {
            let expected = by_priority(all);
            assert forall|q: int| 0 <= q < expected.len() implies views(sorted@)[q]
                == expected[q] by {
                assert(positions(order@)[q] == order@[q]);
            }
            assert(views(sorted@) =~= expected);
        }
        self.rules = sorted;
    }

    /// The level of the first rule that applies to `message`.
    fn match_rules(&self, message: &str) -> (r: Option<LogLevel>)
        ensures
            r == first_match(self.rules(), message@),
    {
        let mut i: usize = 0;
        assert(views(self.rules@).skip(0) =~= views(self.rules@));
        while i < self.rules.len()
            invariant
                i <= self.rules.len(),
                first_match(views(self.rules@), message@) == first_match(
                    views(self.rules@).skip(i as int),
                    message@,
                ),
            decreases self.rules.len() - i,
        {
            assert(views(self.rules@).skip(i as int)[0] == self.rules@[i as int]@);
            assert(views(self.rules@).skip(i as int).drop_first() =~= views(self.rules@).skip(
                i + 1,
            ));
            match pattern_matches(self.rules[i].pattern.as_str(), message) {
                Some(true) => {
                    return Some(self.rules[i].level);
                },
                _ => {},
            }
            i += 1;
        }
        None
    }

    /// Classifies a single log entry.
    pub fn classify(&self, entry: &LogEntry) -> (l: LogLevel)
        ensures
            l == classified(self.rules(), entry@),
    {
        if entry.level != 1 {
            return LogLevel::from_u8(entry.level);
        }
        let message: &str = entry.message.as_str();
        if !message.is_empty() && message.get_char(0) == '{' {
            match json_member_text(message, "level") {
                Some(name) => {
                    let lower = to_lowercase(name.as_str());
                    return level_of_name(lower.as_str());
                },
                None => {},
            }
        }
        match self.match_rules(message) {
            Some(level) => {
                if entry.stream == 1 && level.rank() < LogLevel::Warn.rank() {
                    LogLevel::Warn
                } else {
                    level
                }
            },
            None => {
                if entry.stream == 1 {
                    LogLevel::Warn
                } else {
                    LogLevel::Info
                }
            },
        }
    }

    /// Classifies a batch of raw entries.
    pub fn classify_batch(&self, entries: &[LogEntry]) -> (out: Vec<ProcessedEntry>)
        ensures
            out@.len() == entries@.len(),
            forall|i: int|
                0 <= i < out@.len() ==> (#[trigger] out@[i])@ == classified_entry(
                    self.rules(),
                    entries@[i]@,
                ),
    {
        let mut out: Vec<ProcessedEntry> = Vec::new();
        let mut i: usize = 0;
        while i < entries.len()
            invariant
                i <= entries.len(),
                out@.len() == i,
                forall|j: int|
                    0 <= j < i ==> (#[trigger] out@[j])@ == classified_entry(
                        self.rules(),
                        entries@[j]@,
                    ),
            decreases entries.len() - i,
        {
            let level = self.classify(&entries[i]);
            out.push(ProcessedEntry::from_raw(&entries[i], level));
            i += 1;
        }
        out
    }
}

} // verus!
