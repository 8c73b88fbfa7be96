//! The chain of rules that the duplicator is run with by default.

use crate::clock::date_text;
use crate::pattern::{compiled, source_of};
use crate::rules::{wrapped, AnyRule, DateRule, IncrementRule, RuleError};
use crate::vfs::Vfs;
use crate::Duplicator;
use chrono::NaiveDateTime;
use vstd::prelude::*;

verus! {

/// Month and day, separated by a dash.
pub const DASHED_DAY: &'static str = "\\d{2}-\\d{2}";

/// Year, month and day, separated by dashes.
pub const DASHED_DATE: &'static str = "\\d{4}-\\d{2}-\\d{2}";

/// Month and day, separated by an underscore.
pub const UNDERSCORED_DAY: &'static str = "\\d{2}_\\d{2}";

/// Year, month and day, separated by underscores.
pub const UNDERSCORED_DATE: &'static str = "\\d{4}_\\d{2}_\\d{2}";

/// Whether `rule` is the date rule that `DateRule::compile` builds of
/// `pattern`, `date_fmt` and `now`.
pub open spec fn is_date_rule(
    rule: AnyRule,
    pattern: Seq<char>,
    date_fmt: Seq<char>,
    now: NaiveDateTime,
) -> bool {
    &&& rule matches AnyRule::Date(date)
    &&& compiled(wrapped(pattern)) == Some(date.regex())
    &&& source_of(date.regex()) == wrapped(pattern)
    &&& date.date_fmt() == date_fmt
    &&& date.now() == now
    &&& date_text(now, date_fmt) == Some(date.stamp())
}

/// Why no date rule can be built of `pattern`, `date_fmt` and `now`, if none can.
pub open spec fn date_rule_error(
    pattern: Seq<char>,
    date_fmt: Seq<char>,
    now: NaiveDateTime,
) -> Option<RuleError> {
    if compiled(wrapped(pattern)) is None {
        Some(RuleError::Pattern)
    } else if date_text(now, date_fmt) is None {
        Some(RuleError::DateFormat)
    } else {
        None
    }
}

/// Whether `rules` is the standard chain for `now`: dashed dates first, the
/// short form before the long one, then underscored dates, then counting up.
pub open spec fn is_standard_chain(rules: Seq<AnyRule>, now: NaiveDateTime) -> bool {
    &&& rules.len() == 5
    &&& is_date_rule(rules[0], DASHED_DAY@, "%m-%d"@, now)
    &&& is_date_rule(rules[1], DASHED_DATE@, "%y-%m-%d"@, now)
    &&& is_date_rule(rules[2], UNDERSCORED_DAY@, "%m_%d"@, now)
    &&& is_date_rule(rules[3], UNDERSCORED_DATE@, "%y_%m_%d"@, now)
    &&& rules[4] is Increment
}

/// Why the standard chain cannot be built for `now`, if it cannot: the error
/// of the first of its date rules that cannot be built.
pub open spec fn standard_chain_error(now: NaiveDateTime) -> Option<RuleError> {
    if date_rule_error(DASHED_DAY@, "%m-%d"@, now) is Some {
        date_rule_error(DASHED_DAY@, "%m-%d"@, now)
    } else if date_rule_error(DASHED_DATE@, "%y-%m-%d"@, now) is Some {
        date_rule_error(DASHED_DATE@, "%y-%m-%d"@, now)
    } else if date_rule_error(UNDERSCORED_DAY@, "%m_%d"@, now) is Some {
        date_rule_error(UNDERSCORED_DAY@, "%m_%d"@, now)
    } else {
        date_rule_error(UNDERSCORED_DATE@, "%y_%m_%d"@, now)
    }
}

/// The standard chain of rules for `now`.
///
/// Fails if and only if one of the date rules cannot be built, with the
/// error of the first that cannot.
pub fn standard_rules(now: NaiveDateTime) -> (made: Result<Vec<AnyRule>, RuleError>)
    ensures
        match made {
            Ok(rules) => standard_chain_error(now) is None && is_standard_chain(rules@, now),
            Err(e) => standard_chain_error(now) == Some(e),
        },
{
    let r1 = match DateRule::compile(DASHED_DAY, "%m-%d", now) {
        Ok(rule) => rule,
        Err(e) => {
            return Err(e);
        },
    };
    let r2 = match DateRule::compile(DASHED_DATE, "%y-%m-%d", now) {
        Ok(rule) => rule,
        Err(e) => {
            return Err(e);
        },
    };
    let r3 = match DateRule::compile(UNDERSCORED_DAY, "%m_%d", now) {
        Ok(rule) => rule,
        Err(e) => {
            return Err(e);
        },
    };
    let r4 = match DateRule::compile(UNDERSCORED_DATE, "%y_%m_%d", now) {
        Ok(rule) => rule,
        Err(e) => {
            return Err(e);
        },
    };
    let mut rules: Vec<AnyRule> = Vec::new();
    rules.push(AnyRule::Date(r1));
    rules.push(AnyRule::Date(r2));
    rules.push(AnyRule::Date(r3));
    rules.push(AnyRule::Date(r4));
    rules.push(AnyRule::Increment(IncrementRule::new()));
    Ok(rules)
}

/// A duplicator on `vfs` with the standard chain of rules for `now`.
///
/// Fails if and only if the standard chain cannot be built for `now`, with
/// the error of `standard_rules`.
pub fn get_duplicator<V: Vfs>(vfs: V, now: NaiveDateTime, fallthrough: bool) -> (made: Result<
    Duplicator<AnyRule, V>,
    RuleError,
>)
    ensures
        match made {
            Ok(duplicator) => {
                &&& standard_chain_error(now) is None
                &&& is_standard_chain(duplicator.rules(), now)
                &&& duplicator.file_system() == vfs
                &&& duplicator.fallthrough() == fallthrough
            },
            Err(e) => standard_chain_error(now) == Some(e),
        },
{
    match standard_rules(now) {
        Ok(rules) => Ok(Duplicator::new(rules, vfs, fallthrough)),
        Err(e) => Err(e),
    }
}

} // verus!
