//! Renaming rules: from a file name to an optional new name.

pub use crate::clock::current_local_date_time;

use crate::clock::{date_text, format_date};
use crate::digits::{
    all_digits, decimal, is_ascii_digit, is_digit, lemma_decimal_is_shortest, number,
    number_within, successor,
};
use crate::pattern::{compiled, matches_in, replace_around, rewritten, source_of};
use crate::text::{from_chars, option_view, splice, to_chars};
use chrono::NaiveDateTime;
use regex::Regex;
use vstd::prelude::*;

verus! {

/// A rule for renaming a file.
///
/// A rule is a function of its own value and of the name it is given: it
/// either proposes a new name or declines. Applying a rule changes nothing,
/// so the same rule gives the same answer for the same name every time.
///
/// A rule may have names that it cannot be asked about at all. Such a name
/// is no decline: a chain that meets one is broken, and `apply` must not be
/// called on it. `can_apply` tells.
pub trait Rule {
    /// Whether this rule can be asked about `input`.
    spec fn accepts(&self, input: Seq<char>) -> bool;

    /// The name that this rule proposes for `input`, or `None` where it declines.
    spec fn transform(&self, input: Seq<char>) -> Option<Seq<char>>;

    /// The line that describes this rule in a listing of rules.
    spec fn description(&self) -> Seq<char>;

    /// Whether this rule can be asked about `input`.
    fn can_apply(&self, input: &str) -> (ok: bool)
        ensures
            ok == self.accepts(input@),
    ;

    /// Proposes a new name for `input`, or declines with `None`.
    fn apply(&self, input: &str) -> (renamed: Option<String>)
        requires
            self.accepts(input@),
        ensures
            option_view(renamed) == self.transform(input@),
    ;

    /// The line that describes this rule in a listing of rules.
    fn describe(&self) -> (line: String)
        ensures
            line@ == self.description(),
    ;
}

impl<R: Rule + ?Sized> Rule for Box<R> {
    open spec fn accepts(&self, input: Seq<char>) -> bool {
        (**self).accepts(input)
    }

    open spec fn transform(&self, input: Seq<char>) -> Option<Seq<char>> {
        (**self).transform(input)
    }

    open spec fn description(&self) -> Seq<char> {
        (**self).description()
    }

    fn can_apply(&self, input: &str) -> (ok: bool) {
        (**self).can_apply(input)
    }

    fn apply(&self, input: &str) -> (renamed: Option<String>) {
        (**self).apply(input)
    }

    fn describe(&self) -> (line: String) {
        (**self).describe()
    }
}

/// Why a rule could not be built.
#[derive(Debug, Clone, Copy, PartialEq, Eq, Structural)]
pub enum RuleError {
    /// The pattern is not a regular expression that `regex` accepts.
    Pattern,
    /// The date format cannot be written for the rule's date and time.
    DateFormat,
}

/// The regular expression that a date rule searches a name with: anything,
/// then `pattern`, then anything, each in a group of its own.
pub open spec fn wrapped(pattern: Seq<char>) -> Seq<char> {
    "(.*)("@ + pattern + ")(.*)"@
}

/// The name that a date rule proposes for `input`: `input` with the span that
/// the rule's pattern matched replaced by `stamp`, or `None` where `regex`
/// does not match in `input`.
pub open spec fn restamped(regex: Regex, stamp: Seq<char>, input: Seq<char>) -> Option<Seq<char>> {
    if matches_in(regex, input) {
        Some(rewritten(regex, input, stamp))
    } else {
        None
    }
}

/// The line that describes a date rule: the expression it searches with,
/// its date format, and the date as it writes it.
pub open spec fn date_rule_line(source: Seq<char>, date_fmt: Seq<char>, stamp: Seq<char>) -> Seq<
    char,
> {
    "DateRule { regex: "@ + source + ", date_fmt: "@ + date_fmt + ", date: "@ + stamp + " }"@
}

/// A rule for renaming files based on dates: where its pattern matches in a
/// name, the matched span is replaced by the rule's date, written once, when
/// the rule is built.
#[derive(Debug)]
pub struct DateRule {
    regex: Regex,
    date_fmt: String,
    now: NaiveDateTime,
    stamp: String,
}

impl DateRule {
    #[verifier::type_invariant]
    spec fn stamp_is_date_text(&self) -> bool {
        date_text(self.now, self.date_fmt@) == Some(self.stamp@)
    }

    /// The compiled expression that this rule searches names with.
    pub closed spec fn regex(&self) -> Regex {
        self.regex
    }

    /// The format that the rule's date is written in.
    pub closed spec fn date_fmt(&self) -> Seq<char> {
        self.date_fmt@
    }

    /// The date and time that the rule was built with.
    pub closed spec fn now(&self) -> NaiveDateTime {
        self.now
    }

    /// The text that replaces a matched span: the rule's date in the rule's format.
    pub closed spec fn stamp(&self) -> Seq<char> {
        self.stamp@
    }

    /// A rule that replaces what `regex` matches by `now` written in
    /// `date_fmt`, around what groups 1 and 3 of `regex` captured.
    ///
    /// Fails with `RuleError::DateFormat` if and only if `now` cannot be
    /// written in `date_fmt`.
    pub fn new(regex: Regex, date_fmt: &str, now: NaiveDateTime) -> (made: Result<Self, RuleError>)
        ensures
            match made {
                Ok(rule) => {
                    &&& rule.regex() == regex
                    &&& rule.date_fmt() == date_fmt@
                    &&& rule.now() == now
                    &&& date_text(now, date_fmt@) == Some(rule.stamp())
                },
                Err(e) => e == RuleError::DateFormat && date_text(now, date_fmt@) is None,
            },
    {
        match format_date(&now, date_fmt) {
            Some(stamp) => Ok(Self { regex, date_fmt: date_fmt.to_owned(), now, stamp }),
            None => Err(RuleError::DateFormat),
        }
    }

    /// The regular expression that matches `pattern` anywhere in a name.
    pub fn wrap(pattern: &str) -> (regex_str: String)
        ensures
            regex_str@ == wrapped(pattern@),
    {
        let mut regex_str = String::from_str("(.*)(");
        regex_str.append(pattern);
        regex_str.append(")(.*)");
        regex_str
    }

    /// A rule that replaces what `pattern` matches in a name by `now` written
    /// in `date_fmt`.
    ///
    /// Fails with `RuleError::Pattern` if and only if `pattern`, wrapped,
    /// does not compile, and else with `RuleError::DateFormat` if and only if
    /// `now` cannot be written in `date_fmt`.
    pub fn compile(pattern: &str, date_fmt: &str, now: NaiveDateTime) -> (made: Result<
        Self,
        RuleError,
    >)
        ensures
            match made {
                Ok(rule) => {
                    &&& compiled(wrapped(pattern@)) == Some(rule.regex())
                    &&& source_of(rule.regex()) == wrapped(pattern@)
                    &&& rule.date_fmt() == date_fmt@
                    &&& rule.now() == now
                    &&& date_text(now, date_fmt@) == Some(rule.stamp())
                },
                Err(RuleError::Pattern) => compiled(wrapped(pattern@)) is None,
                Err(RuleError::DateFormat) => compiled(wrapped(pattern@)) is Some && date_text(
                    now,
                    date_fmt@,
                ) is None,
            },
    {
        let regex_str = Self::wrap(pattern);
        match Regex::new(regex_str.as_str()) {
            Ok(regex) => Self::new(regex, date_fmt, now),
            Err(_) => Err(RuleError::Pattern),
        }
    }

    /// A rule that replaces what `pattern` matches in a name by the current
    /// date and time written in `date_fmt`.
    ///
    /// The clock is read once, here. Fails as `compile` does.
    pub fn compile_now(pattern: &str, date_fmt: &str) -> (made: Result<Self, RuleError>)
        ensures
            match made {
                Ok(rule) => {
                    &&& compiled(wrapped(pattern@)) == Some(rule.regex())
                    &&& source_of(rule.regex()) == wrapped(pattern@)
                    &&& rule.date_fmt() == date_fmt@
                    &&& date_text(rule.now(), date_fmt@) == Some(rule.stamp())
                },
                Err(RuleError::Pattern) => compiled(wrapped(pattern@)) is None,
                Err(RuleError::DateFormat) => compiled(wrapped(pattern@)) is Some,
            },
    {
        Self::compile(pattern, date_fmt, current_local_date_time())
    }
}

impl Rule for DateRule {
    open spec fn accepts(&self, input: Seq<char>) -> bool {
        true
    }

    open spec fn transform(&self, input: Seq<char>) -> Option<Seq<char>> {
        restamped(self.regex(), self.stamp(), input)
    }

    open spec fn description(&self) -> Seq<char> {
        date_rule_line(source_of(self.regex()), self.date_fmt(), self.stamp())
    }

    fn can_apply(&self, input: &str) -> (ok: bool) {
        true
    }

    fn apply(&self, input: &str) -> (renamed: Option<String>) {
        if self.regex.is_match(input) {
            Some(replace_around(&self.regex, input, self.stamp.as_str()))
        } else {
            None
        }
    }

    fn describe(&self) -> (line: String) {
        let mut line = String::from_str("DateRule { regex: ");
        line.append(self.regex.as_str());
        line.append(", date_fmt: ");
        line.append(self.date_fmt.as_str());
        line.append(", date: ");
        line.append(self.stamp.as_str());
        line.append(" }");
        line
    }
}

/// One past the last digit of `name`, or zero where `name` holds no digit.
pub open spec fn digits_end(name: Seq<char>) -> int
    decreases name.len(),
{
    if name.len() == 0 {
        0
    } else if is_digit(name.last()) {
        name.len() as int
    } else {
        digits_end(name.drop_last())
    }
}

/// Where the run of digits that ends just before `end` begins.
pub open spec fn digits_start(name: Seq<char>, end: int) -> int
    decreases end,
{
    if 0 < end <= name.len() && is_digit(name[end - 1]) {
        digits_start(name, end - 1)
    } else {
        end
    }
}

/// `name` with its last run of digits replaced by the number after the one
/// that the run denotes, or `None` where `name` holds no digit.
///
/// The run is taken whole, so `"take19.txt"` becomes `"take20.txt"`, and the
/// new number is written without leading zeros: `"take007"` becomes `"take8"`.
pub open spec fn incremented(name: Seq<char>) -> Option<Seq<char>> {
    let end = digits_end(name);
    let start = digits_start(name, end);
    if end == 0 {
        None
    } else {
        Some(
            name.subrange(0, start) + decimal(number(name.subrange(start, end)) + 1)
                + name.subrange(end, name.len() as int),
        )
    }
}

/// The last digit of a name is found by its place: no digit stands at or
/// after `end`, and `end` is zero or a digit stands just before it.
pub proof fn lemma_digits_end(name: Seq<char>, end: int)
    requires
        0 <= end <= name.len(),
        forall|i: int| end <= i < name.len() ==> !is_digit(#[trigger] name[i]),
        end == 0 || is_digit(name[end - 1]),
    ensures
        digits_end(name) == end,
    decreases name.len(),
{
    if end < name.len() {
        lemma_digits_end(name.drop_last(), end);
    }
}

/// The start of a digit run is found by its place: digits fill `start..end`,
/// and `start` is zero or something other than a digit stands just before it.
pub proof fn lemma_digits_start(name: Seq<char>, start: int, end: int)
    requires
        0 <= start <= end <= name.len(),
        forall|i: int| start <= i < end ==> is_digit(#[trigger] name[i]),
        start == 0 || !is_digit(name[start - 1]),
    ensures
        digits_start(name, end) == start,
    decreases end - start,
{
    if start < end {
        lemma_digits_start(name, start, end - 1);
    }
}

/// Whether `digits` can be counted up in a 32-bit integer: they are digits,
/// one at least, and the number after the one they denote is no more than
/// the largest such integer.
pub open spec fn counts_up(digits: Seq<char>) -> bool {
    &&& digits.len() > 0
    &&& all_digits(digits)
    &&& number(digits) < i32::MAX
}

/// Whether the counting rule can be asked about `name`: it holds no digit,
/// or its last run of digits can be counted up in a 32-bit integer.
pub open spec fn countable(name: Seq<char>) -> bool {
    let end = digits_end(name);
    let start = digits_start(name, end);
    end == 0 || counts_up(name.subrange(start, end))
}

/// A rule that counts up the last number in a name: `take3.txt` becomes `take4.txt`.
///
/// The number is a 32-bit integer. A name whose last run of digits denotes
/// more than the rule can count up is no name for this rule: it is neither
/// declined nor renamed, and the rule must not be asked about it.
#[derive(Debug)]
pub struct IncrementRule {}

impl IncrementRule {
    /// The counting rule. It holds nothing: there is one such rule.
    pub fn new() -> (rule: Self) {
        Self {  }
    }

    /// The number after the one that the digits of `nstr` denote, in decimal.
    pub fn increment(nstr: &str) -> (next: String)
        requires
            counts_up(nstr@),
        ensures
            next@ == decimal(number(nstr@) + 1),
            number(next@) == number(nstr@) + 1,
            number(next@) <= i32::MAX,
    {
        proof {
            lemma_decimal_is_shortest(number(nstr@) + 1);
        }
        let digits = to_chars(nstr);
        from_chars(&successor(&digits))
    }

    /// Where the last run of digits of `chars` begins and ends.
    fn last_run(chars: &Vec<char>) -> (run: (usize, usize))
        ensures
            run.1 == digits_end(chars@),
            run.0 == digits_start(chars@, run.1 as int),
            run.0 <= run.1 <= chars@.len(),
            run.1 > 0 ==> run.0 < run.1,
            all_digits(chars@.subrange(run.0 as int, run.1 as int)),
    {
        let mut end: usize = chars.len();
        while end > 0 && !is_ascii_digit(chars[end - 1])
            invariant
                end <= chars@.len(),
                forall|i: int| end <= i < chars@.len() ==> !is_digit(#[trigger] chars@[i]),
            decreases end,
        {
            end -= 1;
        }
        let mut start: usize = end;
        while start > 0 && is_ascii_digit(chars[start - 1])
            invariant
                start <= end <= chars@.len(),
                forall|i: int| start <= i < end ==> is_digit(#[trigger] chars@[i]),
            decreases start,
        {
            start -= 1;
        }
        proof {
            lemma_digits_end(chars@, end as int);
            lemma_digits_start(chars@, start as int, end as int);
            let run = chars@.subrange(start as int, end as int);
            assert forall|i: int| 0 <= i < run.len() implies is_digit(#[trigger] run[i]) by {
                assert(is_digit(chars@[start + i]));
            }
        }
        (start, end)
    }
}

impl Rule for IncrementRule {
    open spec fn accepts(&self, input: Seq<char>) -> bool {
        countable(input)
    }

    open spec fn transform(&self, input: Seq<char>) -> Option<Seq<char>> {
        incremented(input)
    }

    open spec fn description(&self) -> Seq<char> {
        "IncrementRule"@
    }

    fn can_apply(&self, input: &str) -> (ok: bool) {
        let chars = to_chars(input);
        let (start, end) = Self::last_run(&chars);
        if end == 0 {
            return true;
        }
        let run = to_chars(input.substring_char(start, end));
        assert(run@ == input@.subrange(start as int, end as int));
        match number_within(&run, 0x7fff_fffe) {
            Some(_) => true,
            None => false,
        }
    }

    fn apply(&self, input: &str) -> (renamed: Option<String>) {
        let chars = to_chars(input);
        let (start, end) = Self::last_run(&chars);
        if end == 0 {
            return None;
        }
        let before = input.substring_char(0, start);
        let run = input.substring_char(start, end);
        let after = input.substring_char(end, chars.len());
        Some(splice(Some(before), Self::increment(run).as_str(), Some(after)))
    }

    fn describe(&self) -> (line: String) {
        String::from_str("IncrementRule")
    }
}

/// Either kind of rule, so that one chain can hold both.
#[derive(Debug)]
pub enum AnyRule {
    Date(DateRule),
    Increment(IncrementRule),
}

impl Rule for AnyRule {
    open spec fn accepts(&self, input: Seq<char>) -> bool {
        match self {
            AnyRule::Date(rule) => rule.accepts(input),
            AnyRule::Increment(rule) => rule.accepts(input),
        }
    }

    open spec fn transform(&self, input: Seq<char>) -> Option<Seq<char>> {
        match self {
            AnyRule::Date(rule) => rule.transform(input),
            AnyRule::Increment(rule) => rule.transform(input),
        }
    }

    open spec fn description(&self) -> Seq<char> {
        match self {
            AnyRule::Date(rule) => rule.description(),
            AnyRule::Increment(rule) => rule.description(),
        }
    }

    fn can_apply(&self, input: &str) -> (ok: bool) {
        match self {
            AnyRule::Date(rule) => rule.can_apply(input),
            AnyRule::Increment(rule) => rule.can_apply(input),
        }
    }

    fn apply(&self, input: &str) -> (renamed: Option<String>) {
        match self {
            AnyRule::Date(rule) => rule.apply(input),
            AnyRule::Increment(rule) => rule.apply(input),
        }
    }

    fn describe(&self) -> (line: String) {
        match self {
            AnyRule::Date(rule) => rule.describe(),
            AnyRule::Increment(rule) => rule.describe(),
        }
    }
}

} // verus!
