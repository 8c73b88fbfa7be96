//! What holds of every rule, every chain and every scan.

use crate::digits::{decimal, is_digit, is_shortest, lemma_decimal_is_shortest, number};
use crate::{known_after, known_after_batch};
use crate::rules::{digits_end, incremented, lemma_digits_end, Rule};
use crate::scan::{askable, first_candidate, lemma_first_candidate, plan};
use crate::text::option_view;
use vstd::prelude::*;

verus! {

/// A rule is pure: whatever two applications of one rule to one name return,
/// they return the same.
pub proof fn law_apply_is_pure<R: Rule>(
    rule: &R,
    input: &str,
    first: Option<String>,
    second: Option<String>,
)
    requires
        call_ensures(R::apply, (rule, input), first),
        call_ensures(R::apply, (rule, input), second),
    ensures
        option_view(first) == option_view(second),
{
}

/// A rule that declines a name once declines it every time.
pub proof fn law_decline_is_final<R: Rule>(
    rule: &R,
    input: &str,
    first: Option<String>,
    second: Option<String>,
)
    requires
        call_ensures(R::apply, (rule, input), first),
        call_ensures(R::apply, (rule, input), second),
        first is None,
    ensures
        second is None,
{
}

/// A planned copy goes from the name that the last rule was asked about to a
/// name that is not taken.
pub proof fn law_target_is_free<R: Rule>(
    rules: Seq<R>,
    fallthrough: bool,
    known: Set<Seq<char>>,
    from: int,
    input: Seq<char>,
)
    ensures
        plan(rules, fallthrough, known, from, input) matches Some((source, target))
            ==> !known.contains(target),
    decreases rules.len() - from,
{
    if 0 <= from < rules.len() {
        match rules[from].transform(input) {
            None => law_target_is_free(rules, fallthrough, known, from + 1, input),
            Some(candidate) => {
                if known.contains(candidate) && fallthrough {
                    law_target_is_free(rules, fallthrough, known, from + 1, candidate);
                }
            },
        }
    }
}

/// A planned copy starts from the file itself or from a name that is taken:
/// a scan moves on from `input` only to a candidate that it found taken.
pub proof fn law_source_is_input_or_taken<R: Rule>(
    rules: Seq<R>,
    fallthrough: bool,
    known: Set<Seq<char>>,
    from: int,
    input: Seq<char>,
)
    ensures
        plan(rules, fallthrough, known, from, input) matches Some((source, target)) ==> source
            == input || known.contains(source),
        !fallthrough ==> (plan(rules, fallthrough, known, from, input) matches Some(
            (source, target),
        ) ==> source == input),
    decreases rules.len() - from,
{
    if 0 <= from < rules.len() {
        match rules[from].transform(input) {
            None => law_source_is_input_or_taken(rules, fallthrough, known, from + 1, input),
            Some(candidate) => {
                if known.contains(candidate) && fallthrough {
                    law_source_is_input_or_taken(rules, fallthrough, known, from + 1, candidate);
                }
            },
        }
    }
}

/// Handling one file hands the file system at most one copy: the known
/// paths stay as they were, or grow by the one planned target, and they grow
/// only where the copy was made.
pub proof fn law_at_most_one_copy<R: Rule>(
    rules: Seq<R>,
    fallthrough: bool,
    known: Set<Seq<char>>,
    file: Seq<char>,
    copied: bool,
)
    ensures
        ({
            let planned = plan(rules, fallthrough, known, 0, file);
            let after = known_after(known, planned, copied);
            &&& !copied ==> after == known
            &&& planned is None ==> after == known
            &&& after != known ==> (planned matches Some((source, target)) && after
                == known.insert(target) && !known.contains(target))
        }),
{
    law_target_is_free(rules, fallthrough, known, 0, file);
}

/// The first rule that proposes a name that is not taken wins: where the
/// rules before place `at` decline `input` and the rule at `at` proposes a
/// free name, that name is the target, whatever the rules behind it would say.
pub proof fn law_first_free_candidate_wins<R: Rule>(
    rules: Seq<R>,
    fallthrough: bool,
    known: Set<Seq<char>>,
    input: Seq<char>,
    at: int,
    candidate: Seq<char>,
)
    requires
        0 <= at < rules.len(),
        forall|k: int| 0 <= k < at ==> (#[trigger] rules[k]).transform(input) is None,
        rules[at].transform(input) == Some(candidate),
        !known.contains(candidate),
    ensures
        plan(rules, fallthrough, known, 0, input) == Some((input, candidate)),
{
    lemma_skip_declining(rules, fallthrough, known, input, 0, at);
}

/// A scan passes over rules that decline: where the rules from `from` up to
/// `at` decline `input`, the scan from `from` is the scan from `at`.
pub proof fn lemma_skip_declining<R: Rule>(
    rules: Seq<R>,
    fallthrough: bool,
    known: Set<Seq<char>>,
    input: Seq<char>,
    from: int,
    at: int,
)
    requires
        0 <= from <= at <= rules.len(),
        forall|k: int| from <= k < at ==> (#[trigger] rules[k]).transform(input) is None,
    ensures
        plan(rules, fallthrough, known, from, input) == plan(rules, fallthrough, known, at, input),
    decreases at - from,
{
    if from < at {
        lemma_skip_declining(rules, fallthrough, known, input, from + 1, at);
    }
}

/// The order of the rules matters: of two rules that both propose a free
/// name for `input`, the one that stands first gives the target. So where
/// the two names differ, swapping the rules changes the outcome.
pub proof fn law_order_matters<R: Rule>(
    a: R,
    b: R,
    fallthrough: bool,
    known: Set<Seq<char>>,
    input: Seq<char>,
)
    requires
        a.transform(input) is Some,
        b.transform(input) is Some,
        !known.contains(a.transform(input).unwrap()),
        !known.contains(b.transform(input).unwrap()),
    ensures
        plan(seq![a, b], fallthrough, known, 0, input) == Some(
            (input, a.transform(input).unwrap()),
        ),
        plan(seq![b, a], fallthrough, known, 0, input) == Some(
            (input, b.transform(input).unwrap()),
        ),
{
}

/// Where every rule declines `input`, no copy is planned.
pub proof fn law_all_decline<R: Rule>(
    rules: Seq<R>,
    fallthrough: bool,
    known: Set<Seq<char>>,
    input: Seq<char>,
)
    requires
        forall|k: int| 0 <= k < rules.len() ==> (#[trigger] rules[k]).transform(input) is None,
    ensures
        plan(rules, fallthrough, known, 0, input) is None,
{
    lemma_skip_declining(rules, fallthrough, known, input, 0, rules.len() as int);
}

/// With fallthrough off, a first candidate that is taken ends the scan: no
/// copy is planned, whatever the rules behind it would propose.
pub proof fn law_collision_stops<R: Rule>(
    rules: Seq<R>,
    known: Set<Seq<char>>,
    input: Seq<char>,
)
    requires
        first_candidate(rules, 0, input) matches Some((at, candidate)) && known.contains(
            candidate,
        ),
    ensures
        plan(rules, false, known, 0, input) is None,
{
    lemma_first_candidate(rules, 0, input);
    let at = first_candidate(rules, 0, input).unwrap().0;
    lemma_skip_declining(rules, false, known, input, 0, at);
}

/// With fallthrough on, a first candidate that is taken sends the scan on
/// behind the rule that proposed it, with the candidate as the name to rename.
pub proof fn law_collision_falls_through<R: Rule>(
    rules: Seq<R>,
    known: Set<Seq<char>>,
    input: Seq<char>,
)
    requires
        first_candidate(rules, 0, input) matches Some((at, candidate)) && known.contains(
            candidate,
        ),
    ensures
        ({
            let (at, candidate) = first_candidate(rules, 0, input).unwrap();
            plan(rules, true, known, 0, input) == plan(rules, true, known, at + 1, candidate)
        }),
{
    lemma_first_candidate(rules, 0, input);
    let at = first_candidate(rules, 0, input).unwrap().0;
    lemma_skip_declining(rules, true, known, input, 0, at);
}

/// Counting up counts up: the digits written for the successor denote one
/// more than the digits before, and are written in shortest form.
pub proof fn law_successor_counts_up(digits: Seq<char>)
    ensures
        number(decimal(number(digits) + 1)) == number(digits) + 1,
        is_shortest(decimal(number(digits) + 1)),
{
    lemma_decimal_is_shortest(number(digits) + 1);
}

/// The counting rule declines a name if and only if the name holds no digit.
pub proof fn law_increment_needs_a_digit(name: Seq<char>)
    ensures
        incremented(name) is None <==> forall|i: int|
            0 <= i < name.len() ==> !is_digit(#[trigger] name[i]),
{
    if forall|i: int| 0 <= i < name.len() ==> !is_digit(#[trigger] name[i]) {
        lemma_digits_end(name, 0);
    } else {
        let i = choose|i: int| 0 <= i < name.len() && is_digit(#[trigger] name[i]);
        lemma_digit_before_end(name, i);
    }
}

/// Every digit of a name stands before the end of its last run of digits.
pub proof fn lemma_digit_before_end(name: Seq<char>, i: int)
    requires
        0 <= i < name.len(),
        is_digit(name[i]),
    ensures
        i < digits_end(name) <= name.len(),
    decreases name.len(),
{
    if !is_digit(name.last()) {
        lemma_digit_before_end(name.drop_last(), i);
    }
}

/// A batch forgets nothing: every path known before it is known after it.
pub proof fn law_batch_keeps_known<R: Rule>(
    rules: Seq<R>,
    fallthrough: bool,
    known: Set<Seq<char>>,
    files: Seq<Seq<char>>,
    copied: Seq<bool>,
)
    ensures
        known.subset_of(known_after_batch(rules, fallthrough, known, files, copied)),
    decreases files.len(),
{
    if files.len() > 0 && copied.len() == files.len() {
        law_batch_keeps_known(rules, fallthrough, known, files.drop_last(), copied.drop_last());
    }
}

/// A chain whose rules accept every name is askable about every name.
pub proof fn law_accepting_chain_is_askable<R: Rule>(
    rules: Seq<R>,
    fallthrough: bool,
    known: Set<Seq<char>>,
    from: int,
    input: Seq<char>,
)
    requires
        forall|k: int, name: Seq<char>| 0 <= k < rules.len() ==> #[trigger] rules[k].accepts(name),
    ensures
        askable(rules, fallthrough, known, from, input),
    decreases rules.len() - from,
{
    if 0 <= from < rules.len() {
        assert(rules[from].accepts(input));
        match rules[from].transform(input) {
            None => law_accepting_chain_is_askable(rules, fallthrough, known, from + 1, input),
            Some(candidate) => law_accepting_chain_is_askable(
                rules,
                fallthrough,
                known,
                from + 1,
                candidate,
            ),
        }
    }
}

} // verus!
