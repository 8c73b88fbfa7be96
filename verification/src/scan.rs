//! The scan of a rule chain for one file, one step at a time.
//!
//! A scan decides; it touches no file system. It asks whether a name is
//! taken, hears the answer, and in the end names the one copy to make, or
//! gives up. Whoever runs the scan does what it asks.
//!
//! A scan asks a rule only about a name that the rule accepts. Where it
//! meets a name that the next rule does not accept, it stops and says so:
//! that is a broken chain, not a file without a copy.

use crate::rules::Rule;
use vstd::prelude::*;

verus! {

/// The first rule at or behind place `from` that proposes a name for `input`,
/// with the name it proposes; `None` where all of them decline.
pub open spec fn first_candidate<R: Rule>(rules: Seq<R>, from: int, input: Seq<char>) -> Option<
    (int, Seq<char>),
>
    decreases rules.len() - from,
{
    if from < 0 || from >= rules.len() {
        None
    } else {
        match rules[from].transform(input) {
            Some(candidate) => Some((from, candidate)),
            None => first_candidate(rules, from + 1, input),
        }
    }
}

/// The place of the rule at which a search for a candidate from place `from`
/// on is refused: the first rule that does not accept `input`, where all
/// rules before it decline. `None` where the search is not refused.
pub open spec fn first_refusal<R: Rule>(rules: Seq<R>, from: int, input: Seq<char>) -> Option<int>
    decreases rules.len() - from,
{
    if from < 0 || from >= rules.len() {
        None
    } else if !rules[from].accepts(input) {
        Some(from)
    } else if rules[from].transform(input) is Some {
        None
    } else {
        first_refusal(rules, from + 1, input)
    }
}

/// Whether a scan from place `from` on asks each rule only about a name
/// that the rule accepts, where `known` are the paths that are taken.
pub open spec fn askable<R: Rule>(
    rules: Seq<R>,
    fallthrough: bool,
    known: Set<Seq<char>>,
    from: int,
    input: Seq<char>,
) -> bool
    decreases rules.len() - from,
{
    if from < 0 || from >= rules.len() {
        true
    } else {
        &&& rules[from].accepts(input)
        &&& match rules[from].transform(input) {
            None => askable(rules, fallthrough, known, from + 1, input),
            Some(candidate) => known.contains(candidate) && fallthrough ==> askable(
                rules,
                fallthrough,
                known,
                from + 1,
                candidate,
            ),
        }
    }
}

/// The copy that a scan of the chain settles on: `Some((source, target))`
/// where the file at `source` is to be copied to `target`, `None` where no
/// copy is to be made.
///
/// The scan asks the rules from place `from` on, in order, for a new name for
/// `input`. A rule that declines is passed over. The first rule that proposes
/// a name decides: a name that is not taken is the target. A name that is
/// taken ends the scan where `fallthrough` is off. Where it is on, the scan
/// goes on behind that rule, and the taken name takes the place of `input`.
pub open spec fn plan<R: Rule>(
    rules: Seq<R>,
    fallthrough: bool,
    known: Set<Seq<char>>,
    from: int,
    input: Seq<char>,
) -> Option<(Seq<char>, Seq<char>)>
    decreases rules.len() - from,
{
    if from < 0 || from >= rules.len() {
        None
    } else {
        match rules[from].transform(input) {
            None => plan(rules, fallthrough, known, from + 1, input),
            Some(candidate) => if !known.contains(candidate) {
                Some((input, candidate))
            } else if fallthrough {
                plan(rules, fallthrough, known, from + 1, candidate)
            } else {
                None
            },
        }
    }
}

/// Where a scan stands while it waits to hear whether a name is taken.
#[derive(Debug)]
pub struct Scan {
    rule: usize,
    input: String,
    candidate: String,
}

/// What a scan asks for next.
#[derive(Debug)]
pub enum Step {
    /// Find out whether the candidate of this scan is taken, and `resume`.
    Probe(Scan),
    /// Copy the file at `from` to `to`. The scan is over, and the file is
    /// duplicated if and only if this copy is made.
    Copy { from: String, to: String },
    /// Make no copy. The scan is over, and the file is not duplicated.
    GiveUp,
    /// The rule at place `rule` does not accept `input`, so the scan cannot
    /// go on. The chain is broken: this is no answer for the file, and a
    /// program should stop on it rather than pass the file over.
    Refused { rule: usize, input: String },
}

impl Scan {
    /// The place in the chain of the rule that proposed the candidate.
    pub closed spec fn rule(&self) -> int {
        self.rule as int
    }

    /// The name that the rule was asked about.
    pub closed spec fn input(&self) -> Seq<char> {
        self.input@
    }

    /// The name that the rule proposed.
    pub closed spec fn proposed(&self) -> Seq<char> {
        self.candidate@
    }

    /// The name of which the scan wants to know whether it is taken.
    pub fn candidate(&self) -> (name: &str)
        ensures
            name@ == self.proposed(),
    {
        self.candidate.as_str()
    }

    /// The place in the chain of the rule that proposed the candidate.
    pub fn place(&self) -> (at: usize)
        ensures
            at == self.rule(),
    {
        self.rule
    }

    /// The name that the rule was asked about.
    pub fn asked(&self) -> (name: &str)
        ensures
            name@ == self.input(),
    {
        self.input.as_str()
    }
}

/// What a scan asks for when it looks for a candidate from place `from` on:
/// to probe the first candidate, or to give up where there is none; and
/// where a rule does not accept `input` before any has proposed a name, it
/// says which.
pub open spec fn awaits<R: Rule>(step: Step, rules: Seq<R>, from: int, input: Seq<char>) -> bool {
    match first_refusal(rules, from, input) {
        Some(place) => {
            &&& step matches Step::Refused { rule, input: asked }
            &&& rule == place
            &&& asked@ == input
        },
        None => match first_candidate(rules, from, input) {
            Some((at, candidate)) => {
                &&& step matches Step::Probe(scan)
                &&& scan.rule() == at
                &&& scan.input() == input
                &&& scan.proposed() == candidate
                &&& from <= at < rules.len()
            },
            None => step is GiveUp,
        },
    }
}

/// The copy that is made in the end when the scan goes on from `step` and
/// `known` are the paths that are taken.
pub open spec fn outcome<R: Rule>(
    step: Step,
    rules: Seq<R>,
    fallthrough: bool,
    known: Set<Seq<char>>,
) -> Option<(Seq<char>, Seq<char>)> {
    match step {
        Step::Probe(scan) => if !known.contains(scan.proposed()) {
            Some((scan.input(), scan.proposed()))
        } else if fallthrough {
            plan(rules, fallthrough, known, scan.rule() + 1, scan.proposed())
        } else {
            None
        },
        Step::Copy { from, to } => Some((from@, to@)),
        Step::GiveUp => None,
        Step::Refused { .. } => None,
    }
}

/// The first candidate is found by its place: the rule at that place
/// proposes it, and every rule between `from` and that place declines.
pub proof fn lemma_first_candidate<R: Rule>(rules: Seq<R>, from: int, input: Seq<char>)
    requires
        0 <= from,
    ensures
        match first_candidate(rules, from, input) {
            Some((at, candidate)) => {
                &&& from <= at < rules.len()
                &&& rules[at].transform(input) == Some(candidate)
                &&& forall|k: int| from <= k < at ==> (#[trigger] rules[k]).transform(input) is None
            },
            None => forall|k: int|
                from <= k < rules.len() ==> (#[trigger] rules[k]).transform(input) is None,
        },
    decreases rules.len() - from,
{
    if from < rules.len() && rules[from].transform(input) is None {
        lemma_first_candidate(rules, from + 1, input);
    }
}

/// Whether the scan, going on from `step`, asks each rule only about a name
/// that the rule accepts, where `known` are the paths that are taken.
pub open spec fn goes_on<R: Rule>(
    step: Step,
    rules: Seq<R>,
    fallthrough: bool,
    known: Set<Seq<char>>,
) -> bool {
    match step {
        Step::Probe(scan) => known.contains(scan.proposed()) && fallthrough ==> askable(
            rules,
            fallthrough,
            known,
            scan.rule() + 1,
            scan.proposed(),
        ),
        Step::Refused { .. } => false,
        _ => true,
    }
}

/// A scan is askable if and only if its steps go on: it is not refused on
/// the way to its first candidate, and where it falls through from that
/// candidate, it is askable from there.
pub proof fn lemma_askable_by_steps<R: Rule>(
    step: Step,
    rules: Seq<R>,
    fallthrough: bool,
    known: Set<Seq<char>>,
    from: int,
    input: Seq<char>,
)
    requires
        0 <= from,
        awaits(step, rules, from, input),
    ensures
        goes_on(step, rules, fallthrough, known) == askable(
            rules,
            fallthrough,
            known,
            from,
            input,
        ),
    decreases rules.len() - from,
{
    if from < rules.len() && rules[from].accepts(input) && rules[from].transform(input) is None {
        lemma_first_candidate(rules, from + 1, input);
        lemma_askable_by_steps(step, rules, fallthrough, known, from + 1, input);
    }
}

/// The plan of a scan is what its steps lead to: the scan passes over the
/// rules that decline, and the first candidate decides as `outcome` says.
pub proof fn lemma_plan_by_steps<R: Rule>(
    step: Step,
    rules: Seq<R>,
    fallthrough: bool,
    known: Set<Seq<char>>,
    from: int,
    input: Seq<char>,
)
    requires
        0 <= from,
        awaits(step, rules, from, input),
        !(step is Refused),
    ensures
        outcome(step, rules, fallthrough, known) == plan(rules, fallthrough, known, from, input),
    decreases rules.len() - from,
{
    if from < rules.len() && rules[from].transform(input) is None {
        lemma_first_candidate(rules, from + 1, input);
        lemma_plan_by_steps(step, rules, fallthrough, known, from + 1, input);
    }
}

/// Looks for the first rule at or behind place `from` that proposes a name
/// for `input`. Each rule is asked only if it accepts `input`.
pub fn scan_from<R: Rule>(rules: &Vec<R>, from: usize, input: String) -> (step: Step)
    ensures
        awaits(step, rules@, from as int, input@),
{
    let mut i: usize = from;
    while i < rules.len()
        invariant
            from <= i,
            first_refusal(rules@, i as int, input@) == first_refusal(rules@, from as int, input@),
            first_candidate(rules@, i as int, input@) == first_candidate(
                rules@,
                from as int,
                input@,
            ),
        decreases rules.len() - i,
    {
        if !rules[i].can_apply(input.as_str()) {
            return Step::Refused { rule: i, input };
        }
        match rules[i].apply(input.as_str()) {
            Some(candidate) => {
                return Step::Probe(Scan { rule: i, input, candidate });
            },
            None => {},
        }
        i += 1;
    }
    Step::GiveUp
}

/// Begins the scan for `file`: asks the rules, first rule first, for a new name.
pub fn start<R: Rule>(rules: &Vec<R>, file: &str) -> (step: Step)
    ensures
        awaits(step, rules@, 0, file@),
{
    scan_from(rules, 0, file.to_owned())
}

/// Goes on with a scan that has heard whether its candidate is taken.
///
/// A candidate that is not taken is the target of the copy. One that is
/// taken ends the scan where `fallthrough` is off. Where it is on, the scan
/// looks on behind the rule that proposed it, for a new name for the
/// candidate.
pub fn resume<R: Rule>(rules: &Vec<R>, fallthrough: bool, scan: Scan, taken: bool) -> (step: Step)
    ensures
        !taken ==> (step matches Step::Copy { from, to } && from@ == scan.input() && to@
            == scan.proposed()),
        taken && !fallthrough ==> step is GiveUp,
        taken && fallthrough ==> awaits(step, rules@, scan.rule() + 1, scan.proposed()),
{
    if !taken {
        Step::Copy { from: scan.input, to: scan.candidate }
    } else if !fallthrough {
        Step::GiveUp
    } else if scan.rule < rules.len() {
        scan_from(rules, scan.rule + 1, scan.candidate)
    } else {
        Step::GiveUp
    }
}

} // verus!
