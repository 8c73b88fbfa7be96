//! Duplicates files under new names.
//!
//! A [`Duplicator`] holds an ordered chain of renaming rules and a file
//! system. For each file it asks the rules in order for a new name, and
//! copies the file to the first name that is not taken.
//!
//! The scan of the chain touches no file system itself: [`start`] and
//! [`resume`] say what to ask and what to copy, so that a program can run
//! the same scan against the disk.

pub mod clock;
pub mod digits;
pub mod laws;
pub mod pattern;
pub mod rules;
pub mod scan;
pub mod standard;
pub mod text;
pub mod vfs;

pub use crate::scan::{plan, resume, start, Scan, Step};
pub use crate::standard::{get_duplicator, standard_rules};

use crate::rules::Rule;
use crate::scan::{askable, goes_on, lemma_askable_by_steps, lemma_plan_by_steps, outcome, scan_from};
use crate::vfs::Vfs;
use vstd::prelude::*;

verus! {

/// Whether a copy is made for a file: one must be planned, and the file
/// system must make it.
pub open spec fn copy_made<V: Vfs>(vfs: V, planned: Option<(Seq<char>, Seq<char>)>) -> bool {
    match planned {
        Some((source, target)) => vfs.copy_succeeds(source, target),
        None => false,
    }
}

/// The known paths after one file was handled: with `target` added where a
/// copy was planned and made, unchanged otherwise.
pub open spec fn known_after(
    known: Set<Seq<char>>,
    planned: Option<(Seq<char>, Seq<char>)>,
    copied: bool,
) -> Set<Seq<char>> {
    match planned {
        Some((source, target)) if copied => known.insert(target),
        _ => known,
    }
}

/// The known paths after the files of a batch were handled one after the
/// other, each seeing the copies made for those before it. `copied` says for
/// each file whether its copy was made.
pub open spec fn known_after_batch<R: Rule>(
    rules: Seq<R>,
    fallthrough: bool,
    known: Set<Seq<char>>,
    files: Seq<Seq<char>>,
    copied: Seq<bool>,
) -> Set<Seq<char>>
    decreases files.len(),
{
    if files.len() == 0 || copied.len() != files.len() {
        known
    } else {
        let before = known_after_batch(
            rules,
            fallthrough,
            known,
            files.drop_last(),
            copied.drop_last(),
        );
        known_after(before, plan(rules, fallthrough, before, 0, files.last()), copied.last())
    }
}

/// Whether the flags of `copied` can be those of a batch: a copy is made only
/// for a file for which one is planned, given the copies made before it.
pub open spec fn batch_is_planned<R: Rule>(
    rules: Seq<R>,
    fallthrough: bool,
    known: Set<Seq<char>>,
    files: Seq<Seq<char>>,
    copied: Seq<bool>,
) -> bool
    decreases files.len(),
{
    if files.len() == 0 || copied.len() != files.len() {
        true
    } else {
        let before = known_after_batch(
            rules,
            fallthrough,
            known,
            files.drop_last(),
            copied.drop_last(),
        );
        &&& batch_is_planned(rules, fallthrough, known, files.drop_last(), copied.drop_last())
        &&& copied.last() ==> plan(rules, fallthrough, before, 0, files.last()) is Some
    }
}

/// The names that the strings of `files` hold.
pub open spec fn names_of(files: Seq<String>) -> Seq<Seq<char>> {
    files.map_values(|file: String| file@)
}

/// Whether no scan of a batch asks a rule about a name that the rule does
/// not accept, whichever of the copies before it are made.
pub open spec fn batch_is_askable<R: Rule>(
    rules: Seq<R>,
    fallthrough: bool,
    known: Set<Seq<char>>,
    files: Seq<Seq<char>>,
) -> bool {
    forall|copied: Seq<bool>|
        copied.len() < files.len() ==> askable(
            rules,
            fallthrough,
            #[trigger] known_after_batch(
                rules,
                fallthrough,
                known,
                files.take(copied.len() as int),
                copied,
            ),
            0,
            files[copied.len() as int],
        )
}

/// Whether `states` are the file systems that a batch went through, from the
/// one before the first file to the one after the last: each file saw the
/// file system that the file before it left, its scan could be made, its
/// copy was made exactly where one was planned and that file system makes
/// it, and a file without a plan left the file system as it was.
pub open spec fn batch_went_through<R: Rule, V: Vfs>(
    states: Seq<V>,
    rules: Seq<R>,
    fallthrough: bool,
    files: Seq<Seq<char>>,
    copied: Seq<bool>,
) -> bool {
    &&& states.len() == files.len() + 1
    &&& copied.len() == files.len()
    &&& forall|i: int|
        0 <= i < files.len() ==> {
            let planned = plan(rules, fallthrough, (#[trigger] states[i]).known(), 0, files[i]);
            &&& askable(rules, fallthrough, states[i].known(), 0, files[i])
            &&& copied[i] == copy_made(states[i], planned)
            &&& states[i + 1].known() == known_after(states[i].known(), planned, copied[i])
            &&& planned is None ==> states[i + 1] == states[i]
        }
}

/// Whether `lines` lists `rules`: a heading, then the description of each
/// rule, in the order of the chain.
pub open spec fn is_listing<R: Rule>(lines: Seq<String>, rules: Seq<R>) -> bool {
    &&& lines.len() == rules.len() + 1
    &&& lines[0]@ == "=== Rules ==="@
    &&& forall|i: int|
        0 <= i < rules.len() ==> (#[trigger] lines[i + 1])@ == rules[i].description()
}

/// The listing of `rules`: a heading, then one line for each rule, in the
/// order of the chain.
pub fn listing<R: Rule>(rules: &Vec<R>) -> (lines: Vec<String>)
    ensures
        is_listing(lines@, rules@),
{
    let mut lines: Vec<String> = Vec::new();
    lines.push(String::from_str("=== Rules ==="));
    let mut i: usize = 0;
    while i < rules.len()
        invariant
            i <= rules@.len(),
            lines@.len() == i + 1,
            lines@[0]@ == "=== Rules ==="@,
            forall|k: int| 0 <= k < i ==> (#[trigger] lines@[k + 1])@ == rules@[k].description(),
        decreases rules@.len() - i,
    {
        lines.push(rules[i].describe());
        i += 1;
    }
    lines
}

/// Duplicates files by an ordered chain of renaming rules.
pub struct Duplicator<R: Rule, V: Vfs> {
    rules: Vec<R>,
    vfs: V,
    fallthrough: bool,
}

impl<R: Rule, V: Vfs> Duplicator<R, V> {
    /// The chain of rules, first rule first.
    pub closed spec fn rules(&self) -> Seq<R> {
        self.rules@
    }

    /// The file system that this duplicator works on.
    pub closed spec fn file_system(&self) -> V {
        self.vfs
    }

    /// Whether a scan goes on behind a rule whose name is taken.
    pub closed spec fn fallthrough(&self) -> bool {
        self.fallthrough
    }

    /// The paths that the file system knows.
    pub open spec fn known(&self) -> Set<Seq<char>> {
        self.file_system().known()
    }

    /// Whether a scan from rule `from` for `file` asks each rule only about
    /// a name that the rule accepts.
    pub open spec fn can_scan(&self, from: int, file: Seq<char>) -> bool {
        askable(self.rules(), self.fallthrough(), self.known(), from, file)
    }

    /// The copy that a scan from rule `from` settles on for `file`.
    pub open spec fn planned(&self, from: int, file: Seq<char>) -> Option<(Seq<char>, Seq<char>)> {
        plan(self.rules(), self.fallthrough(), self.known(), from, file)
    }

    /// A duplicator that asks `rules`, first rule first, and copies on `vfs`.
    /// With `fallthrough` on, a scan goes on behind a rule whose name is taken.
    pub fn new(rules: Vec<R>, vfs: V, fallthrough: bool) -> (duplicator: Self)
        ensures
            duplicator.rules() == rules@,
            duplicator.file_system() == vfs,
            duplicator.fallthrough() == fallthrough,
    {
        Self { rules, vfs, fallthrough }
    }

    /// The file system that this duplicator works on.
    pub fn vfs(&self) -> (vfs: &V)
        ensures
            *vfs == self.file_system(),
    {
        &self.vfs
    }

    /// Scans the rules from place `idx` on for a new name for `file`, and
    /// copies to the name that the scan settles on, if the scan can be made.
    ///
    /// Returns `None`, and leaves the file system untouched, if and only if
    /// the scan would ask a rule about a name that the rule does not accept.
    /// Else returns whether the copy was made, as `duplicate_with_rules` does.
    pub fn try_duplicate_with_rules(&mut self, idx: usize, file: &str) -> (copied: Option<bool>)
        ensures
            final(self).rules() == old(self).rules(),
            final(self).fallthrough() == old(self).fallthrough(),
            copied is Some == old(self).can_scan(idx as int, file@),
            copied is None ==> final(self).file_system() == old(self).file_system(),
            copied matches Some(made) ==> {
                &&& made == copy_made(
                    old(self).file_system(),
                    old(self).planned(idx as int, file@),
                )
                &&& old(self).planned(idx as int, file@) is None ==> final(self).file_system()
                    == old(self).file_system()
                &&& final(self).known() == known_after(
                    old(self).known(),
                    old(self).planned(idx as int, file@),
                    made,
                )
            },
    {
        let mut step = scan_from(&self.rules, idx, file.to_owned());
        proof {
            lemma_askable_by_steps(
                step,
                self.rules@,
                self.fallthrough,
                self.known(),
                idx as int,
                file@,
            );
            if !(step is Refused) {
                lemma_plan_by_steps(
                    step,
                    self.rules@,
                    self.fallthrough,
                    self.known(),
                    idx as int,
                    file@,
                );
            }
        }
        loop
            invariant
                *self == *old(self),
                step matches Step::Probe(scan) ==> 0 <= scan.rule() < self.rules@.len(),
                goes_on(step, self.rules@, self.fallthrough, self.known()) == self.can_scan(
                    idx as int,
                    file@,
                ),
                !(step is Refused) ==> outcome(
                    step,
                    self.rules@,
                    self.fallthrough,
                    self.known(),
                ) == self.planned(idx as int, file@),
            decreases
                    match step {
                        Step::Probe(scan) => self.rules@.len() - scan.rule(),
                        _ => 0,
                    },
        {
            match step {
                Step::Probe(scan) => {
                    let taken = self.vfs.path_exists(scan.candidate());
                    let ghost after = scan.rule() + 1;
                    let ghost name = scan.proposed();
                    step = resume(&self.rules, self.fallthrough, scan, taken);
                    proof {
                        if taken && self.fallthrough {
                            lemma_askable_by_steps(
                                step,
                                self.rules@,
                                self.fallthrough,
                                self.known(),
                                after,
                                name,
                            );
                            if !(step is Refused) {
                                lemma_plan_by_steps(
                                    step,
                                    self.rules@,
                                    self.fallthrough,
                                    self.known(),
                                    after,
                                    name,
                                );
                            }
                        }
                    }
                },
                Step::Copy { from, to } => {
                    return Some(self.vfs.copy(from.as_str(), to.as_str()));
                },
                Step::GiveUp => {
                    return Some(false);
                },
                Step::Refused { .. } => {
                    return None;
                },
            }
        }
    }

    /// Duplicates `file`, if the scan for it can be made: `None` if and only
    /// if the scan would ask a rule about a name that the rule does not
    /// accept, else what `duplicate` returns.
    pub fn try_duplicate(&mut self, file: &str) -> (copied: Option<bool>)
        ensures
            final(self).rules() == old(self).rules(),
            final(self).fallthrough() == old(self).fallthrough(),
            copied is Some == old(self).can_scan(0, file@),
            copied is None ==> final(self).file_system() == old(self).file_system(),
            copied matches Some(made) ==> {
                &&& made == copy_made(old(self).file_system(), old(self).planned(0, file@))
                &&& old(self).planned(0, file@) is None ==> final(self).file_system() == old(
                    self,
                ).file_system()
                &&& final(self).known() == known_after(
                    old(self).known(),
                    old(self).planned(0, file@),
                    made,
                )
            },
    {
        self.try_duplicate_with_rules(0, file)
    }

    /// Scans the rules from place `idx` on for a new name for `file`, and
    /// copies to the name that the scan settles on.
    ///
    /// Returns true if and only if the copy was made. The file system is
    /// handed at most one copy, the planned one, and is left untouched where
    /// none is planned.
    ///
    /// The scan must ask no rule about a name that the rule does not accept.
    pub fn duplicate_with_rules(&mut self, idx: usize, file: &str) -> (copied: bool)
        requires
            old(self).can_scan(idx as int, file@),
        ensures
            final(self).rules() == old(self).rules(),
            final(self).fallthrough() == old(self).fallthrough(),
            copied == copy_made(old(self).file_system(), old(self).planned(idx as int, file@)),
            old(self).planned(idx as int, file@) is None ==> final(self).file_system() == old(
                self,
            ).file_system(),
            final(self).known() == known_after(
                old(self).known(),
                old(self).planned(idx as int, file@),
                copied,
            ),
    {
        match self.try_duplicate_with_rules(idx, file) {
            Some(copied) => copied,
            None => {
                proof {
                    assert(false);
                }
                false
            },
        }
    }

    /// Duplicates `file`: copies it to the first new name that the rules
    /// propose and that is not taken.
    ///
    /// Returns true if and only if the copy was made.
    ///
    /// The scan must ask no rule about a name that the rule does not accept.
    pub fn duplicate(&mut self, file: &str) -> (copied: bool)
        requires
            old(self).can_scan(0, file@),
        ensures
            final(self).rules() == old(self).rules(),
            final(self).fallthrough() == old(self).fallthrough(),
            copied == copy_made(old(self).file_system(), old(self).planned(0, file@)),
            old(self).planned(0, file@) is None ==> final(self).file_system() == old(
                self,
            ).file_system(),
            final(self).known() == known_after(old(self).known(), old(self).planned(0, file@), copied),
    {
        self.duplicate_with_rules(0, file)
    }

    /// Duplicates the files of a batch, one after the other and each once,
    /// as far as their scans can be made: it stops before the first file
    /// whose scan would ask a rule about a name that the rule does not
    /// accept. Says for each file before that one whether its copy was made;
    /// a file that is not copied does not stop the files behind it.
    pub fn try_duplicate_files(&mut self, files: &Vec<String>) -> (copied: Vec<bool>)
        ensures
            final(self).rules() == old(self).rules(),
            final(self).fallthrough() == old(self).fallthrough(),
            copied@.len() <= files@.len(),
            copied@.len() < files@.len() ==> !final(self).can_scan(
                0,
                files@[copied@.len() as int]@,
            ),
            exists|states: Seq<V>|
                {
                    &&& #[trigger] batch_went_through(
                        states,
                        old(self).rules(),
                        old(self).fallthrough(),
                        names_of(files@).take(copied@.len() as int),
                        copied@,
                    )
                    &&& states[0] == old(self).file_system()
                    &&& states[copied@.len() as int] == final(self).file_system()
                },
            batch_is_planned(
                old(self).rules(),
                old(self).fallthrough(),
                old(self).known(),
                names_of(files@).take(copied@.len() as int),
                copied@,
            ),
            final(self).known() == known_after_batch(
                old(self).rules(),
                old(self).fallthrough(),
                old(self).known(),
                names_of(files@).take(copied@.len() as int),
                copied@,
            ),
    {
        let ghost names = names_of(files@);
        let ghost mut states: Seq<V> = seq![self.vfs];
        let mut copied: Vec<bool> = Vec::new();
        let mut i: usize = 0;
        while i < files.len()
            invariant
                i <= files@.len(),
                names == names_of(files@),
                states[0] == old(self).file_system(),
                states[i as int] == self.file_system(),
                batch_went_through(
                    states,
                    old(self).rules(),
                    old(self).fallthrough(),
                    names.take(i as int),
                    copied@,
                ),
                self.rules() == old(self).rules(),
                self.fallthrough() == old(self).fallthrough(),
                copied@.len() == i,
                batch_is_planned(
                    old(self).rules(),
                    old(self).fallthrough(),
                    old(self).known(),
                    names.take(i as int),
                    copied@,
                ),
                self.known() == known_after_batch(
                    old(self).rules(),
                    old(self).fallthrough(),
                    old(self).known(),
                    names.take(i as int),
                    copied@,
                ),
            decreases files@.len() - i,
        {
            let ghost done = copied@;
            let ghost went = states;
            proof {
                assert(names[i as int] == files@[i as int]@);
            }
            let made = match self.try_duplicate(files[i].as_str()) {
                Some(made) => made,
                None => {
                    return copied;
                },
            };
            copied.push(made);
            proof {
                states = went.push(self.vfs);
                assert(names.take(i + 1).drop_last() =~= names.take(i as int));
                assert(copied@.drop_last() =~= done);
                assert forall|k: int| 0 <= k < i + 1 implies {
                    let planned = plan(
                        old(self).rules(),
                        old(self).fallthrough(),
                        (#[trigger] states[k]).known(),
                        0,
                        names.take(i + 1)[k],
                    );
                    &&& askable(
                        old(self).rules(),
                        old(self).fallthrough(),
                        states[k].known(),
                        0,
                        names.take(i + 1)[k],
                    )
                    &&& copied@[k] == copy_made(states[k], planned)
                    &&& states[k + 1].known() == known_after(states[k].known(), planned, copied@[k])
                    &&& planned is None ==> states[k + 1] == states[k]
                } by {
                    if k < i {
                        assert(states[k] == went[k]);
                        assert(states[k + 1] == went[k + 1]);
                        assert(names.take(i + 1)[k] == names.take(i as int)[k]);
                        assert(copied@[k] == done[k]);
                    }
                }
            }
            i += 1;
        }
        copied
    }

    /// Duplicates the files of a batch, one after the other and each once,
    /// so that each sees the copies made for those before it. Says for each
    /// file whether its copy was made; a file that is not copied does not
    /// stop the files behind it.
    ///
    /// No scan of the batch may ask a rule about a name that the rule does
    /// not accept, whichever of the copies before it are made.
    pub fn duplicate_files(&mut self, files: &Vec<String>) -> (copied: Vec<bool>)
        requires
            batch_is_askable(
                old(self).rules(),
                old(self).fallthrough(),
                old(self).known(),
                names_of(files@),
            ),
        ensures
            final(self).rules() == old(self).rules(),
            final(self).fallthrough() == old(self).fallthrough(),
            copied@.len() == files@.len(),
            exists|states: Seq<V>|
                {
                    &&& #[trigger] batch_went_through(
                        states,
                        old(self).rules(),
                        old(self).fallthrough(),
                        names_of(files@),
                        copied@,
                    )
                    &&& states[0] == old(self).file_system()
                    &&& states[files@.len() as int] == final(self).file_system()
                },
            batch_is_planned(
                old(self).rules(),
                old(self).fallthrough(),
                old(self).known(),
                names_of(files@),
                copied@,
            ),
            final(self).known() == known_after_batch(
                old(self).rules(),
                old(self).fallthrough(),
                old(self).known(),
                names_of(files@),
                copied@,
            ),
    {
        let ghost names = names_of(files@);
        let copied = self.try_duplicate_files(files);
        proof {
            if copied@.len() < files@.len() {
                assert(names[copied@.len() as int] == files@[copied@.len() as int]@);
                assert(askable(
                    old(self).rules(),
                    old(self).fallthrough(),
                    known_after_batch(
                        old(self).rules(),
                        old(self).fallthrough(),
                        old(self).known(),
                        names.take(copied@.len() as int),
                        copied@,
                    ),
                    0,
                    names[copied@.len() as int],
                ));
                assert(false);
            }
            assert(names.take(files@.len() as int) =~= names);
        }
        copied
    }

    /// The listing of the rules of this duplicator, as `listing` gives it.
    pub fn help(&self) -> (lines: Vec<String>)
        ensures
            is_listing(lines@, self.rules()),
    {
        listing(&self.rules)
    }
}

} // verus!
