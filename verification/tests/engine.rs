use chrono::{NaiveDate, NaiveDateTime};
use dp::rules::{AnyRule, DateRule, IncrementRule, Rule};
use dp::vfs::{TestFileSystem, Vfs};
use dp::{get_duplicator, listing, resume, standard_rules, start, Duplicator, Step};

fn tenth_of_november() -> NaiveDateTime {
    NaiveDate::from_ymd_opt(2019, 11, 10)
        .unwrap()
        .and_hms_milli_opt(0, 0, 0, 0)
        .unwrap()
}

fn day_rule() -> DateRule {
    DateRule::compile(r"\d{2}", "%d", tenth_of_november()).unwrap()
}

fn month_rule() -> DateRule {
    DateRule::compile(r"\d{2}", "%m", tenth_of_november()).unwrap()
}

fn names(list: &[&str]) -> Vec<String> {
    list.iter().map(|name| name.to_string()).collect()
}

fn day_then_count() -> Vec<AnyRule> {
    vec![
        AnyRule::Date(day_rule()),
        AnyRule::Increment(IncrementRule::new()),
    ]
}

#[test]
fn fallthrough_renames_the_taken_name() {
    let vfs = TestFileSystem::new(names(&["meeting-10.org"]));
    let mut duplicator = Duplicator::new(day_then_count(), vfs, true);

    assert!(duplicator.duplicate("meeting-10.org"));
    assert_eq!(
        duplicator.vfs().get_files(),
        names(&["meeting-10.org", "meeting-11.org"])
    );
}

#[test]
fn fallthrough_creates_the_date_name_where_it_is_free() {
    let vfs = TestFileSystem::new(names(&["meeting-23.org"]));
    let mut duplicator = Duplicator::new(day_then_count(), vfs, true);

    assert!(duplicator.duplicate("meeting-23.org"));
    assert_eq!(
        duplicator.vfs().get_files(),
        names(&["meeting-23.org", "meeting-10.org"])
    );
    // the date name is taken now: the counting rule renames it
    assert!(duplicator.duplicate("meeting-23.org"));
    assert_eq!(
        duplicator.vfs().get_files(),
        names(&["meeting-23.org", "meeting-10.org", "meeting-11.org"])
    );
}

#[test]
fn without_fallthrough_a_taken_name_stops_the_scan() {
    let vfs = TestFileSystem::new(names(&["meeting-10.org"]));
    let mut duplicator = Duplicator::new(day_then_count(), vfs, false);

    assert!(!duplicator.duplicate("meeting-10.org"));
    assert_eq!(duplicator.vfs().get_files(), names(&["meeting-10.org"]));
}

#[test]
fn fallthrough_gives_up_at_the_end_of_the_chain() {
    let vfs = TestFileSystem::new(names(&["meeting-10.org", "meeting-11.org"]));
    let mut duplicator = Duplicator::new(day_then_count(), vfs, true);

    assert!(!duplicator.duplicate("meeting-10.org"));
    assert_eq!(
        duplicator.vfs().get_files(),
        names(&["meeting-10.org", "meeting-11.org"])
    );
}

#[test]
fn fallthrough_never_asks_a_rule_twice() {
    // the counting rule stands first: behind it only the date rule is left,
    // which puts the day back, so the taken name is proposed again
    let rules = vec![
        AnyRule::Increment(IncrementRule::new()),
        AnyRule::Date(day_rule()),
    ];
    let vfs = TestFileSystem::new(names(&["a-09", "a-10"]));
    let mut duplicator = Duplicator::new(rules, vfs, true);
    assert!(!duplicator.duplicate("a-09"));
    assert_eq!(duplicator.vfs().get_files(), names(&["a-09", "a-10"]));
}

#[test]
fn every_rule_declines() {
    for fallthrough in [false, true] {
        let vfs = TestFileSystem::new(names(&["hello-there.org"]));
        let mut duplicator = Duplicator::new(day_then_count(), vfs, fallthrough);
        assert!(!duplicator.duplicate("hello-there.org"));
        assert_eq!(duplicator.vfs().get_files(), names(&["hello-there.org"]));
    }
}

#[test]
fn no_rules_no_copy() {
    let rules: Vec<AnyRule> = vec![];
    let mut duplicator = Duplicator::new(rules, TestFileSystem::empty(), true);
    assert!(!duplicator.duplicate("hello-23.org"));
    assert!(duplicator.vfs().get_files().is_empty());
}

#[test]
fn at_most_one_copy_for_a_file() {
    for fallthrough in [false, true] {
        for file in ["a-23", "a-10", "a-11", "a", ""] {
            let vfs = TestFileSystem::new(names(&["a-10"]));
            let mut duplicator = Duplicator::new(day_then_count(), vfs, fallthrough);
            let copied = duplicator.duplicate(file);
            let after = duplicator.vfs().get_files().len();
            assert_eq!(after, if copied { 2 } else { 1 });
        }
    }
}

#[test]
fn the_first_rule_with_a_free_name_wins() {
    let day_first = vec![day_rule(), month_rule()];
    let mut duplicator = Duplicator::new(day_first, TestFileSystem::empty(), false);
    assert!(duplicator.duplicate("a-23"));
    assert_eq!(duplicator.vfs().get_files(), names(&["a-10"]));

    let month_first = vec![month_rule(), day_rule()];
    let mut duplicator = Duplicator::new(month_first, TestFileSystem::empty(), false);
    assert!(duplicator.duplicate("a-23"));
    assert_eq!(duplicator.vfs().get_files(), names(&["a-11"]));
}

#[test]
fn a_later_rule_is_not_asked_once_a_name_is_free() {
    // the counting rule would give a-24; the date rule stands first
    let mut duplicator = Duplicator::new(day_then_count(), TestFileSystem::empty(), true);
    assert!(duplicator.duplicate("a-23"));
    assert_eq!(duplicator.vfs().get_files(), names(&["a-10"]));
}

#[test]
fn a_scan_can_begin_behind_the_first_rule() {
    let mut duplicator = Duplicator::new(day_then_count(), TestFileSystem::empty(), false);
    assert!(duplicator.duplicate_with_rules(1, "a-23"));
    assert_eq!(duplicator.vfs().get_files(), names(&["a-24"]));
    assert!(!duplicator.duplicate_with_rules(2, "a-23"));
    assert!(!duplicator.duplicate_with_rules(7, "a-23"));
    assert_eq!(duplicator.vfs().get_files(), names(&["a-24"]));
}

#[test]
fn a_batch_sees_its_own_copies() {
    let vfs = TestFileSystem::new(names(&["a-23", "b-23"]));
    let mut duplicator = Duplicator::new(day_then_count(), vfs, false);
    let copied = duplicator.duplicate_files(&names(&["a-23", "a-23", "b-23", "c", "a-10"]));
    assert_eq!(copied, vec![true, false, true, false, false]);
    assert_eq!(
        duplicator.vfs().get_files(),
        names(&["a-23", "b-23", "a-10", "b-10"])
    );
}

#[test]
fn a_batch_with_fallthrough() {
    let vfs = TestFileSystem::new(names(&["a-23"]));
    let mut duplicator = Duplicator::new(day_then_count(), vfs, true);
    let copied = duplicator.duplicate_files(&names(&["a-23", "a-23", "a-23"]));
    assert_eq!(copied, vec![true, true, false]);
    assert_eq!(
        duplicator.vfs().get_files(),
        names(&["a-23", "a-10", "a-11"])
    );
}

#[test]
fn an_empty_batch() {
    let mut duplicator = Duplicator::new(day_then_count(), TestFileSystem::empty(), true);
    assert_eq!(duplicator.duplicate_files(&vec![]), Vec::<bool>::new());
}

#[test]
fn help_lists_the_rules_in_order() {
    let duplicator = Duplicator::new(day_then_count(), TestFileSystem::empty(), true);
    let lines = duplicator.help();
    assert_eq!(lines.len(), 3);
    assert_eq!(lines[0], "=== Rules ===");
    assert_eq!(lines[1], day_rule().describe());
    assert_eq!(lines[2], "IncrementRule");
    assert_eq!(listing(&day_then_count()), lines);
    assert_eq!(listing(&Vec::<AnyRule>::new()), names(&["=== Rules ==="]));
}

#[test]
fn a_scan_probes_then_copies() {
    let rules = day_then_count();
    let scan = match start(&rules, "a-23") {
        Step::Probe(scan) => scan,
        _ => panic!("the date rule proposes a name"),
    };
    assert_eq!(scan.candidate(), "a-10");
    match resume(&rules, false, scan, false) {
        Step::Copy { from, to } => {
            assert_eq!(from, "a-23");
            assert_eq!(to, "a-10");
        }
        _ => panic!("a free name is copied to"),
    }
}

#[test]
fn a_scan_gives_up_on_a_taken_name() {
    let rules = day_then_count();
    let scan = match start(&rules, "a-23") {
        Step::Probe(scan) => scan,
        _ => panic!("the date rule proposes a name"),
    };
    assert!(matches!(resume(&rules, false, scan, true), Step::GiveUp));
}

#[test]
fn a_scan_falls_through_with_the_taken_name() {
    let rules = day_then_count();
    let scan = match start(&rules, "a-23") {
        Step::Probe(scan) => scan,
        _ => panic!("the date rule proposes a name"),
    };
    let scan = match resume(&rules, true, scan, true) {
        Step::Probe(scan) => scan,
        _ => panic!("the counting rule proposes a name"),
    };
    assert_eq!(scan.candidate(), "a-11");
    match resume(&rules, true, scan, false) {
        Step::Copy { from, to } => {
            assert_eq!(from, "a-10");
            assert_eq!(to, "a-11");
        }
        _ => panic!("a free name is copied to"),
    }
}

#[test]
fn a_scan_falls_off_the_end_of_the_chain() {
    let rules = day_then_count();
    let scan = match start(&rules, "a-23") {
        Step::Probe(scan) => scan,
        _ => panic!("the date rule proposes a name"),
    };
    let scan = match resume(&rules, true, scan, true) {
        Step::Probe(scan) => scan,
        _ => panic!("the counting rule proposes a name"),
    };
    assert!(matches!(resume(&rules, true, scan, true), Step::GiveUp));
}

#[test]
fn a_scan_passes_over_rules_that_decline() {
    let rules = vec![
        AnyRule::Date(DateRule::compile(r"\d{2}-\d{2}", "%m-%d", tenth_of_november()).unwrap()),
        AnyRule::Increment(IncrementRule::new()),
    ];
    let scan = match start(&rules, "take7") {
        Step::Probe(scan) => scan,
        _ => panic!("the counting rule proposes a name"),
    };
    assert_eq!(scan.candidate(), "take8");
    assert!(matches!(start(&rules, "take"), Step::GiveUp));
    assert!(matches!(start(&Vec::<AnyRule>::new(), "take7"), Step::GiveUp));
}

#[test]
fn the_standard_chain() {
    let rules = standard_rules(tenth_of_november()).unwrap();
    let lines = listing(&rules);
    assert_eq!(lines.len(), 6);
    assert_eq!(lines[0], "=== Rules ===");
    assert_eq!(
        lines[1],
        r"DateRule { regex: (.*)(\d{2}-\d{2})(.*), date_fmt: %m-%d, date: 11-10 }"
    );
    assert_eq!(
        lines[2],
        r"DateRule { regex: (.*)(\d{4}-\d{2}-\d{2})(.*), date_fmt: %y-%m-%d, date: 19-11-10 }"
    );
    assert_eq!(
        lines[3],
        r"DateRule { regex: (.*)(\d{2}_\d{2})(.*), date_fmt: %m_%d, date: 11_10 }"
    );
    assert_eq!(
        lines[4],
        r"DateRule { regex: (.*)(\d{4}_\d{2}_\d{2})(.*), date_fmt: %y_%m_%d, date: 19_11_10 }"
    );
    assert_eq!(lines[5], "IncrementRule");
}

#[test]
fn the_standard_duplicator() {
    let vfs = TestFileSystem::new(names(&["notes-03-14.txt", "plan_03_14.txt", "take1"]));
    let mut duplicator = get_duplicator(vfs, tenth_of_november(), true).unwrap();

    assert!(duplicator.duplicate("notes-03-14.txt"));
    assert!(duplicator.vfs().path_exists("notes-11-10.txt"));
    assert!(duplicator.duplicate("plan_03_14.txt"));
    assert!(duplicator.vfs().path_exists("plan_11_10.txt"));
    assert!(duplicator.duplicate("take1"));
    assert!(duplicator.vfs().path_exists("take2"));
    // the dashed date is taken: the scan falls through to counting up
    assert!(duplicator.duplicate("notes-03-14.txt"));
    assert!(duplicator.vfs().path_exists("notes-11-11.txt"));
    assert!(!duplicator.duplicate("notes.txt"));
    assert_eq!(duplicator.help().len(), 6);
}

#[test]
fn a_scan_stops_where_a_rule_refuses_the_name() {
    let rules = vec![AnyRule::Increment(IncrementRule::new())];
    match start(&rules, "take99999999999") {
        Step::Refused { rule, input } => {
            assert_eq!(rule, 0);
            assert_eq!(input, "take99999999999");
        }
        _ => panic!("the counting rule cannot count this up"),
    }
}

#[test]
fn a_scan_is_refused_behind_a_rule_that_declines() {
    let rules = vec![
        AnyRule::Date(DateRule::compile("x", "%d", tenth_of_november()).unwrap()),
        AnyRule::Increment(IncrementRule::new()),
    ];
    match start(&rules, "take99999999999") {
        Step::Refused { rule, input } => {
            assert_eq!(rule, 1);
            assert_eq!(input, "take99999999999");
        }
        _ => panic!("the counting rule cannot count this up"),
    }
}

#[test]
fn a_scan_is_not_refused_by_a_rule_that_it_does_not_reach() {
    // the date rule proposes a free name: the counting rule is not asked
    let scan = match start(&day_then_count(), "take99999999999") {
        Step::Probe(scan) => scan,
        _ => panic!("the date rule proposes a name"),
    };
    assert_eq!(scan.candidate(), "take99999999910");
    assert_eq!(scan.asked(), "take99999999999");
    assert_eq!(scan.place(), 0);
    assert!(matches!(
        resume(&day_then_count(), true, scan, false),
        Step::Copy { .. }
    ));
}

#[test]
fn a_scan_is_refused_on_falling_through() {
    let rules = day_then_count();
    let scan = match start(&rules, "take99999999999") {
        Step::Probe(scan) => scan,
        _ => panic!("the date rule proposes a name"),
    };
    match resume(&rules, true, scan, true) {
        Step::Refused { rule, input } => {
            assert_eq!(rule, 1);
            assert_eq!(input, "take99999999910");
        }
        _ => panic!("the counting rule cannot count this up"),
    }
}

#[test]
fn a_scan_tells_place_and_names() {
    let rules = day_then_count();
    let scan = match start(&rules, "a-23") {
        Step::Probe(scan) => scan,
        _ => panic!("the date rule proposes a name"),
    };
    assert_eq!((scan.place(), scan.asked(), scan.candidate()), (0, "a-23", "a-10"));
    let scan = match resume(&rules, true, scan, true) {
        Step::Probe(scan) => scan,
        _ => panic!("the counting rule proposes a name"),
    };
    assert_eq!((scan.place(), scan.asked(), scan.candidate()), (1, "a-10", "a-11"));
}

#[test]
fn try_duplicate_says_where_a_scan_cannot_be_made() {
    let rules = vec![AnyRule::Increment(IncrementRule::new())];
    let vfs = TestFileSystem::new(names(&["take1"]));
    let mut duplicator = Duplicator::new(rules, vfs, true);
    assert_eq!(duplicator.try_duplicate("take99999999999"), None);
    assert_eq!(duplicator.vfs().get_files(), names(&["take1"]));
    assert_eq!(duplicator.try_duplicate("take1"), Some(true));
    assert_eq!(duplicator.try_duplicate("take1"), Some(false));
    assert_eq!(duplicator.try_duplicate("take"), Some(false));
    assert_eq!(duplicator.try_duplicate_with_rules(1, "take99999999999"), Some(false));
    assert_eq!(duplicator.vfs().get_files(), names(&["take1", "take2"]));
}

#[test]
fn try_duplicate_is_refused_on_falling_through() {
    let vfs = TestFileSystem::new(names(&["take99999999910"]));
    let mut duplicator = Duplicator::new(day_then_count(), vfs, true);
    assert_eq!(duplicator.try_duplicate("take99999999999"), None);
    assert_eq!(duplicator.vfs().get_files(), names(&["take99999999910"]));
    // without fallthrough the counting rule is not asked
    let vfs = TestFileSystem::new(names(&["take99999999910"]));
    let mut duplicator = Duplicator::new(day_then_count(), vfs, false);
    assert_eq!(duplicator.try_duplicate("take99999999999"), Some(false));
}

#[test]
fn a_batch_goes_on_behind_a_file_that_is_not_copied() {
    let vfs = TestFileSystem::new(names(&["a-10"]));
    let mut duplicator = Duplicator::new(day_then_count(), vfs, false);
    let copied = duplicator.duplicate_files(&names(&["a-23", "none", "b-23", "b-23", "c-01"]));
    assert_eq!(copied, vec![false, false, true, false, true]);
    assert_eq!(
        duplicator.vfs().get_files(),
        names(&["a-10", "b-10", "c-10"])
    );
}

#[test]
fn a_batch_stops_before_a_file_whose_scan_cannot_be_made() {
    let rules = vec![AnyRule::Increment(IncrementRule::new())];
    let vfs = TestFileSystem::new(names(&["take1"]));
    let mut duplicator = Duplicator::new(rules, vfs, false);
    let files = names(&["take1", "take", "take1", "take99999999999", "take5"]);
    let copied = duplicator.try_duplicate_files(&files);
    assert_eq!(copied, vec![true, false, false]);
    assert_eq!(duplicator.vfs().get_files(), names(&["take1", "take2"]));
    assert_eq!(duplicator.try_duplicate(&files[3]), None);
}

#[test]
fn a_batch_that_can_be_made_is_made_whole() {
    let vfs = TestFileSystem::new(names(&["a-23"]));
    let mut duplicator = Duplicator::new(day_then_count(), vfs, true);
    let files = names(&["a-23", "a-23", "a-23", "b"]);
    let copied = duplicator.try_duplicate_files(&files);
    assert_eq!(copied, vec![true, true, false, false]);
    assert_eq!(duplicator.try_duplicate_files(&vec![]), Vec::<bool>::new());
}
