use globwalk::pattern::pattern_is_blank;
use globwalk::{
    glob, parse_pattern, Action, Event, GlobError, GlobWalker, GlobWalkerBuilder, RuleSet, Verdict,
};

fn strings(list: &[&str]) -> Vec<String> {
    list.iter().map(|s| s.to_string()).collect()
}

fn rules(list: &[&str]) -> RuleSet {
    match RuleSet::compile(".", &strings(list), false) {
        Ok(r) => r,
        Err(e) => panic!("patterns refused: {:?}", e),
    }
}

fn entry(path: &str, is_dir: bool) -> Event {
    Event::Entry(path.to_string(), is_dir)
}

#[test]
fn parse_plain_pattern() {
    let p = parse_pattern("*.rs");
    assert!(!p.negated);
    assert_eq!(p.text, "*.rs");
    assert_eq!(p.line, "*.rs");
}

#[test]
fn parse_negated_pattern() {
    let p = parse_pattern("!world.rs");
    assert!(p.negated);
    assert_eq!(p.text, "!world.rs");
    assert_eq!(p.line, "world.rs");
}

#[test]
fn parse_escapes_leading_marks_of_the_glob() {
    let p = parse_pattern("!!x");
    assert!(p.negated);
    assert_eq!(p.line, "\\!x");
    let p = parse_pattern("!#notes");
    assert!(p.negated);
    assert_eq!(p.line, "\\#notes");
    let p = parse_pattern("#notes");
    assert!(!p.negated);
    assert_eq!(p.line, "#notes");
    let p = parse_pattern("");
    assert!(!p.negated);
    assert_eq!(p.line, "");
}

#[test]
fn last_matching_rule_wins() {
    let r = rules(&["*.rs", "!world.rs"]);
    assert_eq!(r.len(), 2);
    assert_eq!(r.matched("hello.rs", false), Verdict::Whitelist(0));
    assert_eq!(r.matched("world.rs", false), Verdict::Ignore(1));
    assert_eq!(r.matched("src/world.rs", false), Verdict::Ignore(1));
    assert_eq!(r.matched("notes.txt", false), Verdict::NoMatch);
    let r = rules(&["!world.rs", "*.rs"]);
    assert_eq!(r.matched("world.rs", false), Verdict::Whitelist(1));
}

#[test]
fn anchored_and_recursive_globs() {
    let r = rules(&["src/**/*.rs", "*.c", "**/*.{md,rst}"]);
    assert_eq!(r.matched("src/some_mod/unexpected.rs", false), Verdict::Whitelist(0));
    assert_eq!(r.matched("a.rs", false), Verdict::NoMatch);
    assert_eq!(r.matched("lib.c", false), Verdict::Whitelist(1));
    assert_eq!(r.matched("contrib/README.rst", false), Verdict::Whitelist(2));
}

#[test]
fn directory_only_pattern() {
    let r = rules(&["build/"]);
    assert_eq!(r.matched("build", true), Verdict::Whitelist(0));
    assert_eq!(r.matched("build", false), Verdict::NoMatch);
}

#[test]
fn case_flag_applies_to_every_rule() {
    let list = strings(&["*.rs", "!*.TXT"]);
    let sensitive = RuleSet::compile(".", &list, false).ok().unwrap();
    assert_eq!(sensitive.matched("avocado.RS", false), Verdict::NoMatch);
    assert_eq!(sensitive.matched("a.txt", false), Verdict::NoMatch);
    let insensitive = RuleSet::compile(".", &list, true).ok().unwrap();
    assert_eq!(insensitive.matched("avocado.RS", false), Verdict::Whitelist(0));
    assert_eq!(insensitive.matched("a.txt", false), Verdict::Ignore(1));
}

#[test]
fn unclosed_class_is_refused() {
    match RuleSet::compile(".", &strings(&["*.rs", "a[b", "{x"]), false) {
        Err(GlobError::Pattern { pattern, index, .. }) => {
            assert_eq!(index, 1);
            assert_eq!(pattern, "a[b");
        }
        _ => panic!("a malformed pattern was accepted"),
    }
}

#[test]
fn unclosed_alternation_is_refused() {
    let b = GlobWalkerBuilder::from_patterns(".", &["*.rs", "!{png,jpg"]);
    match b.build() {
        Err(GlobError::Pattern { pattern, index, .. }) => {
            assert_eq!(index, 1);
            assert_eq!(pattern, "!{png,jpg");
        }
        _ => panic!("a malformed pattern was accepted"),
    }
}

#[test]
fn empty_pattern_list_is_refused() {
    assert!(matches!(RuleSet::compile(".", &strings(&[]), false), Err(GlobError::NoPatterns)));
    let b = GlobWalkerBuilder::from_patterns(".", &[] as &[&str]);
    assert!(matches!(b.build(), Err(GlobError::NoPatterns)));
}

#[test]
fn blank_pattern_list_is_refused() {
    let b = GlobWalkerBuilder::from_patterns(".", &["", "  ", "\t\u{a0}"]);
    assert!(matches!(b.build(), Err(GlobError::NoPatterns)));
    assert!(matches!(glob(" "), Err(GlobError::NoPatterns)));
    assert!(GlobWalkerBuilder::from_patterns(".", &["", "*.rs"]).build().is_ok());
}

#[test]
fn malformed_pattern_is_reported_before_blank_list() {
    let b = GlobWalkerBuilder::from_patterns(".", &[" ", "[z-a"]);
    assert!(matches!(b.build(), Err(GlobError::Pattern { index: 1, .. })));
}

#[test]
fn blank_patterns() {
    assert!(pattern_is_blank(""));
    assert!(pattern_is_blank(" \t\n\u{3000}"));
    assert!(!pattern_is_blank(" a "));
    assert!(!pattern_is_blank("#"));
}

#[test]
fn plain_comment_pattern_matches_nothing() {
    let r = rules(&["#notes", "!#draft"]);
    assert_eq!(r.matched("#notes", false), Verdict::NoMatch);
    assert_eq!(r.matched("#draft", false), Verdict::Ignore(1));
}

#[test]
fn steps_follow_verdicts() {
    let mut w = GlobWalkerBuilder::from_patterns(".", &["*.{png,jpg,gif}", "!Pictures"]).build().ok().unwrap();
    assert_eq!(w.step(&entry("", true)), Action::Advance);
    assert_eq!(w.step(&entry("a.png", false)), Action::Emit);
    assert_eq!(w.step(&entry("notes.txt", false)), Action::Advance);
    assert_eq!(w.step(&entry("Pictures", true)), Action::SkipSubtree);
    assert_eq!(w.step(&entry("Pictures", false)), Action::Advance);
    assert_eq!(w.step(&entry("Other", true)), Action::Advance);
    assert!(!w.is_finished());
    assert_eq!(w.step(&Event::End), Action::Finish);
    assert!(w.is_finished());
    assert_eq!(w.step(&entry("b.png", false)), Action::Finish);
}

#[test]
fn whitelisted_directory_is_emitted() {
    let mut w = GlobWalkerBuilder::new(".", "mod").build().ok().unwrap();
    assert_eq!(w.step(&entry("mod", true)), Action::Emit);
    assert_eq!(w.step(&entry("mod/a.png", false)), Action::Advance);
}

#[test]
fn errors_are_reported_and_the_walk_goes_on() {
    let rs = rules(&["**/*.rs"]);
    let mut w = GlobWalker::new(rs, GlobWalkerBuilder::new(".", "").settings);
    let events = vec![
        entry("a", true),
        entry("a/x.rs", false),
        Event::Failure,
        entry("c", true),
        entry("c/y.rs", false),
        Event::End,
    ];
    let actions: Vec<Action> = events.iter().map(|e| w.step(e)).collect();
    assert_eq!(
        actions,
        vec![Action::Advance, Action::Emit, Action::Report, Action::Advance, Action::Emit, Action::Finish]
    );
    assert_eq!(actions.iter().filter(|a| **a == Action::Report).count(), 1);
}

#[test]
fn builder_settings_are_kept() {
    let b = GlobWalkerBuilder::new("base", "*.rs")
        .min_depth(1)
        .max_depth(4)
        .follow_links(true)
        .max_open(3)
        .contents_first(true)
        .case_insensitive(true);
    assert_eq!(b.patterns, vec!["*.rs".to_string()]);
    assert!(b.case_insensitive);
    let w = b.build().ok().unwrap();
    let s = w.settings();
    assert_eq!(s.root, "base");
    assert_eq!(s.min_depth, Some(1));
    assert_eq!(s.max_depth, Some(4));
    assert!(s.follow_links);
    assert_eq!(s.max_open, Some(3));
    assert!(s.contents_first);
    assert_eq!(w.rules().matched("LIB.RS", false), Verdict::Whitelist(0));
}

#[test]
fn builder_defaults() {
    let b = GlobWalkerBuilder::new("base", "*.rs");
    assert!(!b.case_insensitive);
    assert_eq!(b.settings.min_depth, None);
    assert_eq!(b.settings.max_depth, None);
    assert!(!b.settings.follow_links);
    assert_eq!(b.settings.max_open, None);
    assert!(!b.settings.contents_first);
}

#[test]
fn glob_walks_the_current_directory() {
    let w = glob("*.{png,jpg,gif}").ok().unwrap();
    assert_eq!(w.settings().root, ".");
    assert_eq!(w.rules().matched("cat.gif", false), Verdict::Whitelist(0));
    assert_eq!(w.rules().matched("cow.jog", false), Verdict::NoMatch);
    assert!(matches!(glob("["), Err(GlobError::Pattern { index: 0, .. })));
    let s = glob("*.rs").ok().unwrap();
    let s = s.settings();
    assert_eq!(s.min_depth, None);
    assert_eq!(s.max_depth, None);
    assert_eq!(s.max_open, None);
    assert!(!s.follow_links);
    assert!(!s.contents_first);
}
