//! The decisions of a pruning walk. The walk itself (reading directories)
//! is done by the caller, which hands each entry it meets to `step` and
//! carries out the action it gets back.
use crate::builder::WalkSettings;
use crate::rules::{
    lemma_inclusion, lemma_last_rule_wins, model_of, rule_matches, verdict_of, RuleSet,
    RuleSetModel, Verdict,
};
use vstd::prelude::*;

verus! {

/// What the directory traversal reports next.
pub enum Event {
    /// An entry, by its path relative to the base directory, and whether it
    /// is a directory.
    Entry(String, bool),
    /// The traversal could not read an entry or a directory.
    Failure,
    /// The traversal has nothing more to give.
    End,
}

/// What the walk does with an event.
#[derive(PartialEq, Eq, Structural, Clone, Copy, Debug)]
pub enum Action {
    /// Hand the entry to the caller (a directory is still descended into).
    Emit,
    /// Do not descend into this directory, and do not hand it out.
    SkipSubtree,
    /// Go on to the next entry without handing this one out.
    Advance,
    /// Hand the traversal's error to the caller, then go on.
    Report,
    /// The walk is over.
    Finish,
}

/// What the walk does with an entry, given its verdict.
pub open spec fn entry_action(v: Verdict, is_dir: bool) -> Action {
    match v {
        Verdict::Whitelist(_) => Action::Emit,
        Verdict::Ignore(_) => if is_dir {
            Action::SkipSubtree
        } else {
            Action::Advance
        },
        Verdict::NoMatch => Action::Advance,
    }
}

/// What the walk does with an entry at a path relative to the base
/// directory. The base directory itself (the empty path) is only the root of
/// the traversal: it is neither emitted nor pruned.
pub open spec fn entry_decision(m: RuleSetModel, path: Seq<char>, is_dir: bool) -> Action {
    if path.len() == 0 {
        Action::Advance
    } else {
        entry_action(verdict_of(m, path, is_dir), is_dir)
    }
}

/// The action a walk with rules `m` takes on an event.
pub open spec fn action_on(m: RuleSetModel, finished: bool, e: Event) -> Action {
    if finished {
        Action::Finish
    } else {
        match e {
            Event::Entry(path, is_dir) => entry_decision(m, path@, is_dir),
            Event::Failure => Action::Report,
            Event::End => Action::Finish,
        }
    }
}

/// The relative path of an entry event.
pub open spec fn entry_path(e: Event) -> Seq<char> {
    match e {
        Event::Entry(path, _) => path@,
        _ => Seq::empty(),
    }
}

/// Whether an event is a file below the base directory.
pub open spec fn is_file_entry(e: Event) -> bool {
    match e {
        Event::Entry(path, is_dir) => !is_dir && path@.len() > 0,
        _ => false,
    }
}

/// Whether the walk is over after an event.
pub open spec fn finished_after(finished: bool, e: Event) -> bool {
    finished || e is End
}

/// Whether the walk is over after a sequence of events.
pub open spec fn finished_after_all(finished: bool, events: Seq<Event>) -> bool
    decreases events.len(),
{
    if events.len() == 0 {
        finished
    } else {
        finished_after_all(finished_after(finished, events[0]), events.drop_first())
    }
}

/// The actions a walk takes on a sequence of events.
pub open spec fn run(m: RuleSetModel, finished: bool, events: Seq<Event>) -> Seq<Action>
    decreases events.len(),
{
    if events.len() == 0 {
        Seq::empty()
    } else {
        seq![action_on(m, finished, events[0])] + run(m, finished_after(finished, events[0]), events.drop_first())
    }
}

/// With no negated pattern, a file is emitted exactly when some pattern
/// matches its relative path, and no directory is pruned, so every file of
/// the tree is met.
pub proof fn lemma_positive_patterns(m: RuleSetModel, path: Seq<char>)
    requires
        forall|i: int| 0 <= i < m.rules.len() ==> !(#[trigger] m.rules[i]).negated,
    ensures
        path.len() > 0 ==> (entry_decision(m, path, false) == Action::Emit <==> exists|i: int|
            0 <= i < m.rules.len() && rule_matches(m, i, path, false)),
        entry_decision(m, path, true) != Action::SkipSubtree,
{
    lemma_inclusion(m, path, false);
    lemma_inclusion(m, path, true);
}

/// Until the traversal ends, the walk takes on each event the action that
/// the event alone decides.
pub proof fn lemma_run_pointwise(m: RuleSetModel, events: Seq<Event>)
    requires
        forall|k: int| 0 <= k < events.len() ==> !(#[trigger] events[k] is End),
    ensures
        run(m, false, events).len() == events.len(),
        forall|k: int| 0 <= k < events.len() ==> #[trigger] run(m, false, events)[k] == action_on(m, false, events[k]),
    decreases events.len(),
{
    if events.len() > 0 {
        let rest = events.drop_first();
        assert forall|k: int| 0 <= k < rest.len() implies !(#[trigger] rest[k] is End) by {
            assert(rest[k] == events[k + 1]);
        }
        assert(!(events[0] is End));
        lemma_run_pointwise(m, rest);
        assert forall|k: int| 0 <= k < events.len() implies #[trigger] run(m, false, events)[k] == action_on(m, false, events[k]) by {
            if k > 0 {
                assert(run(m, false, events)[k] == run(m, false, rest)[k - 1]);
                assert(rest[k - 1] == events[k]);
            }
        }
    }
}

/// Over a whole traversal, with no negated pattern: no directory is pruned,
/// and a file is emitted exactly when some pattern matches its path
/// relative to the base directory.
pub proof fn lemma_inclusion_over_walk(m: RuleSetModel, events: Seq<Event>)
    requires
        forall|i: int| 0 <= i < m.rules.len() ==> !(#[trigger] m.rules[i]).negated,
        forall|k: int| 0 <= k < events.len() ==> !(#[trigger] events[k] is End),
    ensures
        forall|k: int| 0 <= k < events.len() ==> #[trigger] run(m, false, events)[k] != Action::SkipSubtree,
        forall|k: int|
            0 <= k < events.len() && is_file_entry(events[k]) ==> (#[trigger] run(m, false, events)[k]
                == Action::Emit <==> exists|i: int|
                0 <= i < m.rules.len() && rule_matches(m, i, entry_path(events[k]), false)),
{
    lemma_run_pointwise(m, events);
    assert forall|k: int| 0 <= k < events.len() implies #[trigger] run(m, false, events)[k] != Action::SkipSubtree by {
        if let Event::Entry(p, d) = events[k] {
            lemma_positive_patterns(m, p@);
            lemma_inclusion(m, p@, d);
        }
    }
    assert forall|k: int|
        0 <= k < events.len() && is_file_entry(events[k]) implies (#[trigger] run(m, false, events)[k]
            == Action::Emit <==> exists|i: int|
            0 <= i < m.rules.len() && rule_matches(m, i, entry_path(events[k]), false)) by {
        lemma_positive_patterns(m, entry_path(events[k]));
    }
}

/// A directory whose last matching pattern is negated is skipped whole: it
/// is not emitted and not descended into.
pub proof fn lemma_excluded_directory_pruned(m: RuleSetModel, path: Seq<char>, i: int)
    requires
        path.len() > 0,
        0 <= i < m.rules.len(),
        m.rules[i].negated,
        rule_matches(m, i, path, true),
        forall|j: int| i < j < m.rules.len() ==> !rule_matches(m, j, path, true),
    ensures
        entry_decision(m, path, true) == Action::SkipSubtree,
{
    lemma_last_rule_wins(m, path, true, i);
}

/// A file whose last matching pattern is negated is not emitted, whatever
/// earlier patterns include it.
pub proof fn lemma_excluded_file_dropped(m: RuleSetModel, path: Seq<char>, i: int)
    requires
        path.len() > 0,
        0 <= i < m.rules.len(),
        m.rules[i].negated,
        rule_matches(m, i, path, false),
        forall|j: int| i < j < m.rules.len() ==> !rule_matches(m, j, path, false),
    ensures
        entry_decision(m, path, false) == Action::Advance,
{
    lemma_last_rule_wins(m, path, false, i);
}

/// The actions on two event sequences, one after the other, are the
/// actions on the first followed by those on the second from where the
/// first left the walk.
pub proof fn lemma_run_append(m: RuleSetModel, finished: bool, a: Seq<Event>, b: Seq<Event>)
    ensures
        run(m, finished, a + b) == run(m, finished, a) + run(m, finished_after_all(finished, a), b),
    decreases a.len(),
{
    if a.len() == 0 {
        assert(a + b =~= b);
    } else {
        let f1 = finished_after(finished, a[0]);
        lemma_run_append(m, f1, a.drop_first(), b);
        assert((a + b).drop_first() =~= a.drop_first() + b);
        assert(run(m, finished, a + b) =~= seq![action_on(m, finished, a[0])] + run(m, f1, a.drop_first() + b));
    }
}

/// An error of the traversal, met while the walk is under way, is reported
/// once, and the walk goes on exactly as it would have without it.
pub proof fn lemma_error_isolation(m: RuleSetModel, before: Seq<Event>, after: Seq<Event>)
    requires
        !finished_after_all(false, before),
    ensures
        run(m, false, before + seq![Event::Failure] + after) == run(m, false, before) + seq![Action::Report]
            + run(m, false, after),
        run(m, false, before + after) == run(m, false, before) + run(m, false, after),
{
    lemma_run_append(m, false, before, seq![Event::Failure] + after);
    lemma_run_append(m, false, before, after);
    assert(before + seq![Event::Failure] + after =~= before + (seq![Event::Failure] + after));
    let tail = seq![Event::Failure] + after;
    assert(tail.drop_first() =~= after);
    assert(run(m, false, tail) =~= seq![Action::Report] + run(m, false, after));
    assert(run(m, false, before) + (seq![Action::Report] + run(m, false, after)) =~= run(m, false, before)
        + seq![Action::Report] + run(m, false, after));
}

/// Two walks built from the same base directory, patterns and case flag act
/// alike on the same traversal: they emit the same entries and prune the
/// same directories.
pub proof fn lemma_same_configuration(
    root: Seq<char>,
    case_insensitive: bool,
    patterns: Seq<Seq<char>>,
    first: RuleSetModel,
    second: RuleSetModel,
    events: Seq<Event>,
)
    requires
        first == model_of(root, case_insensitive, patterns),
        second == model_of(root, case_insensitive, patterns),
    ensures
        run(first, false, events) == run(second, false, events),
{
}

/// A walk over the entries of a directory tree that keeps those the rules
/// include and prunes the directories they exclude.
pub struct GlobWalker {
    rules: RuleSet,
    settings: WalkSettings,
    finished: bool,
}

impl GlobWalker {
    /// The rules the walk goes by.
    pub closed spec fn model(&self) -> RuleSetModel {
        self.rules@
    }

    /// Whether the walk is over.
    pub closed spec fn spec_finished(&self) -> bool {
        self.finished
    }

    /// The traversal settings the walk was built with.
    pub closed spec fn spec_settings(&self) -> WalkSettings {
        self.settings
    }

    /// A walk that has not started yet.
    pub fn new(rules: RuleSet, settings: WalkSettings) -> (w: GlobWalker)
        ensures
            w.model() == rules@,
            w.spec_settings() == settings,
            !w.spec_finished(),
    {
        GlobWalker { rules, settings, finished: false }
    }

    /// The traversal settings the walk was built with.
    pub fn settings(&self) -> (s: &WalkSettings)
        ensures
            *s == self.spec_settings(),
    {
        &self.settings
    }

    /// The rules the walk goes by.
    pub fn rules(&self) -> (r: &RuleSet)
        ensures
            r@ == self.model(),
    {
        &self.rules
    }

    /// Whether the walk is over.
    pub fn is_finished(&self) -> (b: bool)
        ensures
            b == self.spec_finished(),
    {
        self.finished
    }

    /// Decides what to do with the next event of the traversal. An entry the
    /// rules include is emitted; a directory they exclude is skipped whole;
    /// the base directory is only passed through; an error is reported and
    /// the walk goes on; once the traversal has ended, the walk stays over.
    pub fn step(&mut self, event: &Event) -> (a: Action)
        ensures
            a == action_on(old(self).model(), old(self).spec_finished(), *event),
            final(self).model() == old(self).model(),
            final(self).spec_settings() == old(self).spec_settings(),
            final(self).spec_finished() == finished_after(old(self).spec_finished(), *event),
    {
        if self.finished {
            return Action::Finish;
        }
        match event {
            Event::Entry(path, is_dir) => {
                let is_dir = *is_dir;
                if path.as_str().is_empty() {
                    return Action::Advance;
                }
                match self.rules.matched(path.as_str(), is_dir) {
                    Verdict::Whitelist(_) => Action::Emit,
                    Verdict::Ignore(_) => if is_dir {
                        Action::SkipSubtree
                    } else {
                        Action::Advance
                    },
                    Verdict::NoMatch => Action::Advance,
                }
            },
            Event::Failure => Action::Report,
            Event::End => {
                self.finished = true;
                Action::Finish
            },
        }
    }
}

} // verus!
