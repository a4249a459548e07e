//! The rule set: an ordered list of compiled patterns, with last-match-wins
//! precedence.
use crate::glob::{compile_glob, glob_accepts, glob_matched, glob_matches, CompiledGlob};
use crate::pattern::{is_blank, is_negated, parse_pattern, pattern_is_blank, rule_line, Pattern};
use vstd::prelude::*;

verus! {

/// What a rule set says of one path.
#[derive(PartialEq, Eq, Structural, Clone, Copy, Debug)]
pub enum Verdict {
    /// The path is included, by the rule at this index.
    Whitelist(usize),
    /// The path is excluded, by the negated rule at this index.
    Ignore(usize),
    /// No rule matches the path.
    NoMatch,
}

/// A pattern of the list, as the rule set reads it.
pub struct RuleModel {
    pub negated: bool,
    pub line: Seq<char>,
}

/// The rule set in mathematical terms.
pub struct RuleSetModel {
    pub root: Seq<char>,
    pub case_insensitive: bool,
    pub rules: Seq<RuleModel>,
}

/// The rule that a pattern becomes.
pub open spec fn rule_of(raw: Seq<char>) -> RuleModel {
    RuleModel { negated: is_negated(raw), line: rule_line(raw) }
}

/// The rule set that a pattern list becomes, in the order of the list.
pub open spec fn model_of(root: Seq<char>, case_insensitive: bool, patterns: Seq<Seq<char>>) -> RuleSetModel {
    RuleSetModel {
        root,
        case_insensitive,
        rules: patterns.map_values(|p: Seq<char>| rule_of(p)),
    }
}

/// Whether the pattern at index `i` is accepted by the glob compiler.
pub open spec fn pattern_compiles(case_insensitive: bool, patterns: Seq<Seq<char>>, i: int) -> bool {
    glob_accepts(rule_line(patterns[i]), case_insensitive)
}

/// Whether every pattern of the list compiles.
pub open spec fn all_compile(case_insensitive: bool, patterns: Seq<Seq<char>>) -> bool {
    forall|i: int| 0 <= i < patterns.len() ==> pattern_compiles(case_insensitive, patterns, i)
}

/// Whether some pattern of the list is not blank.
pub open spec fn has_content(patterns: Seq<Seq<char>>) -> bool {
    exists|i: int| 0 <= i < patterns.len() && !is_blank(#[trigger] patterns[i])
}

/// Whether the rule at index `i` matches the path.
pub open spec fn rule_matches(m: RuleSetModel, i: int, path: Seq<char>, is_dir: bool) -> bool {
    glob_matches(m.root, m.rules[i].line, m.case_insensitive, path, is_dir)
}

/// The last of the first `n` rules that matches the path, if any.
pub open spec fn last_match(m: RuleSetModel, path: Seq<char>, is_dir: bool, n: int) -> Option<int>
    decreases n,
{
    if n <= 0 {
        None
    } else if rule_matches(m, n - 1, path, is_dir) {
        Some(n - 1)
    } else {
        last_match(m, path, is_dir, n - 1)
    }
}

/// The verdict of a rule set on a path: that of the last rule matching it.
pub open spec fn verdict_of(m: RuleSetModel, path: Seq<char>, is_dir: bool) -> Verdict {
    match last_match(m, path, is_dir, m.rules.len() as int) {
        None => Verdict::NoMatch,
        Some(i) => if m.rules[i].negated {
            Verdict::Ignore(i as usize)
        } else {
            Verdict::Whitelist(i as usize)
        },
    }
}

/// The last match among the first `n` rules matches the path, and no later
/// one of them does; no match means that none of them does.
proof fn lemma_last_match(m: RuleSetModel, path: Seq<char>, is_dir: bool, n: int)
    ensures
        last_match(m, path, is_dir, n) matches Some(i) ==> {
            &&& 0 <= i < n
            &&& rule_matches(m, i, path, is_dir)
            &&& forall|j: int| i < j < n ==> !rule_matches(m, j, path, is_dir)
        },
        last_match(m, path, is_dir, n) is None ==> forall|j: int|
            0 <= j < n ==> !rule_matches(m, j, path, is_dir),
    decreases n,
{
    if n > 0 {
        lemma_last_match(m, path, is_dir, n - 1);
    }
}

/// Precedence: of the rules that match a path, the last one decides, and a
/// negated one excludes.
pub proof fn lemma_last_rule_wins(m: RuleSetModel, path: Seq<char>, is_dir: bool, i: int)
    requires
        0 <= i < m.rules.len(),
        rule_matches(m, i, path, is_dir),
        forall|j: int| i < j < m.rules.len() ==> !rule_matches(m, j, path, is_dir),
    ensures
        verdict_of(m, path, is_dir) == if m.rules[i].negated {
            Verdict::Ignore(i as usize)
        } else {
            Verdict::Whitelist(i as usize)
        },
{
    let n = m.rules.len() as int;
    lemma_last_match(m, path, is_dir, n);
    match last_match(m, path, is_dir, n) {
        Some(k) => {
            if k < i {
                assert(rule_matches(m, i, path, is_dir));
            }
            assert(k == i);
        },
        None => {
            assert(!rule_matches(m, i, path, is_dir));
        },
    }
}

/// With no negated pattern, a path is included exactly when some pattern
/// matches it, and nothing is ever excluded.
pub proof fn lemma_inclusion(m: RuleSetModel, path: Seq<char>, is_dir: bool)
    requires
        forall|i: int| 0 <= i < m.rules.len() ==> !(#[trigger] m.rules[i]).negated,
    ensures
        verdict_of(m, path, is_dir) is Whitelist <==> exists|i: int|
            0 <= i < m.rules.len() && rule_matches(m, i, path, is_dir),
        !(verdict_of(m, path, is_dir) is Ignore),
{
    let n = m.rules.len() as int;
    lemma_last_match(m, path, is_dir, n);
    match last_match(m, path, is_dir, n) {
        Some(k) => {
            assert(!m.rules[k].negated);
        },
        None => {},
    }
}

/// Whether a pattern list compiles: every pattern is accepted by the glob
/// compiler, and some pattern is not blank.
pub open spec fn compiles(case_insensitive: bool, patterns: Seq<Seq<char>>) -> bool {
    all_compile(case_insensitive, patterns) && has_content(patterns)
}

/// The error says why the list does not compile: the first pattern that
/// the compiler refuses, or, when it accepts them all, that none of them
/// holds anything.
pub open spec fn explains_failure(case_insensitive: bool, patterns: Seq<Seq<char>>, e: GlobError) -> bool {
    match e {
        GlobError::Pattern { pattern, index, .. } => {
            &&& 0 <= index < patterns.len()
            &&& pattern@ == patterns[index as int]
            &&& !pattern_compiles(case_insensitive, patterns, index as int)
            &&& forall|j: int| 0 <= j < index ==> pattern_compiles(case_insensitive, patterns, j)
        },
        GlobError::NoPatterns => all_compile(case_insensitive, patterns) && !has_content(patterns),
    }
}

/// Why a pattern list could not be compiled.
#[derive(Debug)]
pub enum GlobError {
    /// The glob compiler refused the pattern at `index`.
    Pattern {
        /// The pattern as the caller wrote it.
        pattern: String,
        /// Its index in the pattern list.
        index: usize,
        /// The compiler's error.
        source: ignore::Error,
    },
    /// The list holds no pattern that is not blank.
    NoPatterns,
}

/// One compiled rule.
pub struct Rule {
    pattern: Pattern,
    glob: CompiledGlob,
}

/// The compiled, ordered rules of a pattern list, all relative to one base
/// directory.
pub struct RuleSet {
    root: String,
    case_insensitive: bool,
    rules: Vec<Rule>,
}

impl View for RuleSet {
    type V = RuleSetModel;

    closed spec fn view(&self) -> RuleSetModel {
        RuleSetModel {
            root: self.root@,
            case_insensitive: self.case_insensitive,
            rules: self.rules@.map_values(|r: Rule| RuleModel { negated: r.pattern.negated, line: r.pattern.line@ }),
        }
    }
}

impl RuleSet {
    /// Each rule's matcher was compiled from its line, under the set's root
    /// and case flag.
    #[verifier::type_invariant]
    closed spec fn well_formed(&self) -> bool {
        forall|i: int| 0 <= i < self.rules@.len() ==> {
            let r = #[trigger] self.rules@[i];
            &&& r.glob.spec_root() == self.root@
            &&& r.glob.spec_line() == r.pattern.line@
            &&& r.glob.spec_case_insensitive() == self.case_insensitive
        }
    }

    /// Compiles the patterns, in order, relative to `root`. The first
    /// pattern that the glob compiler refuses fails the whole set.
    pub fn compile(root: &str, patterns: &Vec<String>, case_insensitive: bool) -> (r: Result<RuleSet, GlobError>)
        ensures
            r is Ok <==> compiles(case_insensitive, patterns.deep_view()),
            r matches Ok(s) ==> s@ == model_of(root@, case_insensitive, patterns.deep_view()),
            r matches Err(e) ==> explains_failure(case_insensitive, patterns.deep_view(), e),
    {
        let ghost pats = patterns.deep_view();
        let mut rules: Vec<Rule> = Vec::new();
        let mut content = false;
        let mut i: usize = 0;
        while i < patterns.len()
            invariant
                0 <= i <= patterns.len(),
                pats == patterns.deep_view(),
                rules@.len() == i,
                forall|j: int| 0 <= j < i ==> pattern_compiles(case_insensitive, pats, j),
                content <==> exists|j: int| 0 <= j < i && !is_blank(#[trigger] pats[j]),
                forall|j: int| 0 <= j < i ==> {
                    let r = #[trigger] rules@[j];
                    &&& r.glob.spec_root() == root@
                    &&& r.glob.spec_line() == r.pattern.line@
                    &&& r.glob.spec_case_insensitive() == case_insensitive
                    &&& r.pattern.negated == rule_of(pats[j]).negated
                    &&& r.pattern.line@ == rule_of(pats[j]).line
                },
            decreases patterns.len() - i,
        {
            let pattern = parse_pattern(patterns[i].as_str());
            assert(pats[i as int] == patterns[i as int]@);
            match compile_glob(root, pattern.line.as_str(), case_insensitive) {
                Ok(glob) => {
                    rules.push(Rule { pattern, glob });
                },
                Err(source) => {
                    assert(!pattern_compiles(case_insensitive, pats, i as int));
                    return Err(GlobError::Pattern { pattern: patterns[i].clone(), index: i, source });
                },
            }
            if !pattern_is_blank(patterns[i].as_str()) {
                content = true;
            }
            i = i + 1;
        }
        if !content {
            return Err(GlobError::NoPatterns);
        }
        let set = RuleSet { root: String::from_str(root), case_insensitive, rules };
        assert(set@.rules =~= model_of(root@, case_insensitive, pats).rules);
        Ok(set)
    }

    /// The verdict of the rules on a path relative to the root: the last
    /// rule that matches it decides.
    pub fn matched(&self, path: &str, is_dir: bool) -> (v: Verdict)
        ensures
            v == verdict_of(self@, path@, is_dir),
    {
        let mut i: usize = self.rules.len();
        while i > 0
            invariant
                0 <= i <= self.rules@.len(),
                self@.rules.len() == self.rules@.len(),
                last_match(self@, path@, is_dir, i as int) == last_match(self@, path@, is_dir, self@.rules.len() as int),
            decreases i,
        {
            let rule = &self.rules[i - 1];
            let hit = glob_matched(&rule.glob, path, is_dir);
            proof {
                use_type_invariant(self);
                let k = (i - 1) as int;
                assert(self@.rules[k] == RuleModel { negated: rule.pattern.negated, line: rule.pattern.line@ });
                assert(self.rules@[k].glob.spec_line() == rule.pattern.line@);
                assert(hit == rule_matches(self@, k, path@, is_dir));
            }
            if hit {
                assert(last_match(self@, path@, is_dir, i as int) == Some((i - 1) as int));
                return if rule.pattern.negated {
                    Verdict::Ignore(i - 1)
                } else {
                    Verdict::Whitelist(i - 1)
                };
            }
            i = i - 1;
        }
        Verdict::NoMatch
    }

    /// The number of rules.
    pub fn len(&self) -> (n: usize)
        ensures
            n == self@.rules.len(),
    {
        self.rules.len()
    }
}

} // verus!
