//! Configuring a walk: the base directory, the patterns, and the settings
//! handed to the directory traversal.
use crate::pattern::is_blank;
use crate::rules::{all_compile, compiles, explains_failure, model_of, GlobError, RuleSet};
use crate::walker::GlobWalker;
use vstd::prelude::*;
use vstd::string::*;

verus! {

/// The settings of the directory traversal. A depth or handle limit left
/// unset keeps the traversal's own default.
#[derive(Debug)]
pub struct WalkSettings {
    /// The base directory: the root of the traversal, never emitted itself.
    pub root: String,
    /// The smallest depth of the entries yielded.
    pub min_depth: Option<usize>,
    /// The largest depth of the entries yielded; deeper directories are
    /// not descended into.
    pub max_depth: Option<usize>,
    /// Whether symbolic links are followed.
    pub follow_links: bool,
    /// The largest number of directory handles open at once.
    pub max_open: Option<usize>,
    /// Whether a directory's contents come before the directory itself.
    pub contents_first: bool,
}

/// A builder for a walk over the base directory that yields the entries
/// matching the patterns.
pub struct GlobWalkerBuilder {
    /// The patterns, in the order they were given.
    pub patterns: Vec<String>,
    /// Whether the globs match regardless of case.
    pub case_insensitive: bool,
    /// The settings of the traversal.
    pub settings: WalkSettings,
}

impl GlobWalkerBuilder {
    /// A builder with one pattern.
    pub fn new(base: &str, pattern: &str) -> (b: GlobWalkerBuilder)
        ensures
            b.patterns.deep_view() == seq![pattern@],
            b.settings.root@ == base@,
            b.is_default_otherwise(),
    {
        let patterns: [&str; 1] = [pattern];
        let b = GlobWalkerBuilder::from_patterns(base, &patterns);
        assert(patterns.deep_view() =~= seq![pattern@]);
        b
    }

    /// Every setting but the base directory and the patterns is its default.
    pub open spec fn is_default_otherwise(&self) -> bool {
        &&& !self.case_insensitive
        &&& self.settings.min_depth is None
        &&& self.settings.max_depth is None
        &&& !self.settings.follow_links
        &&& self.settings.max_open is None
        &&& !self.settings.contents_first
    }

    /// A builder with a list of patterns, kept in order.
    pub fn from_patterns(base: &str, patterns: &[&str]) -> (b: GlobWalkerBuilder)
        ensures
            b.patterns.deep_view() == patterns.deep_view(),
            b.settings.root@ == base@,
            b.is_default_otherwise(),
    {
        let mut list: Vec<String> = Vec::new();
        let mut i: usize = 0;
        while i < patterns.len()
            invariant
                0 <= i <= patterns@.len(),
                list@.len() == i,
                forall|j: int| 0 <= j < i ==> (#[trigger] list@[j])@ == patterns@[j]@,
            decreases patterns@.len() - i,
        {
            list.push(String::from_str(patterns[i]));
            i = i + 1;
        }
        assert(list.deep_view() =~= patterns.deep_view());
        GlobWalkerBuilder {
            patterns: list,
            case_insensitive: false,
            settings: WalkSettings {
                root: String::from_str(base),
                min_depth: None,
                max_depth: None,
                follow_links: false,
                max_open: None,
                contents_first: false,
            },
        }
    }

    /// Sets the smallest depth of the entries yielded (the base directory
    /// has depth 0).
    pub fn min_depth(self, depth: usize) -> (b: GlobWalkerBuilder)
        ensures
            b.settings == (WalkSettings { min_depth: Some(depth), ..self.settings }),
            b.patterns@ == self.patterns@,
            b.case_insensitive == self.case_insensitive,
    {
        let mut b = self;
        b.settings.min_depth = Some(depth);
        b
    }

    /// Sets the largest depth of the entries yielded; the traversal does
    /// not descend below it.
    pub fn max_depth(self, depth: usize) -> (b: GlobWalkerBuilder)
        ensures
            b.settings == (WalkSettings { max_depth: Some(depth), ..self.settings }),
            b.patterns@ == self.patterns@,
            b.case_insensitive == self.case_insensitive,
    {
        let mut b = self;
        b.settings.max_depth = Some(depth);
        b
    }

    /// Sets whether symbolic links are followed.
    pub fn follow_links(self, yes: bool) -> (b: GlobWalkerBuilder)
        ensures
            b.settings == (WalkSettings { follow_links: yes, ..self.settings }),
            b.patterns@ == self.patterns@,
            b.case_insensitive == self.case_insensitive,
    {
        let mut b = self;
        b.settings.follow_links = yes;
        b
    }

    /// Sets the largest number of directory handles open at once. This
    /// changes neither which entries are yielded nor their order.
    pub fn max_open(self, n: usize) -> (b: GlobWalkerBuilder)
        ensures
            b.settings == (WalkSettings { max_open: Some(n), ..self.settings }),
            b.patterns@ == self.patterns@,
            b.case_insensitive == self.case_insensitive,
    {
        let mut b = self;
        b.settings.max_open = Some(n);
        b
    }

    /// Sets whether a directory's contents are yielded before the
    /// directory itself.
    pub fn contents_first(self, yes: bool) -> (b: GlobWalkerBuilder)
        ensures
            b.settings == (WalkSettings { contents_first: yes, ..self.settings }),
            b.patterns@ == self.patterns@,
            b.case_insensitive == self.case_insensitive,
    {
        let mut b = self;
        b.settings.contents_first = yes;
        b
    }

    /// Sets whether the globs match regardless of case.
    pub fn case_insensitive(self, yes: bool) -> (b: GlobWalkerBuilder)
        ensures
            b.case_insensitive == yes,
            b.patterns@ == self.patterns@,
            b.settings == self.settings,
    {
        let mut b = self;
        b.case_insensitive = yes;
        b
    }

    /// Compiles the patterns and makes the walk. The first pattern that
    /// does not compile fails the build, and no walk is made.
    pub fn build(self) -> (r: Result<GlobWalker, GlobError>)
        ensures
            r is Ok <==> compiles(self.case_insensitive, self.patterns.deep_view()),
            r matches Ok(w) ==> {
                &&& w.model() == model_of(self.settings.root@, self.case_insensitive, self.patterns.deep_view())
                &&& w.spec_settings() == self.settings
                &&& !w.spec_finished()
            },
            r matches Err(e) ==> explains_failure(self.case_insensitive, self.patterns.deep_view(), e),
    {
        match RuleSet::compile(self.settings.root.as_str(), &self.patterns, self.case_insensitive) {
            Ok(rules) => Ok(GlobWalker::new(rules, self.settings)),
            Err(e) => Err(e),
        }
    }
}

/// A walk over the current directory with one pattern.
pub fn glob(pattern: &str) -> (r: Result<GlobWalker, GlobError>)
    ensures
        r is Ok <==> all_compile(false, seq![pattern@]) && !is_blank(pattern@),
        r matches Ok(w) ==> {
            &&& w.model() == model_of(seq!['.'], false, seq![pattern@])
            &&& w.spec_settings().root@ == seq!['.']
            &&& w.spec_settings().min_depth is None
            &&& w.spec_settings().max_depth is None
            &&& w.spec_settings().max_open is None
            &&& !w.spec_settings().follow_links
            &&& !w.spec_settings().contents_first
            &&& !w.spec_finished()
        },
        r matches Err(e) ==> match e {
            GlobError::Pattern { pattern: p, index, .. } => index == 0 && p@ == pattern@ && !all_compile(
                false,
                seq![pattern@],
            ),
            GlobError::NoPatterns => is_blank(pattern@),
        },
{
    let b = GlobWalkerBuilder::new(".", pattern);
    proof {
        reveal_strlit(".");
        assert(b.settings.root@ =~= seq!['.']);
        assert(seq![pattern@][0] == pattern@);
    }
    b.build()
}

} // verus!
