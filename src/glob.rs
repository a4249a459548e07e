//! A single glob, compiled and matched by the `ignore` crate's override
//! matcher.
use ignore::overrides::{Override, OverrideBuilder};
use ignore::Match;
use vstd::prelude::*;

verus! {

#[verifier::external_type_specification]
#[verifier::external_body]
pub struct ExOverride(Override);

#[verifier::external_type_specification]
#[verifier::external_body]
pub struct ExIgnoreError(ignore::Error);

/// Whether the override compiler accepts a glob line, with the given case
/// sensitivity.
pub uninterp spec fn glob_accepts(line: Seq<char>, case_insensitive: bool) -> bool;

/// Whether the glob line, compiled as the only override of a matcher rooted
/// at `root`, matches `path` (a directory when `is_dir`).
pub uninterp spec fn glob_matches(
    root: Seq<char>,
    line: Seq<char>,
    case_insensitive: bool,
    path: Seq<char>,
    is_dir: bool,
) -> bool;

/// One glob line together with the matcher compiled from it.
pub struct CompiledGlob {
    root: String,
    line: String,
    case_insensitive: bool,
    matcher: Override,
}

impl CompiledGlob {
    pub closed spec fn spec_root(&self) -> Seq<char> {
        self.root@
    }

    pub closed spec fn spec_line(&self) -> Seq<char> {
        self.line@
    }

    pub closed spec fn spec_case_insensitive(&self) -> bool {
        self.case_insensitive
    }
}

/// Relies on ignore's `OverrideBuilder` (`new`, `case_insensitive`, `add`,
/// `build`) to compile one glob line into a matcher; whether it succeeds
/// depends on the line and the case flag alone.
#[verifier::external_body]
pub(crate) fn compile_glob(root: &str, line: &str, case_insensitive: bool) -> (r: Result<
    CompiledGlob,
    ignore::Error,
>)
    ensures
        r is Ok <==> glob_accepts(line@, case_insensitive),
        r matches Ok(g) ==> g.spec_root() == root@ && g.spec_line() == line@
            && g.spec_case_insensitive() == case_insensitive,
{
    let mut builder = OverrideBuilder::new(root);
    builder.case_insensitive(case_insensitive)?;
    builder.add(line)?;
    let matcher = builder.build()?;
    Ok(CompiledGlob { root: root.to_string(), line: line.to_string(), case_insensitive, matcher })
}

/// Relies on ignore's `Override::matched`: a matcher built from one plain
/// glob answers `Whitelist` exactly for the paths that the glob matches.
#[verifier::external_body]
pub(crate) fn glob_matched(g: &CompiledGlob, path: &str, is_dir: bool) -> (r: bool)
    ensures
        r == glob_matches(g.spec_root(), g.spec_line(), g.spec_case_insensitive(), path@, is_dir),
{
    match g.matcher.matched(path, is_dir) {
        Match::None => false,
        Match::Ignore(_) => false,
        Match::Whitelist(_) => true,
    }
}

} // verus!
