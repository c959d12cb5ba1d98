//! What this library takes on trust from the `globset` crate.
//!
//! Parsing a glob pattern and matching a text against a set of globs are left to
//! `globset`. Nothing here is proved: each item states what the crate's source
//! and documentation say of one of its functions, and the rest of the library is
//! verified against these statements. Every glob in this library comes from
//! [`Glob::new`], so the statements speak of globs with the default options.
//!
//! `globset` matches paths: where `\` separates path components it reads a
//! `\` in the matched text as `/` and takes none in a pattern as an escape.
//! The names below stand for its answers as it is built for the platform.

use globset::{Glob, GlobSet, GlobSetBuilder};
use vstd::prelude::*;

verus! {

/// `globset::Glob`: one parsed pattern.
#[verifier::external_type_specification]
#[verifier::external_body]
pub struct ExGlob(globset::Glob);

/// `globset::GlobSetBuilder`: the globs gathered for a set.
#[verifier::external_type_specification]
#[verifier::external_body]
pub struct ExGlobSetBuilder(globset::GlobSetBuilder);

/// `globset::GlobSet`: globs compiled into one matcher.
#[verifier::external_type_specification]
#[verifier::external_body]
pub struct ExGlobSet(globset::GlobSet);

/// `globset::Error`: why a pattern or a set was refused.
#[verifier::external_type_specification]
#[verifier::external_body]
pub struct ExGlobError(globset::Error);

/// Whether `Glob::new` accepts `pattern` as a well-formed glob.
pub uninterp spec fn glob_parses(pattern: Seq<char>) -> bool;

/// The pattern text that a glob was parsed from, which `Glob::glob` hands back.
pub uninterp spec fn glob_text(glob: Glob) -> Seq<char>;

/// The pattern texts of the globs added to a builder, in the order of the calls.
pub uninterp spec fn builder_patterns(builder: GlobSetBuilder) -> Seq<Seq<char>>;

/// Whether `GlobSetBuilder::build` manages to compile globs with these pattern
/// texts into one set.
pub uninterp spec fn set_builds(patterns: Seq<Seq<char>>) -> bool;

/// The pattern texts of the globs that a set was built from, in their order.
pub uninterp spec fn set_patterns(set: GlobSet) -> Seq<Seq<char>>;

/// Whether the glob parsed from `pattern` matches `target`: the test that
/// `GlobSet::is_match` makes for each glob of the set.
pub uninterp spec fn glob_matches(pattern: Seq<char>, target: Seq<char>) -> bool;

/// `Glob::new` parses a pattern with the default options. It returns the glob
/// exactly when the pattern is well formed, and the glob keeps the text it was
/// parsed from.
pub assume_specification[ Glob::new ](glob: &str) -> (parsed: Result<Glob, globset::Error>)
    ensures
        parsed is Ok <==> glob_parses(glob@),
        parsed matches Ok(g) ==> glob_text(g) == glob@,
;

/// `GlobSetBuilder::new` starts a builder that holds no glob.
pub assume_specification[ GlobSetBuilder::new ]() -> (builder: GlobSetBuilder)
    ensures
        builder_patterns(builder) == Seq::<Seq<char>>::empty(),
;

/// `GlobSetBuilder::add` appends one glob to the builder.
#[verifier::external_body]
pub(crate) fn builder_add(builder: &mut GlobSetBuilder, glob: Glob)
    ensures
        builder_patterns(*final(builder)) == builder_patterns(*old(builder)).push(glob_text(glob)),
{
    builder.add(glob);
}

/// `GlobSetBuilder::build` compiles the globs added so far. Whether that
/// succeeds depends on the globs alone; a set that was built holds the builder's
/// globs in their order.
pub assume_specification[ GlobSetBuilder::build ](builder: &GlobSetBuilder) -> (built: Result<
    GlobSet,
    globset::Error,
>)
    ensures
        built is Ok <==> set_builds(builder_patterns(*builder)),
        built matches Ok(set) ==> set_patterns(set) == builder_patterns(*builder),
;

/// `GlobSet::is_match` on a text: true exactly when at least one glob of the
/// set matches it.
#[verifier::external_body]
pub(crate) fn set_is_match(set: &GlobSet, target: &str) -> (hit: bool)
    ensures
        hit == (exists|i: int|
            0 <= i < set_patterns(*set).len() && glob_matches(#[trigger] set_patterns(*set)[i], target@)),
{
    set.is_match(target)
}

/// The message of a `globset::Error`, as its `Display` impl writes it. Nothing
/// is claimed of the text.
#[verifier::external_body]
pub(crate) fn error_message(error: &globset::Error) -> (message: String) {
    error.to_string()
}

} // verus!
