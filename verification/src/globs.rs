use vstd::prelude::*;

verus! {

#[verifier::external_type_specification]
#[verifier::external_body]
pub struct ExGlob(globset::Glob);

#[verifier::external_type_specification]
#[verifier::external_body]
pub struct ExGlobSet(globset::GlobSet);

#[verifier::external_type_specification]
#[verifier::external_body]
pub struct ExGlobSetBuilder(globset::GlobSetBuilder);

#[verifier::external_type_specification]
#[verifier::external_body]
pub struct ExGlobError(globset::Error);

/// The pattern text a compiled glob was made from.
pub uninterp spec fn glob_pattern(g: globset::Glob) -> Seq<char>;

/// Whether the glob compiler accepts a pattern text.
pub uninterp spec fn glob_ok(pattern: Seq<char>) -> bool;

/// The pattern texts added to a glob-set builder, in order.
pub uninterp spec fn builder_patterns(b: globset::GlobSetBuilder) -> Seq<Seq<char>>;

/// The pattern texts a compiled glob set was built from, in order.
pub uninterp spec fn globset_patterns(s: globset::GlobSet) -> Seq<Seq<char>>;

/// Whether a set of patterns compiles into one matcher.
pub uninterp spec fn globset_compile_ok(patterns: Seq<Seq<char>>) -> bool;

/// Whether any pattern of the set matches the path text.
pub uninterp spec fn globset_match(patterns: Seq<Seq<char>>, path: Seq<char>) -> bool;

/// Relies on globset::Glob::new: compiles one pattern, succeeding exactly on
/// valid glob syntax; the compiled glob carries the given pattern.
#[verifier::external_body]
pub(crate) fn glob_new(pattern: &str) -> (r: Result<globset::Glob, globset::Error>)
    ensures
        r is Ok <==> glob_ok(pattern@),
        r matches Ok(g) ==> glob_pattern(g) == pattern@,
{
    globset::Glob::new(pattern)
}

/// Relies on globset::GlobSetBuilder::new: starts with no patterns.
#[verifier::external_body]
pub(crate) fn globset_builder_new() -> (r: globset::GlobSetBuilder)
    ensures
        builder_patterns(r) == Seq::<Seq<char>>::empty(),
{
    globset::GlobSetBuilder::new()
}

/// Relies on globset::GlobSetBuilder::add: appends one compiled glob.
#[verifier::external_body]
pub(crate) fn globset_builder_add(b: &mut globset::GlobSetBuilder, g: globset::Glob)
    ensures
        builder_patterns(*final(b)) == builder_patterns(*old(b)).push(glob_pattern(g)),
{
    b.add(g);
}

/// Relies on globset::GlobSetBuilder::build: compiles the added patterns into
/// one matcher over exactly those patterns.
#[verifier::external_body]
pub(crate) fn globset_builder_build(b: &globset::GlobSetBuilder) -> (r: Result<
    globset::GlobSet,
    globset::Error,
>)
    ensures
        r is Ok <==> globset_compile_ok(builder_patterns(*b)),
        r matches Ok(s) ==> globset_patterns(s) == builder_patterns(*b),
{
    b.build()
}

/// Relies on globset::GlobSet::is_match: true when any pattern of the set
/// matches the path; an empty set matches nothing.
#[verifier::external_body]
pub(crate) fn globset_is_match(s: &globset::GlobSet, path: &str) -> (r: bool)
    ensures
        r == globset_match(globset_patterns(*s), path@),
        globset_patterns(*s).len() == 0 ==> !r,
{
    s.is_match(path)
}

} // verus!
