use vstd::prelude::*;

verus! {

/// A compiled set of glob patterns.
#[verifier::external_type_specification]
#[verifier::external_body]
pub struct ExGlobSet(globset::GlobSet);

/// The patterns collected for a set that is still to be compiled.
#[verifier::external_type_specification]
#[verifier::external_body]
pub struct ExGlobSetBuilder(globset::GlobSetBuilder);

/// What parsing a glob, or compiling a set, reports on failure.
#[verifier::external_type_specification]
#[verifier::external_body]
pub struct ExGlobError(globset::Error);

/// Whether `globset::Glob::new` accepts the pattern.
pub uninterp spec fn glob_syntax_ok(pattern: Seq<char>) -> bool;

/// Whether the glob parsed from `pattern` matches `target`.
pub uninterp spec fn glob_matches(pattern: Seq<char>, target: Seq<char>) -> bool;

/// Whether `globset::GlobSetBuilder::build` compiles the globs parsed from
/// the given texts into one set.
pub uninterp spec fn set_compiles(patterns: Seq<Seq<char>>) -> bool;

/// Whether a compiled set matches `target`.
pub uninterp spec fn set_matches(set: globset::GlobSet, target: Seq<char>) -> bool;

/// The texts of the globs that a compiled set was built from, in the order
/// in which they were added.
pub uninterp spec fn globset_patterns(set: globset::GlobSet) -> Seq<Seq<char>>;

/// The texts of the globs added to a builder so far, in order.
pub uninterp spec fn builder_patterns(builder: globset::GlobSetBuilder) -> Seq<Seq<char>>;

/// Text whose reading by the glob library is the same on every platform:
/// a backslash escapes on some and separates path components on others.
pub open spec fn portable(text: Seq<char>) -> bool {
    !text.contains('\\')
}

/// Whether every pattern of the sequence is portable.
pub open spec fn all_portable(patterns: Seq<Seq<char>>) -> bool {
    forall|i: int| 0 <= i < patterns.len() ==> portable(#[trigger] patterns[i])
}

/// Whether at least one pattern of the sequence matches the target.
pub open spec fn any_pattern_matches(patterns: Seq<Seq<char>>, target: Seq<char>) -> bool {
    exists|i: int| 0 <= i < patterns.len() && glob_matches(#[trigger] patterns[i], target)
}

/// `globset::Glob::new`, keeping only whether the pattern parsed. For text
/// without a backslash the outcome is the one that `glob_syntax_ok` names.
#[verifier::external_body]
pub(crate) fn check_glob(text: &str) -> (r: Result<(), globset::Error>)
    ensures
        portable(text@) ==> (r is Ok <==> glob_syntax_ok(text@)),
{
    globset::Glob::new(text).map(|_| ())
}

/// The `Display` text of a `globset::Error`. Nothing is claimed of it.
#[verifier::external_body]
pub(crate) fn error_message(error: &globset::Error) -> (message: String)
{
    error.to_string()
}

/// `globset::GlobSetBuilder::new`: a builder that holds no pattern.
#[verifier::external_body]
pub(crate) fn builder_new() -> (builder: globset::GlobSetBuilder)
    ensures
        builder_patterns(builder) == Seq::<Seq<char>>::empty(),
{
    globset::GlobSetBuilder::new()
}

/// `globset::Glob::new` followed by `globset::GlobSetBuilder::add`: the
/// pattern is appended where it parses, and the builder is left as it was
/// where it does not. For text without a backslash it parses exactly when
/// `glob_syntax_ok` holds.
#[verifier::external_body]
pub(crate) fn builder_add(builder: &mut globset::GlobSetBuilder, text: &str) -> (r: Result<
    (),
    globset::Error,
>)
    ensures
        r is Ok ==> builder_patterns(*final(builder)) == builder_patterns(*old(builder)).push(
            text@,
        ),
        r is Err ==> builder_patterns(*final(builder)) == builder_patterns(*old(builder)),
        portable(text@) ==> (r is Ok <==> glob_syntax_ok(text@)),
{
    match globset::Glob::new(text) {
        Ok(glob) => {
            builder.add(glob);
            Ok(())
        },
        Err(error) => Err(error),
    }
}

/// `globset::GlobSetBuilder::build`: where it succeeds, the set holds the
/// builder's patterns; with no pattern it always succeeds. Whether it
/// succeeds depends on the globs alone, and for patterns without a
/// backslash it is what `set_compiles` names.
#[verifier::external_body]
pub(crate) fn builder_build(builder: &globset::GlobSetBuilder) -> (r: Result<
    globset::GlobSet,
    globset::Error,
>)
    ensures
        r is Ok ==> globset_patterns(r->Ok_0) == builder_patterns(*builder),
        builder_patterns(*builder).len() == 0 ==> r is Ok,
        all_portable(builder_patterns(*builder)) ==> (r is Ok <==> set_compiles(
            builder_patterns(*builder),
        )),
{
    builder.build()
}

/// `globset::GlobSet::is_match`: true when any glob of the set matches the
/// target, and never for an empty set. Which globs match is named by
/// `glob_matches` where neither the target nor a pattern holds a backslash.
#[verifier::external_body]
pub(crate) fn set_is_match(set: &globset::GlobSet, target: &str) -> (r: bool)
    ensures
        r == set_matches(*set, target@),
        globset_patterns(*set).len() == 0 ==> !r,
        portable(target@) && all_portable(globset_patterns(*set)) ==> r == (exists|i: int|
            0 <= i < globset_patterns(*set).len() && glob_matches(
                #[trigger] globset_patterns(*set)[i],
                target@,
            )),
{
    set.is_match(target)
}

} // verus!
