use vstd::prelude::*;

use globset::{Glob, GlobSet, GlobSetBuilder};

use crate::text::texts;

verus! {

#[verifier::external_type_specification]
#[verifier::external_body]
pub struct ExGlob(Glob);

#[verifier::external_type_specification]
#[verifier::external_body]
pub struct ExGlobSetBuilder(GlobSetBuilder);

#[verifier::external_type_specification]
#[verifier::external_body]
pub struct ExGlobSet(GlobSet);

/// Whether `pattern` parses as a glob (globset syntax, default options).
pub uninterp spec fn glob_valid(pattern: Seq<char>) -> bool;

/// The pattern that a parsed glob was built from (what `Glob::glob` returns).
pub uninterp spec fn glob_pattern(g: Glob) -> Seq<char>;

/// Whether the glob `pattern` (globset syntax, default options) matches `path`.
pub uninterp spec fn glob_matches(pattern: Seq<char>, path: Seq<char>) -> bool;

/// The patterns added to a glob set builder, in order.
pub uninterp spec fn builder_patterns(b: GlobSetBuilder) -> Seq<Seq<char>>;

/// Whether the combined matcher for the patterns (each a parsed glob) can be built.
pub uninterp spec fn globset_builds(patterns: Seq<Seq<char>>) -> bool;

/// The patterns that a glob set was built from, in order.
pub uninterp spec fn globset_patterns(set: GlobSet) -> Seq<Seq<char>>;

/// Some pattern of the list matches `path`.
pub open spec fn any_glob_matches(patterns: Seq<Seq<char>>, path: Seq<char>) -> bool {
    exists|i: int| 0 <= i < patterns.len() && glob_matches(#[trigger] patterns[i], path)
}

/// Every pattern of the list is a valid glob.
pub open spec fn all_globs_valid(ps: Seq<Seq<char>>) -> bool {
    forall|i: int| 0 <= i < ps.len() ==> glob_valid(#[trigger] ps[i])
}

/// The patterns are all valid globs and their combined matcher can be built.
pub open spec fn patterns_build(ps: Seq<Seq<char>>) -> bool {
    all_globs_valid(ps) && globset_builds(ps)
}

/// `globset::Glob::new`: parses one pattern with default options. The contract claims that
/// it succeeds exactly when the pattern is a valid glob and that the glob keeps its
/// pattern (as `Glob::glob` shows); the error message is globset's and is left unsaid.
#[verifier::external_body]
pub(crate) fn glob_new(pattern: &str) -> (r: Result<Glob, String>)
    ensures
        r is Ok <==> glob_valid(pattern@),
        r matches Ok(g) ==> glob_pattern(g) == pattern@,
{
    Glob::new(pattern).map_err(|e| e.to_string())
}

/// `globset::GlobSetBuilder::new`: a builder with no pattern, which builds (its source
/// makes an empty set from no pattern).
#[verifier::external_body]
pub(crate) fn builder_new() -> (r: GlobSetBuilder)
    ensures
        builder_patterns(r) == Seq::<Seq<char>>::empty(),
        globset_builds(builder_patterns(r)),
{
    GlobSetBuilder::new()
}

/// `globset::GlobSetBuilder::add`: the glob's pattern goes after those added before (the
/// source pushes the glob onto its list).
#[verifier::external_body]
pub(crate) fn builder_add(b: &mut GlobSetBuilder, g: Glob)
    ensures
        builder_patterns(*final(b)) == builder_patterns(*old(b)).push(glob_pattern(g)),
{
    b.add(g);
}

/// `globset::GlobSetBuilder::build`: the set of the patterns added, when their combined
/// matcher can be built (always, with no pattern: the source returns an empty set); the
/// error message is globset's and is left unsaid.
#[verifier::external_body]
pub(crate) fn builder_build(b: &GlobSetBuilder) -> (r: Result<GlobSet, String>)
    ensures
        r is Ok <==> globset_builds(builder_patterns(*b)),
        builder_patterns(*b).len() == 0 ==> r is Ok,
        r matches Ok(s) ==> globset_patterns(s) == builder_patterns(*b),
{
    b.build().map_err(|e| e.to_string())
}

/// `globset::GlobSet::is_match`: whether any glob of the set matches the path, as its
/// documentation says.
#[verifier::external_body]
pub(crate) fn globset_is_match(set: &GlobSet, path: &str) -> (r: bool)
    ensures
        r == (exists|i: int| 0 <= i < globset_patterns(*set).len()
            && glob_matches(#[trigger] globset_patterns(*set)[i], path@)),
{
    set.is_match(path)
}

/// The single glob `pattern` parses, its matcher can be built, and it matches `path`.
pub open spec fn glob_applies(pattern: Seq<char>, path: Seq<char>) -> bool {
    glob_valid(pattern) && globset_builds(seq![pattern]) && glob_matches(pattern, path)
}

/// Whether the single glob `pattern` matches `path`; a pattern that does not parse, or
/// whose matcher cannot be built, matches nothing.
pub fn glob_is_match(pattern: &str, path: &str) -> (r: bool)
    ensures
        r == glob_applies(pattern@, path@),
{
    match glob_new(pattern) {
        Ok(g) => {
            let mut b = builder_new();
            builder_add(&mut b, g);
            assert(builder_patterns(b) =~= seq![pattern@]);
            match builder_build(&b) {
                Ok(set) => {
                    let r = globset_is_match(&set, path);
                    proof {
                        if r {
                            let i = choose|i: int| 0 <= i < globset_patterns(set).len() && glob_matches(
                                #[trigger] globset_patterns(set)[i],
                                path@,
                            );
                            assert(i == 0);
                        } else {
                            assert(globset_patterns(set)[0] == pattern@);
                        }
                    }
                    r
                },
                Err(_) => false,
            }
        },
        Err(_) => false,
    }
}

/// Builds the glob set of the patterns: the message of the error names the first pattern
/// that is not a valid glob.
pub fn build_globset(patterns: &Vec<String>) -> (r: Result<GlobSet, String>)
    ensures
        r is Ok <==> patterns_build(texts(patterns@)),
        patterns@.len() == 0 ==> r is Ok,
        patterns_build(Seq::<Seq<char>>::empty()),
        r matches Ok(s) ==> globset_patterns(s) == texts(patterns@),
{
    let mut builder = builder_new();
    assert(patterns_build(Seq::<Seq<char>>::empty()));
    let mut i: usize = 0;
    while i < patterns.len()
        invariant
            i <= patterns.len(),
            patterns_build(Seq::<Seq<char>>::empty()),
            builder_patterns(builder) == texts(patterns@).subrange(0, i as int),
            forall|k: int| 0 <= k < i ==> glob_valid(#[trigger] texts(patterns@)[k]),
        decreases patterns.len() - i,
    {
        match glob_new(patterns[i].as_str()) {
            Ok(g) => {
                let ghost before = builder_patterns(builder);
                builder_add(&mut builder, g);
                assert(texts(patterns@).subrange(0, i + 1) =~= before.push(patterns@[i as int]@));
            },
            Err(m) => {
                assert(!glob_valid(texts(patterns@)[i as int]));
                return Err(m);
            },
        }
        i = i + 1;
    }
    assert(texts(patterns@).subrange(0, i as int) =~= texts(patterns@));
    builder_build(&builder)
}

} // verus!
