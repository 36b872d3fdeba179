use vstd::prelude::*;

verus! {

// ---------------------------------------------------------------------------
// Glob machinery, behind trusted wrappers
// ---------------------------------------------------------------------------

#[verifier::external_type_specification]
#[verifier::external_body]
pub struct ExGlobSet(globset::GlobSet);

#[verifier::external_type_specification]
#[verifier::external_body]
pub struct ExGlobSetBuilder(globset::GlobSetBuilder);

/// Name for whether one glob pattern matches a path; a function of the
/// pattern and the path alone.
pub uninterp spec fn glob_matches(pattern: Seq<char>, path: Seq<char>) -> bool;

/// Name for whether a pattern is a well-formed glob that compiles.
pub uninterp spec fn glob_ok(pattern: Seq<char>) -> bool;

/// Name for whether a list of well-formed globs compiles into one matcher:
/// the combined automaton carries a fixed size limit, so a large enough
/// pattern list can be refused even though each pattern alone is fine.
/// A function of the pattern texts alone.
pub uninterp spec fn glob_set_ok(pats: Seq<Seq<char>>) -> bool;

/// Name for the patterns a builder has collected so far.
pub uninterp spec fn builder_pats(b: globset::GlobSetBuilder) -> Seq<Seq<char>>;

/// Name for the patterns a compiled set matches with.
pub uninterp spec fn set_pats(s: globset::GlobSet) -> Seq<Seq<char>>;

/// The views of a list of pattern strings.
pub open spec fn pattern_views(ps: Seq<String>) -> Seq<Seq<char>> {
    Seq::new(ps.len(), |i: int| ps[i]@)
}

/// Why a pattern list was rejected: one pattern is not a glob, or the
/// patterns are fine but the compiled matcher was refused.
#[derive(Debug)]
pub enum ExcludeError {
    Malformed { pattern: String },
    SetRefused,
}

/// Relies on `globset::GlobSetBuilder::new`: a fresh builder holds no
/// patterns.
#[verifier::external_body]
fn builder_new() -> (b: globset::GlobSetBuilder)
    ensures
        builder_pats(b) == Seq::<Seq<char>>::empty(),
{
    globset::GlobSetBuilder::new()
}

/// Relies on `globset::Glob::new` and `GlobSetBuilder::add`: a well-formed
/// pattern compiles and joins the builder's collection; a malformed one is
/// refused, named in the error, and the builder stands unchanged.
#[verifier::external_body]
fn builder_add(b: &mut globset::GlobSetBuilder, pat: &String) -> (r: Result<(), ExcludeError>)
    ensures
        r is Ok <==> glob_ok(pat@),
        r is Ok ==> builder_pats(*final(b)) == builder_pats(*old(b)).push(pat@),
        r is Err ==> builder_pats(*final(b)) == builder_pats(*old(b)),
        r matches Err(e) ==> (e matches ExcludeError::Malformed { pattern } && pattern@ == pat@),
{
    match globset::Glob::new(pat) {
        Ok(g) => {
            b.add(g);
            Ok(())
        },
        Err(_) => Err(ExcludeError::Malformed { pattern: pat.clone() }),
    }
}

/// Relies on `globset::GlobSetBuilder::build`: on success the compiled set
/// matches with exactly the collected patterns. Whether it succeeds is a
/// function of those patterns alone (`glob_set_ok`): the regexes it
/// compiles them into carry a fixed size limit, and a set it refuses comes
/// back as `SetRefused`. An empty collection always builds.
#[verifier::external_body]
fn builder_build(b: &globset::GlobSetBuilder) -> (r: Result<globset::GlobSet, ExcludeError>)
    ensures
        r is Ok <==> glob_set_ok(builder_pats(*b)),
        builder_pats(*b).len() == 0 ==> r is Ok,
        r matches Ok(s) ==> set_pats(s) == builder_pats(*b),
        r matches Err(e) ==> e is SetRefused,
{
    match b.build() {
        Ok(s) => Ok(s),
        Err(_) => Err(ExcludeError::SetRefused),
    }
}

/// Relies on `globset::GlobSet::is_match`: true exactly when some glob of
/// the set matches the path.
#[verifier::external_body]
fn set_is_match(s: &globset::GlobSet, path: &String) -> (r: bool)
    ensures
        r == excluded_by(set_pats(*s), path@),
        r == (exists|i: int| 0 <= i < set_pats(*s).len() && glob_matches(set_pats(*s)[i], path@)),
{
    s.is_match(path.as_str())
}

// ---------------------------------------------------------------------------
// The exclusion matcher
// ---------------------------------------------------------------------------

/// Whether a path is excluded by a list of patterns: some pattern
/// matches it. An empty list excludes nothing.
pub open spec fn excluded_by(pats: Seq<Seq<char>>, path: Seq<char>) -> bool {
    exists|i: int| 0 <= i < pats.len() && glob_matches(pats[i], path)
}

/// A set of glob patterns compiled once per run; paths matching any
/// pattern are skipped before any filesystem work.
pub struct ExclusionSet {
    set: globset::GlobSet,
}

impl View for ExclusionSet {
    type V = Seq<Seq<char>>;

    closed spec fn view(&self) -> Seq<Seq<char>> {
        set_pats(self.set)
    }
}

impl ExclusionSet {
    /// Compiles the given patterns. Succeeds exactly when every pattern is
    /// a well-formed glob and the combined matcher is within the engine's
    /// size limit — in particular an empty list always compiles. On
    /// failure the error names a malformed pattern, or says that the set
    /// as a whole was refused.
    pub fn compile(patterns: &Vec<String>) -> (r: Result<ExclusionSet, ExcludeError>)
        ensures
            r is Ok <==> ((forall|i: int|
                0 <= i < patterns@.len() ==> glob_ok(#[trigger] patterns@[i]@)) && glob_set_ok(
                pattern_views(patterns@),
            )),
            patterns@.len() == 0 ==> r is Ok,
            r matches Ok(s) ==> s@.len() == patterns@.len() && forall|i: int|
                0 <= i < patterns@.len() ==> #[trigger] s@[i] == patterns@[i]@,
            r matches Err(ExcludeError::Malformed { pattern }) ==> !glob_ok(pattern@) && (exists|
                i: int,
            |
                0 <= i < patterns@.len() && #[trigger] patterns@[i]@ == pattern@),
            r matches Err(e) ==> (e is SetRefused ==> (forall|i: int|
                0 <= i < patterns@.len() ==> glob_ok(#[trigger] patterns@[i]@)) && !glob_set_ok(
                pattern_views(patterns@),
            )),
    {
        let mut b = builder_new();
        let mut i: usize = 0;
        while i < patterns.len()
            invariant
                i <= patterns.len(),
                builder_pats(b).len() == i,
                forall|j: int| 0 <= j < i ==> #[trigger] builder_pats(b)[j] == patterns@[j]@,
                forall|j: int| 0 <= j < i ==> glob_ok(#[trigger] patterns@[j]@),
            decreases patterns.len() - i,
        {
            match builder_add(&mut b, &patterns[i]) {
                Ok(()) => {},
                Err(e) => {
                    return Err(e);
                },
            }
            i = i + 1;
        }
        proof {
            assert(builder_pats(b) =~= pattern_views(patterns@));
        }
        match builder_build(&b) {
            Ok(set) => Ok(ExclusionSet { set }),
            Err(e) => Err(e),
        }
    }

    /// Whether `path` matches any configured pattern. With no patterns,
    /// nothing is excluded.
    pub fn is_excluded(&self, path: &String) -> (r: bool)
        ensures
            r == excluded_by(self@, path@),
            self@.len() == 0 ==> r == false,
    {
        set_is_match(&self.set, path)
    }
}

} // verus!
