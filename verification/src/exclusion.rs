//! Which changed files are hidden from the animation.
//!
//! A path is excluded when a user-supplied glob matches it, when its file name
//! is a well-known dependency lock file, or when it looks like a minified,
//! bundled, source-mapped or snapshot artifact. The built-in rules are fixed;
//! the user globs live in an `ExclusionPolicy` that can be given patterns at
//! most once. Glob parsing and matching are `globset`'s.

use crate::text::chars_contain;
use crate::text::chars_end_with;
use crate::text::chars_equal;
use crate::text::chars_slice;
use crate::text::contains;
use crate::text::ends_with;
use crate::text::file_name;
use crate::text::find_file_name_start;
use crate::text::str_chars;
use crate::diff::texts;
use vstd::prelude::*;

verus! {

#[verifier::external_type_specification]
#[verifier::external_body]
pub struct ExGlob(globset::Glob);

#[verifier::external_type_specification]
#[verifier::external_body]
pub struct ExGlobSetBuilder(globset::GlobSetBuilder);

#[verifier::external_type_specification]
#[verifier::external_body]
pub struct ExGlobSet(globset::GlobSet);

#[verifier::external_type_specification]
#[verifier::external_body]
pub struct ExGlobError(globset::Error);

/// Whether `globset` accepts `pattern` as a glob with default options.
pub uninterp spec fn glob_is_valid(pattern: Seq<char>) -> bool;

/// The pattern text a glob was parsed from.
pub uninterp spec fn glob_pattern(glob: globset::Glob) -> Seq<char>;

/// The pattern texts of the globs added to a builder, in order.
pub uninterp spec fn builder_patterns(builder: globset::GlobSetBuilder) -> Seq<Seq<char>>;

/// The pattern texts of the globs a set was built from, in order.
pub uninterp spec fn glob_set_patterns(set: globset::GlobSet) -> Seq<Seq<char>>;

/// Whether `globset` can compile the globs with these pattern texts into one
/// set.
pub uninterp spec fn glob_set_builds(patterns: Seq<Seq<char>>) -> bool;

/// Whether a set built from the globs with these pattern texts matches `path`,
/// as `globset` decides it on the platform the library is built for.
pub uninterp spec fn glob_set_matches(patterns: Seq<Seq<char>>, path: Seq<char>) -> bool;

/// Calls `globset::Glob::new`. Trusted: whether the pattern parses depends on
/// its text alone, and a parsed glob remembers that text.
#[verifier::external_body]
fn parse_glob(pattern: &str) -> (res: Result<globset::Glob, globset::Error>)
    ensures
        res is Ok <==> glob_is_valid(pattern@),
        res is Ok ==> glob_pattern(res->Ok_0) == pattern@,
{
    globset::Glob::new(pattern)
}

/// Calls `globset::GlobSetBuilder::new`. Trusted: a new builder holds no glob.
#[verifier::external_body]
fn new_builder() -> (res: globset::GlobSetBuilder)
    ensures
        builder_patterns(res) == Seq::<Seq<char>>::empty(),
{
    globset::GlobSetBuilder::new()
}

/// Calls `globset::GlobSetBuilder::add`. Trusted: the glob is appended to
/// those the builder holds.
#[verifier::external_body]
fn builder_add(builder: &mut globset::GlobSetBuilder, glob: globset::Glob)
    ensures
        builder_patterns(*final(builder)) == builder_patterns(*old(builder)).push(
            glob_pattern(glob),
        ),
{
    builder.add(glob);
}

/// Calls `globset::GlobSetBuilder::build`. Trusted: whether the set compiles
/// depends on the patterns alone, and the set is built from exactly the globs
/// added to the builder.
#[verifier::external_body]
fn builder_build(builder: &globset::GlobSetBuilder) -> (res: Result<
    globset::GlobSet,
    globset::Error,
>)
    ensures
        res is Ok <==> glob_set_builds(builder_patterns(*builder)),
        res is Ok ==> glob_set_patterns(res->Ok_0) == builder_patterns(*builder),
{
    builder.build()
}

/// Calls `globset::GlobSet::is_match`. Trusted: the answer depends on the
/// set's patterns and the path alone.
#[verifier::external_body]
fn glob_set_is_match(set: &globset::GlobSet, path: &str) -> (res: bool)
    ensures
        res == glob_set_matches(glob_set_patterns(*set), path@),
{
    set.is_match(path)
}

/// Formats a `globset::Error` with its `Display` impl. Nothing is claimed of
/// the text.
#[verifier::external_body]
fn describe_glob_error(error: &globset::Error) -> String {
    format!("{}", error)
}

/// File names of dependency lock files, one or more per package ecosystem.
pub open spec fn lock_file_names() -> Seq<Seq<char>> {
    seq![
        "yarn.lock"@,
        "package-lock.json"@,
        "pnpm-lock.yaml"@,
        "bun.lock"@,
        "bun.lockb"@,
        "Cargo.lock"@,
        "Gemfile.lock"@,
        "poetry.lock"@,
        "Pipfile.lock"@,
        "composer.lock"@,
        "go.sum"@,
        "Package.resolved"@,
        "pubspec.lock"@,
        "packages.lock.json"@,
        "project.assets.json"@,
        "mix.lock"@,
        "gradle.lockfile"@,
        "buildscript-gradle.lockfile"@,
        "build.sbt.lock"@,
        "MODULE.bazel.lock"@,
    ]
}

/// Marks of minified, bundled, source-mapped and snapshot artifacts.
pub open spec fn generated_marks() -> Seq<Seq<char>> {
    seq![
        ".min.js"@,
        ".min.css"@,
        ".bundle.js"@,
        ".bundle.css"@,
        ".js.map"@,
        ".css.map"@,
        ".d.ts.map"@,
        ".snap"@,
        "__snapshots__"@,
    ]
}

/// The file name of `path` is exactly a lock file name.
pub open spec fn is_lock_file(path: Seq<char>) -> bool {
    lock_file_names().contains(file_name(path))
}

/// `mark` ends the file name of `path` or occurs anywhere in `path`.
pub open spec fn has_mark(path: Seq<char>, mark: Seq<char>) -> bool {
    ends_with(file_name(path), mark) || contains(path, mark)
}

/// Some generated-artifact mark applies to `path`.
pub open spec fn is_generated(path: Seq<char>) -> bool {
    exists|i: int| 0 <= i < generated_marks().len() && has_mark(path, #[trigger] generated_marks()[i])
}

/// The built-in rules: lock files by exact file name, generated artifacts by
/// mark.
pub open spec fn builtin_excluded(path: Seq<char>) -> bool {
    is_lock_file(path) || is_generated(path)
}

/// The full policy: user globs first, then the built-in rules. `patterns` is
/// `None` while no user globs are configured.
pub open spec fn excluded(patterns: Option<Seq<Seq<char>>>, path: Seq<char>) -> bool {
    (patterns is Some && glob_set_matches(patterns->Some_0, path)) || builtin_excluded(path)
}

fn lock_file_list() -> (res: Vec<&'static str>)
    ensures
        res@.len() == lock_file_names().len(),
        forall|i: int| 0 <= i < res@.len() ==> (#[trigger] res@[i])@ == lock_file_names()[i],
{
    vec![
        "yarn.lock",
        "package-lock.json",
        "pnpm-lock.yaml",
        "bun.lock",
        "bun.lockb",
        "Cargo.lock",
        "Gemfile.lock",
        "poetry.lock",
        "Pipfile.lock",
        "composer.lock",
        "go.sum",
        "Package.resolved",
        "pubspec.lock",
        "packages.lock.json",
        "project.assets.json",
        "mix.lock",
        "gradle.lockfile",
        "buildscript-gradle.lockfile",
        "build.sbt.lock",
        "MODULE.bazel.lock",
    ]
}

fn generated_mark_list() -> (res: Vec<&'static str>)
    ensures
        res@.len() == generated_marks().len(),
        forall|i: int| 0 <= i < res@.len() ==> (#[trigger] res@[i])@ == generated_marks()[i],
{
    vec![
        ".min.js",
        ".min.css",
        ".bundle.js",
        ".bundle.css",
        ".js.map",
        ".css.map",
        ".d.ts.map",
        ".snap",
        "__snapshots__",
    ]
}

/// Applies the built-in rules to a path given as characters.
fn builtin_excluded_chars(path: &Vec<char>) -> (res: bool)
    ensures
        res == builtin_excluded(path@),
{
    let start = find_file_name_start(path);
    let name = chars_slice(path, start, path.len());
    let locks = lock_file_list();
    let mut i: usize = 0;
    while i < locks.len()
        invariant
            i <= locks.len(),
            locks@.len() == lock_file_names().len(),
            forall|k: int| 0 <= k < locks@.len() ==> (#[trigger] locks@[k])@ == lock_file_names()[k],
            forall|k: int| 0 <= k < i ==> lock_file_names()[k] != name@,
            name@ == file_name(path@),
        decreases locks.len() - i,
    {
        let candidate = str_chars(locks[i]);
        if chars_equal(&name, &candidate) {
            assert(lock_file_names()[i as int] == file_name(path@));
            assert(is_lock_file(path@));
            return true;
        }
        i += 1;
    }
    assert(!is_lock_file(path@));
    let marks = generated_mark_list();
    let mut j: usize = 0;
    while j < marks.len()
        invariant
            j <= marks.len(),
            name@ == file_name(path@),
            marks@.len() == generated_marks().len(),
            forall|k: int| 0 <= k < marks@.len() ==> (#[trigger] marks@[k])@ == generated_marks()[k],
            forall|k: int| 0 <= k < j ==> !has_mark(path@, generated_marks()[k]),
        decreases marks.len() - j,
    {
        let mark = str_chars(marks[j]);
        if chars_end_with(&name, &mark) || chars_contain(path, &mark) {
            assert(has_mark(path@, generated_marks()[j as int]));
            return true;
        }
        j += 1;
    }
    false
}

/// Whether the built-in rules exclude `path` from the animation: its file
/// name is a dependency lock file, or it carries the mark of a generated
/// artifact.
pub fn should_exclude_file(path: &str) -> (res: bool)
    ensures
        res == builtin_excluded(path@),
{
    let chars = str_chars(path);
    builtin_excluded_chars(&chars)
}

/// Why user patterns could not be installed.
#[derive(Debug, Clone, PartialEq, Eq)]
pub enum PatternError {
    /// A pattern is not a valid glob.
    InvalidPattern { pattern: String, reason: String },
    /// The patterns are valid one by one but do not compile into a set.
    BuildFailed { reason: String },
    /// Patterns were installed before.
    AlreadyInitialized,
}

impl PatternError {
    /// A human-readable message for the error.
    pub fn message(&self) -> (res: String)
        ensures
            self is AlreadyInitialized ==> res@ == "User patterns already initialized"@,
            self is BuildFailed ==> res@ == "Failed to build glob set: "@ + self->BuildFailed_reason@,
            self is InvalidPattern ==> res@ == "Invalid glob pattern: "@
                + self->InvalidPattern_pattern@ + ": "@ + self->InvalidPattern_reason@,
    {
        match self {
            PatternError::InvalidPattern { pattern, reason } => {
                let mut out = "Invalid glob pattern: ".to_owned();
                out.append(pattern.as_str());
                out.append(": ");
                out.append(reason.as_str());
                out
            },
            PatternError::BuildFailed { reason } => {
                let mut out = "Failed to build glob set: ".to_owned();
                out.append(reason.as_str());
                out
            },
            PatternError::AlreadyInitialized => "User patterns already initialized".to_owned(),
        }
    }
}

/// The exclusion policy with its user globs. Patterns can be installed at most
/// once; until then only the built-in rules apply.
pub struct ExclusionPolicy {
    user_patterns: Option<globset::GlobSet>,
}

impl ExclusionPolicy {
    /// The pattern texts of the installed user globs, or `None` while none are
    /// installed.
    pub closed spec fn patterns(&self) -> Option<Seq<Seq<char>>> {
        match self.user_patterns {
            Some(set) => Some(glob_set_patterns(set)),
            None => None,
        }
    }

    /// A policy without user globs.
    pub fn new() -> (res: ExclusionPolicy)
        ensures
            res.patterns() is None,
    {
        ExclusionPolicy { user_patterns: None }
    }

    /// Whether user globs are installed.
    pub fn is_initialized(&self) -> (res: bool)
        ensures
            res == (self.patterns() is Some),
    {
        self.user_patterns.is_some()
    }

    /// Whether `path` is excluded: by a user glob, else by the built-in rules.
    pub fn should_exclude(&self, path: &str) -> (res: bool)
        ensures
            res == excluded(self.patterns(), path@),
    {
        match &self.user_patterns {
            Some(set) => {
                if glob_set_is_match(set, path) {
                    return true;
                }
            },
            None => {},
        }
        should_exclude_file(path)
    }
}

/// Index of the first pattern that is not a valid glob, or the number of
/// patterns when all are valid.
pub open spec fn first_invalid(patterns: Seq<Seq<char>>) -> nat
    decreases patterns.len(),
{
    if patterns.len() == 0 || !glob_is_valid(patterns[0]) {
        0
    } else {
        1 + first_invalid(patterns.drop_first())
    }
}

/// What installing `patterns` into a policy with user globs `before` does.
pub enum InitOutcome {
    /// Nothing to install.
    Unchanged,
    /// The pattern at this index is not a valid glob.
    Invalid(nat),
    /// The patterns do not compile into a set.
    Unbuildable,
    /// The policy holds user globs already.
    Conflict,
    /// The patterns are now the policy's user globs.
    Installed,
}

/// The outcome of installing `patterns`, decided in this order: an empty list
/// changes nothing; the first invalid glob is reported; a set that does not
/// compile is reported; a policy that holds user globs refuses; else the
/// patterns are installed.
pub open spec fn init_outcome(before: Option<Seq<Seq<char>>>, patterns: Seq<Seq<char>>) -> InitOutcome {
    if patterns.len() == 0 {
        InitOutcome::Unchanged
    } else if first_invalid(patterns) < patterns.len() {
        InitOutcome::Invalid(first_invalid(patterns))
    } else if !glob_set_builds(patterns) {
        InitOutcome::Unbuildable
    } else if before is Some {
        InitOutcome::Conflict
    } else {
        InitOutcome::Installed
    }
}

proof fn lemma_first_invalid(patterns: Seq<Seq<char>>, n: int)
    requires
        0 <= n <= patterns.len(),
        forall|k: int| 0 <= k < n ==> glob_is_valid(patterns[k]),
        n < patterns.len() ==> !glob_is_valid(patterns[n]),
    ensures
        first_invalid(patterns) == n,
    decreases patterns.len(),
{
    if n > 0 {
        let rest = patterns.drop_first();
        assert forall|k: int| 0 <= k < n - 1 implies glob_is_valid(rest[k]) by {
            assert(rest[k] == patterns[k + 1]);
        }
        assert(glob_is_valid(patterns[0]));
        lemma_first_invalid(rest, n - 1);
    }
}

/// Installs user-supplied glob patterns into `policy`. An empty list is
/// accepted and changes nothing. Otherwise every pattern must be a valid glob
/// and the policy must not hold user globs yet.
pub fn init_ignore_patterns(policy: &mut ExclusionPolicy, patterns: &[String]) -> (res: Result<
    (),
    PatternError,
>)
    ensures
        match init_outcome(old(policy).patterns(), texts(patterns@)) {
            InitOutcome::Unchanged => res is Ok,
            InitOutcome::Invalid(i) => res is Err && res->Err_0 is InvalidPattern
                && res->Err_0->InvalidPattern_pattern@ == patterns[i as int]@,
            InitOutcome::Unbuildable => res is Err && res->Err_0 is BuildFailed,
            InitOutcome::Conflict => res is Err && res->Err_0 is AlreadyInitialized,
            InitOutcome::Installed => res is Ok,
        },
        final(policy).patterns() == if init_outcome(old(policy).patterns(), texts(patterns@))
            is Installed {
            Some(texts(patterns@))
        } else {
            old(policy).patterns()
        },
{
    if patterns.len() == 0 {
        return Ok(());
    }
    let ghost all = texts(patterns@);
    let mut builder = new_builder();
    let mut i: usize = 0;
    while i < patterns.len()
        invariant
            i <= patterns.len(),
            all == texts(patterns@),
            builder_patterns(builder) == all.take(i as int),
            forall|k: int| 0 <= k < i ==> glob_is_valid(all[k]),
        decreases patterns.len() - i,
    {
        match parse_glob(patterns[i].as_str()) {
            Ok(glob) => {
                builder_add(&mut builder, glob);
                assert(all.take(i as int).push(all[i as int]) =~= all.take(i + 1));
            },
            Err(e) => {
                proof {
                    lemma_first_invalid(all, i as int);
                }
                return Err(
                    PatternError::InvalidPattern {
                        pattern: patterns[i].clone(),
                        reason: describe_glob_error(&e),
                    },
                );
            },
        }
        i += 1;
    }
    proof {
        lemma_first_invalid(all, patterns.len() as int);
        assert(all.take(i as int) =~= all);
    }
    let set = match builder_build(&builder) {
        Ok(set) => set,
        Err(e) => {
            return Err(PatternError::BuildFailed { reason: describe_glob_error(&e) });
        },
    };
    if policy.user_patterns.is_some() {
        return Err(PatternError::AlreadyInitialized);
    }
    policy.user_patterns = Some(set);
    Ok(())
}

} // verus!
