use vstd::prelude::*;
use vstd::string::*;

verus! {

/// Whether `path_matchers::glob` accepts a pattern string: compilation
/// succeeds or fails on the pattern's syntax alone.
pub uninterp spec fn glob_ok(pattern: Seq<char>) -> bool;

/// What a compiled glob pattern matches: the result depends on the pattern
/// and the path alone.
pub uninterp spec fn glob_matches(pattern: Seq<char>, path: Seq<char>) -> bool;

/// Relies on `path_matchers::glob`: whether a glob pattern compiles depends
/// on its syntax alone.
#[verifier::external_body]
fn glob_compiles(pattern: &str) -> (r: bool)
    ensures
        r == glob_ok(pattern@),
{
    path_matchers::glob(pattern).is_ok()
}

/// Relies on `path_matchers::glob` and `path_matchers::PathMatcher::matches`:
/// compilation succeeds on the pattern's syntax alone, and whether the
/// compiled pattern matches a path depends on the pattern and the path alone.
#[verifier::external_body]
fn glob_match(pattern: &str, path: &str) -> (r: Option<bool>)
    ensures
        r is Some <==> glob_ok(pattern@),
        r is Some ==> r->0 == glob_matches(pattern@, path@),
{
    match path_matchers::glob(pattern) {
        Ok(m) => Some(path_matchers::PathMatcher::matches(&m, std::path::Path::new(path))),
        Err(_) => None,
    }
}

/// The configuration faults that make a run meaningless: a glob pattern that
/// does not compile, or a size string that does not parse.
#[derive(Clone, Copy, Debug, PartialEq, Eq, Structural)]
pub enum CullError {
    InvalidPattern,
    InvalidSize,
}

/// A glob pattern anchored to one base directory: a predicate over canonical
/// absolute paths. Only patterns that compile become matchers.
pub struct Matcher {
    pattern: String,
}

/// The user pattern concatenated onto the canonical base directory, so that
/// patterns are relative to the target directory.
pub open spec fn full_pattern(base: Seq<char>, pattern: Seq<char>) -> Seq<char> {
    base + "/"@ + pattern
}

impl Matcher {
    /// A matcher only ever holds a pattern that compiles.
    #[verifier::type_invariant]
    spec fn inv(self) -> bool {
        glob_ok(self.pattern@)
    }

    /// The anchored pattern this matcher was built from.
    pub closed spec fn pattern_view(self) -> Seq<char> {
        self.pattern@
    }

    /// Whether this matcher's pattern matches the given canonical path.
    pub fn matches(&self, path: &str) -> (r: bool)
        ensures
            r == glob_matches(self.pattern_view(), path@),
    {
        proof {
            use_type_invariant(self);
        }
        match glob_match(self.pattern.as_str(), path) {
            Some(b) => b,
            None => false,
        }
    }
}

/// Anchors a user-supplied pattern to the canonical base directory.
pub fn canonicalize_pattern(base_dir: &str, pattern: &str) -> (r: String)
    ensures
        r@ == full_pattern(base_dir@, pattern@),
{
    let mut res = base_dir.to_owned();
    res.append("/");
    res.append(pattern);
    res
}

/// Builds the matcher for an optional user pattern, anchored to the base
/// directory. No pattern yields no matcher; a pattern whose anchored form
/// does not compile is a fatal configuration fault.
pub fn get_path_matcher(base_dir: &str, pattern: &Option<String>) -> (r: Result<
    Option<Matcher>,
    CullError,
>)
    ensures
        pattern is None ==> (r matches Ok(m) && m is None),
        pattern matches Some(p) ==> {
            let fp = full_pattern(base_dir@, p@);
            &&& glob_ok(fp) ==> (r matches Ok(Some(mm)) && mm.pattern_view() == fp)
            &&& !glob_ok(fp) ==> r == Err::<Option<Matcher>, CullError>(CullError::InvalidPattern)
        },
{
    match pattern {
        Option::None => Ok(Option::None),
        Option::Some(p) => {
            let fp = canonicalize_pattern(base_dir, p.as_str());
            if glob_compiles(fp.as_str()) {
                Ok(Some(Matcher { pattern: fp }))
            } else {
                Err(CullError::InvalidPattern)
            }
        },
    }
}

} // verus!
