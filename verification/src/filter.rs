//! Choosing entries by name, with a regular expression or with lists of
//! glob patterns to include and to exclude.

use vstd::prelude::*;
use vstd::utf8::{decode_utf8, encode_utf8_decode_utf8, valid_utf8};
use crate::file_system::error::{ErrorKind, Failure, ScanError};
use crate::file_system::utf8::decode_utf8_prefix;

verus! {

/// `regex::Regex`, a compiled regular expression; nothing is known of what
/// is in it.
#[verifier::external_type_specification]
#[verifier::external_body]
pub struct ExRegex(regex::Regex);

/// `regex::Error`, why a pattern did not compile.
#[verifier::external_type_specification]
#[verifier::external_body]
pub struct ExRegexError(regex::Error);

/// `globset::GlobSet`, a compiled set of globs; nothing is known of what is
/// in it.
#[verifier::external_type_specification]
#[verifier::external_body]
pub struct ExGlobSet(globset::GlobSet);

/// `globset::GlobSetBuilder`, the globs from which a set is built.
#[verifier::external_type_specification]
#[verifier::external_body]
pub struct ExGlobSetBuilder(globset::GlobSetBuilder);

/// `globset::Error`, why a glob did not parse or a set was not built.
#[verifier::external_type_specification]
#[verifier::external_body]
pub struct ExGlobError(globset::Error);

/// `regex::Regex::new` accepts the pattern.
pub uninterp spec fn regex_compiles(pattern: Seq<char>) -> bool;

/// The regular expression compiled from `pattern` has a match in `text`, as
/// `regex::Regex::is_match` tells.
pub uninterp spec fn regex_matches(pattern: Seq<char>, text: Seq<char>) -> bool;

/// `globset::Glob::new` accepts the pattern.
pub uninterp spec fn glob_parses(pattern: Seq<char>) -> bool;

/// `globset::GlobSetBuilder::build` makes a set of the globs that were parsed
/// from `patterns`.
pub uninterp spec fn globs_build(patterns: Seq<Seq<char>>) -> bool;

/// A glob of the set built from `patterns` matches the path `name`, as
/// `globset::GlobSet::is_match_candidate` tells.
pub uninterp spec fn globs_match(patterns: Seq<Seq<char>>, name: Seq<u8>) -> bool;

/// The texts of a list of strings.
pub open spec fn texts(list: Seq<String>) -> Seq<Seq<char>> {
    Seq::new(list.len(), |i: int| list[i]@)
}

/// Every pattern of the list parses as a glob, and the globs make a set.
pub open spec fn globs_compile(patterns: Seq<Seq<char>>) -> bool {
    &&& forall|i: int| 0 <= i < patterns.len() ==> glob_parses(#[trigger] patterns[i])
    &&& globs_build(patterns)
}

/// A compiled regular expression, with the pattern that it was compiled from.
/// Only `compile_regex` makes one, so the two always belong together.
pub struct NameRegex {
    source: String,
    compiled: regex::Regex,
}

impl View for NameRegex {
    type V = Seq<char>;

    closed spec fn view(&self) -> Seq<char> {
        self.source@
    }
}

/// A compiled set of globs, with the patterns that it was built from, in
/// order. Only `build_globs` makes one, so the two always belong together.
pub struct NameGlobs {
    sources: Vec<String>,
    compiled: globset::GlobSet,
}

impl View for NameGlobs {
    type V = Seq<Seq<char>>;

    closed spec fn view(&self) -> Seq<Seq<char>> {
        texts(self.sources@)
    }
}

/// A set of globs in the making, with the patterns added so far. Only
/// `start_globs` makes one and only `add_glob` adds to it.
pub struct GlobsBuilder {
    sources: Vec<String>,
    builder: globset::GlobSetBuilder,
}

impl View for GlobsBuilder {
    type V = Seq<Seq<char>>;

    closed spec fn view(&self) -> Seq<Seq<char>> {
        texts(self.sources@)
    }
}

/// Compiles `source` with `regex::Regex::new` and keeps the pattern beside
/// the result. It fails exactly on the patterns that `Regex::new` refuses.
#[verifier::external_body]
pub(crate) fn compile_regex(source: &str) -> (compiled: Result<NameRegex, regex::Error>)
    ensures
        match compiled {
            Ok(regex) => regex_compiles(source@) && regex@ == source@,
            Err(_) => !regex_compiles(source@),
        },
{
    regex::Regex::new(source).map(|compiled| NameRegex { source: source.to_owned(), compiled })
}

/// Asks `regex::Regex::is_match` whether the expression has a match anywhere
/// in `text`. The answer depends on the pattern and the text alone.
#[verifier::external_body]
fn regex_is_match(regex: &NameRegex, text: &str) -> (matched: bool)
    ensures
        matched == regex_matches(regex@, text@),
{
    regex.compiled.is_match(text)
}

/// An empty builder from `globset::GlobSetBuilder::new`.
#[verifier::external_body]
fn start_globs() -> (builder: GlobsBuilder)
    ensures
        builder@ == Seq::<Seq<char>>::empty(),
{
    GlobsBuilder { sources: Vec::new(), builder: globset::GlobSetBuilder::new() }
}

/// Parses `pattern` with `globset::Glob::new` and hands the glob to
/// `GlobSetBuilder::add`. A pattern that does not parse is not added, and
/// the parser's error comes back.
#[verifier::external_body]
fn add_glob(builder: &mut GlobsBuilder, pattern: &str) -> (added: Result<(), globset::Error>)
    ensures
        match added {
            Ok(_) => glob_parses(pattern@) && final(builder)@ == old(builder)@.push(pattern@),
            Err(_) => !glob_parses(pattern@) && final(builder)@ == old(builder)@,
        },
{
    let glob = globset::Glob::new(pattern)?;
    builder.builder.add(glob);
    builder.sources.push(pattern.to_owned());
    Ok(())
}

/// Builds the set with `globset::GlobSetBuilder::build` and keeps the
/// patterns beside it.
#[verifier::external_body]
fn build_globs(builder: GlobsBuilder) -> (built: Result<NameGlobs, globset::Error>)
    ensures
        match built {
            Ok(globs) => globs_build(builder@) && globs@ == builder@,
            Err(_) => !globs_build(builder@),
        },
{
    let sources = builder.sources;
    builder.builder.build().map(|compiled| NameGlobs { sources, compiled })
}

/// Asks `globset::GlobSet::is_match_candidate` whether a glob of the set
/// matches the path whose bytes are `name`.
#[verifier::external_body]
fn globs_is_match(globs: &NameGlobs, name: &[u8]) -> (matched: bool)
    ensures
        matched == globs_match(globs@, name@),
{
    globs.compiled.is_match_candidate(&globset::Candidate::from_bytes(name))
}

impl NameGlobs {
    /// Tells whether the set holds no glob.
    pub fn is_empty(&self) -> (empty: bool)
        ensures
            empty == (self@.len() == 0),
    {
        self.sources.len() == 0
    }
}

/// Builds a set of globs from `patterns`. It fails on the first pattern that
/// is no glob, and where the globs do not make a set.
pub fn make_globset(patterns: &Vec<String>) -> (built: Result<NameGlobs, globset::Error>)
    ensures
        match built {
            Ok(globs) => globs_compile(texts(patterns@)) && globs@ == texts(patterns@),
            Err(_) => !globs_compile(texts(patterns@)),
        },
{
    let mut builder = start_globs();
    let mut i: usize = 0;
    while i < patterns.len()
        invariant
            0 <= i <= patterns.len(),
            builder@ == texts(patterns@).take(i as int),
            forall|j: int| 0 <= j < i ==> glob_parses(#[trigger] texts(patterns@)[j]),
        decreases patterns.len() - i,
    {
        match add_glob(&mut builder, patterns[i].as_str()) {
            Ok(_) => {},
            Err(error) => {
                assert(!glob_parses(texts(patterns@)[i as int]));
                return Err(error);
            },
        }
        assert(texts(patterns@).take(i + 1) =~= texts(patterns@).take(i as int).push(
            patterns[i as int]@,
        ));
        i = i + 1;
    }
    assert(texts(patterns@).take(i as int) =~= texts(patterns@));
    build_globs(builder)
}

/// Why an expression gives no verdict on a name.
pub const NO_TEXT: &'static str = "name is no UTF-8; regular expression not tried";

/// What decides whether an entry is kept.
pub enum DirEntryFilter {
    /// The name has a match of the expression.
    Regex(NameRegex),
    /// The name matches a glob to include, if there is any, and no glob to
    /// exclude.
    Glob { includes: NameGlobs, excludes: NameGlobs },
}

/// The verdict on a name from what the two sets of globs said of it: it is
/// kept where a glob to include matches it, or there is none, and no glob to
/// exclude matches it.
pub fn glob_verdict(none_wanted: bool, included: bool, none_unwanted: bool, excluded: bool) -> (kept:
    bool)
    ensures
        kept == ((none_wanted || included) && (none_unwanted || !excluded)),
{
    (none_wanted || included) && (none_unwanted || !excluded)
}

impl DirEntryFilter {
    /// Whether the filter keeps the entry `name`; nothing where it cannot
    /// tell, which is where an expression meets a name that is no UTF-8.
    pub open spec fn keeps(self, name: Seq<u8>) -> Option<bool> {
        match self {
            DirEntryFilter::Regex(regex) => if valid_utf8(name) {
                Some(regex_matches(regex@, decode_utf8(name)))
            } else {
                None
            },
            DirEntryFilter::Glob { includes, excludes } => Some(
                (includes@.len() == 0 || globs_match(includes@, name)) && (excludes@.len() == 0
                    || !globs_match(excludes@, name)),
            ),
        }
    }

    /// Tells whether the filter keeps the entry `name`. Where it cannot tell,
    /// the answer is the failure to record, and the entry is to be left out.
    pub fn try_match(&self, name: &Vec<u8>) -> (matched: Result<bool, ScanError>)
        ensures
            match self.keeps(name@) {
                Some(kept) => matched == Ok::<bool, ScanError>(kept),
                None => matched is Err && matched->Err_0@ == (Failure {
                    kind: ErrorKind::Name,
                    name: name@,
                    cause: NO_TEXT@,
                }),
            },
    {
        match self {
            DirEntryFilter::Regex(regex) => match decode_utf8_prefix(name.as_slice()) {
                Ok(text) => {
                    proof {
                        encode_utf8_decode_utf8(text@);
                    }
                    Ok(regex_is_match(regex, text))
                },
                Err(_) => Err(ScanError::new(ErrorKind::Name, name, &NO_TEXT.to_owned())),
            },
            DirEntryFilter::Glob { includes, excludes } => {
                let none_wanted = includes.is_empty();
                let included = !none_wanted && globs_is_match(includes, name.as_slice());
                let none_unwanted = excludes.is_empty();
                let excluded = !none_unwanted && globs_is_match(excludes, name.as_slice());
                Ok(glob_verdict(none_wanted, included, none_unwanted, excluded))
            },
        }
    }
}

} // verus!
