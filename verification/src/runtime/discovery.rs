//! Which files are inputs.
use vstd::prelude::*;
use vstd::utf8::*;

use crate::backend::{IoError, IoErrorView};
use crate::path;
use crate::path::FilePath;
use crate::table;
use crate::table::TextMap;
use crate::text;

verus! {

/// A set of compiled patterns of the `globset` crate.
#[verifier::external_type_specification]
#[verifier::external_body]
pub struct ExGlobSet(globset::GlobSet);

/// A set of patterns of the `globset` crate that is being put together.
#[verifier::external_type_specification]
#[verifier::external_body]
pub struct ExGlobSetBuilder(globset::GlobSetBuilder);

/// The patterns that a builder holds, in order, each with whether it ignores case and whether its
/// wildcards stop at separators.
pub uninterp spec fn builder_patterns(builder: globset::GlobSetBuilder) -> Seq<
    (Seq<char>, bool, bool),
>;

/// The patterns that a compiled set holds, in order.
pub uninterp spec fn set_patterns(set: globset::GlobSet) -> Seq<(Seq<char>, bool, bool)>;

/// Why `GlobBuilder::build` refuses a pattern, or nothing where it accepts it.
pub uninterp spec fn pattern_fault(
    pattern: Seq<char>,
    ignore_case: bool,
    literal_separator: bool,
) -> Option<Seq<char>>;

/// Why `GlobSetBuilder::build` refuses patterns, or nothing where it accepts them.
pub uninterp spec fn set_fault(patterns: Seq<(Seq<char>, bool, bool)>) -> Option<Seq<char>>;

/// Whether a pattern, with its two options, matches a path of bytes.
pub uninterp spec fn pattern_matches(pattern: (Seq<char>, bool, bool), path: Seq<u8>) -> bool;

/// An empty builder.
///
/// Calls `GlobSetBuilder::new`, which holds no pattern.
#[verifier::external_body]
fn new_builder() -> (r: globset::GlobSetBuilder)
    ensures
        builder_patterns(r) == Seq::<(Seq<char>, bool, bool)>::empty(),
{
    globset::GlobSetBuilder::new()
}

/// Parses a pattern and adds it to a builder.
///
/// Calls `GlobBuilder::build` with the two options and then `GlobSetBuilder::add`, which puts the
/// pattern behind those that are there. A pattern that does not parse is told as text and leaves
/// the builder as it was. Whether a pattern parses depends on it and the options alone.
#[verifier::external_body]
fn add_pattern(
    builder: &mut globset::GlobSetBuilder,
    pattern: &str,
    ignore_case: bool,
    literal_separator: bool,
) -> (r: Result<(), String>)
    ensures
        match r {
            Ok(_) => pattern_fault(pattern@, ignore_case, literal_separator) is None
                && builder_patterns(*final(builder)) == builder_patterns(*old(builder)).push(
                (pattern@, ignore_case, literal_separator),
            ),
            Err(reason) => pattern_fault(pattern@, ignore_case, literal_separator) == Some(reason@)
                && builder_patterns(*final(builder)) == builder_patterns(*old(builder)),
        },
{
    let mut glob = globset::GlobBuilder::new(pattern);
    glob.case_insensitive(ignore_case).literal_separator(literal_separator);
    glob.build().map(|glob| { builder.add(glob); }).map_err(|error| error.to_string())
}

/// Compiles the patterns of a builder.
///
/// Calls `GlobSetBuilder::build`, whose set holds the patterns of the builder. A refusal is told
/// as text and depends on the patterns alone.
#[verifier::external_body]
fn build_set(builder: &globset::GlobSetBuilder) -> (r: Result<globset::GlobSet, String>)
    ensures
        match r {
            Ok(set) => set_fault(builder_patterns(*builder)) is None && set_patterns(set)
                == builder_patterns(*builder),
            Err(reason) => set_fault(builder_patterns(*builder)) == Some(reason@),
        },
{
    builder.build().map_err(|error| error.to_string())
}

/// Whether a path matches some pattern of a set.
///
/// Calls `GlobSet::is_match_candidate` on `Candidate::from_bytes`, which holds exactly where one of
/// the patterns of the set matches; a set without patterns matches nothing.
#[verifier::external_body]
fn is_match(set: &globset::GlobSet, path: &Vec<u8>) -> (r: bool)
    ensures
        r == (exists|i: int|
            0 <= i < set_patterns(*set).len() && pattern_matches(
                #[trigger] set_patterns(*set)[i],
                path@,
            )),
{
    set.is_match_candidate(&globset::Candidate::from_bytes(path))
}

/// Whether some of the patterns matches a path.
pub open spec fn any_matches(patterns: Seq<(Seq<char>, bool, bool)>, path: Seq<u8>) -> bool {
    exists|i: int| 0 <= i < patterns.len() && pattern_matches(#[trigger] patterns[i], path)
}

/// Where inputs are looked for. The roots of two requests are compared as they are spelt.
#[derive(Debug, Eq)]
pub struct DiscoveryRequest {
    /// Files, directories and patterns.
    pub roots: Vec<FilePath>,
    /// Whether directories below directories count.
    pub recursive: bool,
    /// Whether symbolic links are followed.
    pub follow_links: bool,
    /// Patterns of which an input must match one.
    pub includes: Vec<String>,
    /// Patterns of which an input may match none.
    pub excludes: Vec<String>,
}

/// Where inputs are looked for.
pub struct DiscoveryRequestView {
    /// Files, directories and patterns.
    pub roots: Seq<Seq<u8>>,
    /// Whether directories below directories count.
    pub recursive: bool,
    /// Whether symbolic links are followed.
    pub follow_links: bool,
    /// Patterns of which an input must match one.
    pub includes: Seq<Seq<char>>,
    /// Patterns of which an input may match none.
    pub excludes: Seq<Seq<char>>,
}

impl View for DiscoveryRequest {
    type V = DiscoveryRequestView;

    open spec fn view(&self) -> DiscoveryRequestView {
        DiscoveryRequestView {
            roots: self.roots.deep_view(),
            recursive: self.recursive,
            follow_links: self.follow_links,
            includes: self.includes.deep_view(),
            excludes: self.excludes.deep_view(),
        }
    }
}

impl DeepView for DiscoveryRequest {
    type V = DiscoveryRequestView;

    open spec fn deep_view(&self) -> DiscoveryRequestView {
        self@
    }
}

/// Whether two lists hold paths of the same spelling.
fn same_spelling(a: &Vec<FilePath>, b: &Vec<FilePath>) -> (r: bool)
    ensures
        r == (a.deep_view() == b.deep_view()),
{
    let ghost x = a.deep_view();
    let ghost y = b.deep_view();
    if a.len() != b.len() {
        proof {
            assert(x.len() != y.len());
        }
        return false;
    }
    let mut i: usize = 0;
    while i < a.len()
        invariant
            x == a.deep_view(),
            y == b.deep_view(),
            a@.len() == b@.len(),
            i <= a@.len(),
            forall|k: int| 0 <= k < i ==> x[k] == y[k],
        decreases a@.len() - i,
    {
        proof {
            assert(x[i as int] == a@[i as int]@);
            assert(y[i as int] == b@[i as int]@);
        }
        if !path::same_bytes(a[i].as_bytes(), b[i].as_bytes()) {
            return false;
        }
        i = i + 1;
    }
    proof {
        assert(x =~= y);
    }
    true
}

/// Whether two lists hold the same texts.
fn same_texts(a: &Vec<String>, b: &Vec<String>) -> (r: bool)
    ensures
        r == (a.deep_view() == b.deep_view()),
{
    let ghost x = a.deep_view();
    let ghost y = b.deep_view();
    if a.len() != b.len() {
        proof {
            assert(x.len() != y.len());
        }
        return false;
    }
    let mut i: usize = 0;
    while i < a.len()
        invariant
            x == a.deep_view(),
            y == b.deep_view(),
            a@.len() == b@.len(),
            i <= a@.len(),
            forall|k: int| 0 <= k < i ==> x[k] == y[k],
        decreases a@.len() - i,
    {
        proof {
            assert(x[i as int] == a@[i as int]@);
            assert(y[i as int] == b@[i as int]@);
        }
        if !text::same(a[i].as_str(), b[i].as_str()) {
            return false;
        }
        i = i + 1;
    }
    proof {
        assert(x =~= y);
    }
    true
}

impl PartialEq for DiscoveryRequest {
    fn eq(&self, other: &DiscoveryRequest) -> (r: bool) {
        self.recursive == other.recursive && self.follow_links == other.follow_links
            && same_spelling(&self.roots, &other.roots) && same_texts(
            &self.includes,
            &other.includes,
        ) && same_texts(&self.excludes, &other.excludes)
    }
}

impl vstd::std_specs::cmp::PartialEqSpecImpl for DiscoveryRequest {
    open spec fn obeys_eq_spec() -> bool {
        true
    }

    open spec fn eq_spec(&self, other: &DiscoveryRequest) -> bool {
        self@ == other@
    }
}

impl Clone for DiscoveryRequest {
    fn clone(&self) -> (r: Self)
        ensures
            r@ == self@,
    {
        let r = DiscoveryRequest {
            roots: self.roots.clone(),
            recursive: self.recursive,
            follow_links: self.follow_links,
            includes: text::copy_texts(&self.includes),
            excludes: text::copy_texts(&self.excludes),
        };
        proof {
            assert(r.roots.deep_view() =~= self.roots.deep_view());
        }
        r
    }
}

/// Why inputs could not be found.
#[derive(Debug, PartialEq, Eq)]
pub enum DiscoveryError {
    /// Nothing was asked for.
    Empty,
    /// A pattern is not valid.
    InvalidGlob {
        /// What it is for.
        kind: &'static str,
        /// The pattern.
        pattern: String,
        /// Why not.
        reason: String,
    },
    /// A pattern matched nothing.
    UnmatchedGlob {
        /// The pattern.
        pattern: String,
    },
    /// An input could not be inspected.
    Inspect {
        /// The input.
        path: FilePath,
        /// What went wrong.
        source: IoError,
    },
    /// An input is a symbolic link that is not to be followed.
    Symlink {
        /// The input.
        path: FilePath,
    },
    /// An input is neither a Matroska file nor a directory.
    Unsupported {
        /// The input.
        path: FilePath,
    },
    /// A directory could not be walked.
    Traverse {
        /// The directory.
        path: FilePath,
        /// What went wrong.
        reason: String,
    },
    /// The task did not finish.
    Task {
        /// What went wrong.
        reason: String,
    },
}

/// Why inputs could not be found.
pub enum DiscoveryErrorView {
    /// Nothing was asked for.
    Empty,
    /// A pattern is not valid.
    InvalidGlob {
        /// What it is for.
        kind: Seq<char>,
        /// The pattern.
        pattern: Seq<char>,
        /// Why not.
        reason: Seq<char>,
    },
    /// A pattern matched nothing.
    UnmatchedGlob {
        /// The pattern.
        pattern: Seq<char>,
    },
    /// An input could not be inspected.
    Inspect {
        /// The input.
        path: Seq<u8>,
        /// What went wrong.
        source: IoErrorView,
    },
    /// An input is a symbolic link that is not to be followed.
    Symlink {
        /// The input.
        path: Seq<u8>,
    },
    /// An input is neither a Matroska file nor a directory.
    Unsupported {
        /// The input.
        path: Seq<u8>,
    },
    /// A directory could not be walked.
    Traverse {
        /// The directory.
        path: Seq<u8>,
        /// What went wrong.
        reason: Seq<char>,
    },
    /// The task did not finish.
    Task {
        /// What went wrong.
        reason: Seq<char>,
    },
}

impl View for DiscoveryError {
    type V = DiscoveryErrorView;

    open spec fn view(&self) -> DiscoveryErrorView {
        match self {
            DiscoveryError::Empty => DiscoveryErrorView::Empty,
            DiscoveryError::InvalidGlob { kind, pattern, reason } => DiscoveryErrorView::InvalidGlob {
                kind: kind@,
                pattern: pattern@,
                reason: reason@,
            },
            DiscoveryError::UnmatchedGlob { pattern } => DiscoveryErrorView::UnmatchedGlob {
                pattern: pattern@,
            },
            DiscoveryError::Inspect { path, source } => DiscoveryErrorView::Inspect {
                path: path@,
                source: source@,
            },
            DiscoveryError::Symlink { path } => DiscoveryErrorView::Symlink {
                path: path@,
            },
            DiscoveryError::Unsupported { path } => DiscoveryErrorView::Unsupported {
                path: path@,
            },
            DiscoveryError::Traverse { path, reason } => DiscoveryErrorView::Traverse {
                path: path@,
                reason: reason@,
            },
            DiscoveryError::Task { reason } => DiscoveryErrorView::Task {
                reason: reason@,
            },
        }
    }
}

impl DeepView for DiscoveryError {
    type V = DiscoveryErrorView;

    open spec fn deep_view(&self) -> DiscoveryErrorView {
        self@
    }
}

impl DiscoveryErrorView {
    /// The user-facing description.
    pub open spec fn message(self) -> Seq<char> {
        match self {
            DiscoveryErrorView::Empty => "at least one input path is required"@,
            DiscoveryErrorView::InvalidGlob { kind, pattern, reason } => "invalid "@ + kind + " glob `"@ + pattern + "`: "@ + reason,
            DiscoveryErrorView::UnmatchedGlob { pattern } => "input glob matched no paths: "@ + pattern,
            DiscoveryErrorView::Inspect { path, source } => "failed to inspect input "@ + text::lossy(path) + ": "@ + source.message,
            DiscoveryErrorView::Symlink { path } => "symbolic-link input requires --follow-links: "@ + text::lossy(path),
            DiscoveryErrorView::Unsupported { path } => "input is not an MKV file or directory: "@ + text::lossy(path),
            DiscoveryErrorView::Traverse { path, reason } => "failed while traversing "@ + text::lossy(path) + ": "@ + reason,
            DiscoveryErrorView::Task { reason } => "input discovery task failed: "@ + reason,
        }
    }
}

impl DiscoveryError {
    /// The user-facing description.
    pub fn message(&self) -> (r: String)
        ensures
            r@ == self@.message(),
    {
        match self {
            DiscoveryError::Empty => "at least one input path is required".to_owned(),
            DiscoveryError::InvalidGlob { kind, pattern, reason } => {
                let mut out = text::concat3("invalid ", kind, " glob `");
                text::push_text(&mut out, pattern.as_str());
                text::push_text(&mut out, "`: ");
                text::push_text(&mut out, reason.as_str());
                out
            },
            DiscoveryError::UnmatchedGlob { pattern } => text::concat2("input glob matched no paths: ", pattern.as_str()),
            DiscoveryError::Inspect { path, source } => {
                let mut out = text::concat3("failed to inspect input ", path.display().as_str(), ": ");
                text::push_text(&mut out, source.message());
                out
            },
            DiscoveryError::Symlink { path } => text::concat2("symbolic-link input requires --follow-links: ", path.display().as_str()),
            DiscoveryError::Unsupported { path } => text::concat2("input is not an MKV file or directory: ", path.display().as_str()),
            DiscoveryError::Traverse { path, reason } => {
                let mut out = text::concat3("failed while traversing ", path.display().as_str(), ": ");
                text::push_text(&mut out, reason.as_str());
                out
            },
            DiscoveryError::Task { reason } => text::concat2("input discovery task failed: ", reason.as_str()),
        }
    }
}

/// The order of a path component: the current directory, the parent directory, then names by their
/// bytes. A component key never begins another.
pub open spec fn component_key(component: Seq<u8>) -> Seq<char> {
    let rank = if component == seq![46u8] {
        '\u{1}'
    } else if component == seq![46u8, 46u8] {
        '\u{2}'
    } else {
        '\u{3}'
    };
    seq![rank] + byte_keys(component) + seq!['\0']
}

/// The bytes of a component, each behind a mark.
pub open spec fn byte_keys(bytes: Seq<u8>) -> Seq<char>
    decreases bytes.len(),
{
    if bytes.len() == 0 {
        seq![]
    } else {
        byte_keys(bytes.drop_last()) + seq!['\u{1}', bytes.last() as char]
    }
}

/// The keys of components one behind the other.
pub open spec fn component_keys(components: Seq<Seq<u8>>) -> Seq<char>
    decreases components.len(),
{
    if components.len() == 0 {
        seq![]
    } else {
        component_key(components[0]) + component_keys(components.drop_first())
    }
}

/// The key by which paths are ordered: the root first, then component by component.
pub open spec fn order_key(path: Seq<u8>) -> Seq<char> {
    if path::is_rooted(path) {
        seq!['\0'] + component_keys(path::components(path))
    } else {
        component_keys(path::components(path))
    }
}

fn key_of_component(component: &Vec<u8>) -> (r: String)
    ensures
        r@ == component_key(component@),
{
    let mut out = String::new();
    let n: usize = component.len();
    if n == 1 && component[0] == 46 {
        proof {
            assert(component@ =~= seq![46u8]);
        }
        out.push('\u{1}');
    } else if n == 2 && component[0] == 46 && component[1] == 46 {
        proof {
            assert(component@ =~= seq![46u8, 46u8]);
        }
        out.push('\u{2}');
    } else {
        out.push('\u{3}');
    }
    let ghost head = out@;
    let mut i: usize = 0;
    proof {
        assert(head + byte_keys(component@.take(0)) =~= head);
        assert(seq![46u8][0] == 46 && seq![46u8].len() == 1);
        assert(seq![46u8, 46u8][0] == 46 && seq![46u8, 46u8][1] == 46 && seq![46u8, 46u8].len()
            == 2);
    }
    while i < component.len()
        invariant
            i <= component@.len(),
            out@ == head + byte_keys(component@.take(i as int)),
        decreases component@.len() - i,
    {
        let b: u8 = component[i];
        out.push('\u{1}');
        out.push(b as char);
        proof {
            assert(component@.take(i + 1).drop_last() =~= component@.take(i as int));
            assert(out@ =~= head + byte_keys(component@.take(i + 1)));
        }
        i = i + 1;
    }
    out.push('\0');
    proof {
        assert(component@.take(i as int) =~= component@);
        assert(out@ =~= component_key(component@));
    }
    out
}

/// The key by which paths are ordered.
pub fn path_key(path: &FilePath) -> (r: String)
    ensures
        r@ == order_key(path@),
{
    let components = path.component_list();
    let ghost all = components.deep_view();
    let mut out = String::new();
    let mut i: usize = components.len();
    proof {
        assert(all.skip(all.len() as int) =~= seq![]);
        assert(out@ =~= component_keys(all.skip(i as int)));
    }
    while i > 0
        invariant
            all == components.deep_view(),
            i <= components@.len(),
            out@ == component_keys(all.skip(i as int)),
        decreases i,
    {
        i = i - 1;
        proof {
            assert(all[i as int] == components@[i as int].deep_view());
            assert(components@[i as int].deep_view() =~= components@[i as int]@);
            assert(all.skip(i as int)[0] == all[i as int]);
            assert(all.skip(i as int).drop_first() =~= all.skip(i + 1));
        }
        out = text::concat2(key_of_component(&components[i]).as_str(), out.as_str());
    }
    proof {
        assert(all.skip(0) =~= all);
    }
    if path.is_absolute() {
        let mut rooted = String::new();
        rooted.push('\0');
        text::push_text(&mut rooted, out.as_str());
        proof {
            assert(rooted@ =~= order_key(path@));
        }
        rooted
    } else {
        out
    }
}

/// Whether a root is a pattern.
pub open spec fn is_pattern(value: Seq<char>) -> bool {
    value.contains('*') || value.contains('?') || value.contains('[')
}

/// Whether a text holds a wildcard.
pub fn has_glob(value: &str) -> (r: bool)
    ensures
        r == is_pattern(value@),
{
    text::has_char(value, '*') || text::has_char(value, '?') || text::has_char(value, '[')
}

/// The pattern that a root stands for, where it is text with a wildcard.
pub fn glob_pattern(root: &FilePath) -> (r: Option<String>)
    ensures
        match r {
            Some(p) => valid_utf8(root@) && p@ == decode_utf8(root@) && is_pattern(p@),
            None => !valid_utf8(root@) || !is_pattern(decode_utf8(root@)),
        },
{
    match text::decode_strict(root.as_bytes()) {
        Some(s) => if has_glob(s.as_str()) {
            Some(s)
        } else {
            None
        },
        None => None,
    }
}

/// What a root is, as far as it is looked at.
#[derive(Debug, Clone, Copy, PartialEq, Eq)]
pub struct RootFacts {
    /// Whether it is a symbolic link.
    pub symlink: bool,
    /// Whether it is a regular file.
    pub file: bool,
    /// Whether it is a directory.
    pub directory: bool,
}

/// How a root is treated.
#[derive(Debug, Clone, Copy, PartialEq, Eq, Structural)]
pub enum RootStep {
    /// Look at what it points to.
    FollowLink,
    /// It is an input.
    File,
    /// Its entries may be inputs.
    Directory,
}

impl DeepView for RootStep {
    type V = RootStep;

    open spec fn deep_view(&self) -> RootStep {
        *self
    }
}

/// How something that is no link is treated.
pub open spec fn settled(root: Seq<u8>, facts: RootFacts) -> Result<RootStep, DiscoveryErrorView> {
    if facts.file {
        if path::is_mkv(root) {
            Ok(RootStep::File)
        } else {
            Err(DiscoveryErrorView::Unsupported { path: root })
        }
    } else if facts.directory {
        Ok(RootStep::Directory)
    } else {
        Err(DiscoveryErrorView::Unsupported { path: root })
    }
}

/// How a root is treated, given what it is. Links are followed only on request.
pub open spec fn root_decision(
    root: Seq<u8>,
    entry: Result<RootFacts, IoErrorView>,
    follow_links: bool,
) -> Result<RootStep, DiscoveryErrorView> {
    match entry {
        Err(source) => Err(DiscoveryErrorView::Inspect { path: root, source }),
        Ok(facts) => if facts.symlink {
            if follow_links {
                Ok(RootStep::FollowLink)
            } else {
                Err(DiscoveryErrorView::Symlink { path: root })
            }
        } else {
            settled(root, facts)
        },
    }
}

/// How a followed link is treated, given what it points to.
pub open spec fn target_decision(
    root: Seq<u8>,
    entry: Result<RootFacts, IoErrorView>,
) -> Result<RootStep, DiscoveryErrorView> {
    match entry {
        Err(source) => Err(DiscoveryErrorView::Inspect { path: root, source }),
        Ok(facts) => settled(root, facts),
    }
}

/// What is told of a root.
pub open spec fn facts_told(entry: Result<RootFacts, IoError>) -> Result<RootFacts, IoErrorView> {
    match entry {
        Ok(facts) => Ok(facts),
        Err(e) => Err(e@),
    }
}

fn settle(root: &FilePath, facts: RootFacts) -> (r: Result<RootStep, DiscoveryError>)
    ensures
        match r {
            Ok(s) => settled(root@, facts) == Ok::<_, DiscoveryErrorView>(s),
            Err(e) => settled(root@, facts) == Err::<RootStep, _>(e@),
        },
{
    if facts.file {
        if root.is_mkv() {
            Ok(RootStep::File)
        } else {
            Err(DiscoveryError::Unsupported { path: root.clone() })
        }
    } else if facts.directory {
        Ok(RootStep::Directory)
    } else {
        Err(DiscoveryError::Unsupported { path: root.clone() })
    }
}

/// How a root is treated, given what it is.
pub fn inspect_root(root: &FilePath, entry: Result<RootFacts, IoError>, follow_links: bool) -> (r:
    Result<RootStep, DiscoveryError>)
    ensures
        match r {
            Ok(s) => root_decision(root@, facts_told(entry), follow_links) == Ok::<
                _,
                DiscoveryErrorView,
            >(s),
            Err(e) => root_decision(root@, facts_told(entry), follow_links) == Err::<RootStep, _>(
                e@,
            ),
        },
{
    match entry {
        Err(source) => Err(DiscoveryError::Inspect { path: root.clone(), source }),
        Ok(facts) => if facts.symlink {
            if follow_links {
                Ok(RootStep::FollowLink)
            } else {
                Err(DiscoveryError::Symlink { path: root.clone() })
            }
        } else {
            settle(root, facts)
        },
    }
}

/// How a followed link is treated, given what it points to.
pub fn inspect_target(root: &FilePath, entry: Result<RootFacts, IoError>) -> (r: Result<
    RootStep,
    DiscoveryError,
>)
    ensures
        match r {
            Ok(s) => target_decision(root@, facts_told(entry)) == Ok::<_, DiscoveryErrorView>(s),
            Err(e) => target_decision(root@, facts_told(entry)) == Err::<RootStep, _>(e@),
        },
{
    match entry {
        Err(source) => Err(DiscoveryError::Inspect { path: root.clone(), source }),
        Ok(facts) => settle(root, facts),
    }
}

/// A link is never treated as an input unless links are followed.
pub proof fn law_links_need_permission(root: Seq<u8>, facts: RootFacts)
    requires
        facts.symlink,
    ensures
        root_decision(root, Ok(facts), false) == Err::<RootStep, _>(
            DiscoveryErrorView::Symlink { path: root },
        ),
{
}

/// How deep a directory is walked.
pub fn walk_depth(recursive: bool) -> (r: usize)
    ensures
        r == if recursive {
            usize::MAX
        } else {
            1
        },
{
    if recursive {
        usize::MAX
    } else {
        1
    }
}

/// The patterns of a list, all ignoring case and matching over separators.
pub open spec fn with_options(patterns: Seq<Seq<char>>) -> Seq<(Seq<char>, bool, bool)> {
    Seq::new(patterns.len(), |i: int| (patterns[i], true, false))
}

/// The patterns of which an input must match one.
pub open spec fn effective_includes(includes: Seq<Seq<char>>) -> Seq<Seq<char>> {
    if includes.len() == 0 {
        seq!["*.mkv"@]
    } else {
        includes
    }
}

/// Why patterns cannot be used: the first that is not valid, or the set as a whole.
pub open spec fn patterns_fault(
    kind: Seq<char>,
    patterns: Seq<Seq<char>>,
    n: int,
) -> Option<DiscoveryErrorView>
    decreases n,
{
    if n <= 0 {
        None
    } else if patterns_fault(kind, patterns, n - 1) is Some {
        patterns_fault(kind, patterns, n - 1)
    } else {
        match pattern_fault(patterns[n - 1], true, false) {
            Some(reason) => Some(
                DiscoveryErrorView::InvalidGlob { kind, pattern: patterns[n - 1], reason },
            ),
            None => None,
        }
    }
}

/// Why a set of patterns cannot be used.
pub open spec fn compile_fault(kind: Seq<char>, patterns: Seq<Seq<char>>) -> Option<
    DiscoveryErrorView,
> {
    if patterns_fault(kind, patterns, patterns.len() as int) is Some {
        patterns_fault(kind, patterns, patterns.len() as int)
    } else {
        match set_fault(with_options(patterns)) {
            Some(reason) => Some(
                DiscoveryErrorView::InvalidGlob { kind, pattern: "<set>"@, reason },
            ),
            None => None,
        }
    }
}

proof fn lemma_patterns_fault(kind: Seq<char>, patterns: Seq<Seq<char>>, i: int, n: int)
    requires
        0 <= i <= n,
        patterns_fault(kind, patterns, i) is Some,
    ensures
        patterns_fault(kind, patterns, n) == patterns_fault(kind, patterns, i),
    decreases n,
{
    if i < n {
        lemma_patterns_fault(kind, patterns, i, n - 1);
    }
}

fn compile_set(kind: &'static str, patterns: &Vec<String>) -> (r: Result<
    globset::GlobSet,
    DiscoveryError,
>)
    ensures
        match r {
            Ok(set) => compile_fault(kind@, patterns.deep_view()) is None && set_patterns(set)
                == with_options(patterns.deep_view()),
            Err(e) => compile_fault(kind@, patterns.deep_view()) == Some(e@),
        },
{
    let ghost all = patterns.deep_view();
    let mut builder = new_builder();
    let mut i: usize = 0;
    proof {
        assert(builder_patterns(builder) =~= with_options(all.take(0)));
    }
    while i < patterns.len()
        invariant
            all == patterns.deep_view(),
            i <= patterns@.len(),
            patterns_fault(kind@, all, i as int) is None,
            builder_patterns(builder) == with_options(all.take(i as int)),
        decreases patterns@.len() - i,
    {
        proof {
            assert(all[i as int] == patterns@[i as int]@);
        }
        match add_pattern(&mut builder, patterns[i].as_str(), true, false) {
            Ok(_) => {
                proof {
                    assert(builder_patterns(builder) =~= with_options(all.take(i + 1)));
                }
            },
            Err(reason) => {
                proof {
                    lemma_patterns_fault(kind@, all, i + 1, all.len() as int);
                }
                return Err(
                    DiscoveryError::InvalidGlob { kind, pattern: patterns[i].clone(), reason },
                );
            },
        }
        i = i + 1;
    }
    proof {
        assert(all.take(i as int) =~= all);
    }
    match build_set(&builder) {
        Ok(set) => Ok(set),
        Err(reason) => Err(
            DiscoveryError::InvalidGlob { kind, pattern: "<set>".to_owned(), reason },
        ),
    }
}

/// Whether a path passes the filters: it matches some of the first patterns and none of the others.
pub open spec fn passes(
    path: Seq<u8>,
    includes: Seq<Seq<char>>,
    excludes: Seq<Seq<char>>,
) -> bool {
    any_matches(with_options(includes), path) && !any_matches(with_options(excludes), path)
}

/// The components of a path below another, or the whole path where it does not lie below it.
pub open spec fn below(root: Seq<u8>, path: Seq<u8>) -> Seq<u8> {
    let r = path::components(root);
    let p = path::components(path);
    if path::is_rooted(root) == path::is_rooted(path) && r.len() <= p.len() && p.take(
        r.len() as int,
    ) == r {
        joined_components(p.skip(r.len() as int))
    } else {
        path
    }
}

/// Components with separators between them.
pub open spec fn joined_components(components: Seq<Seq<u8>>) -> Seq<u8>
    decreases components.len(),
{
    if components.len() == 0 {
        seq![]
    } else if components.len() == 1 {
        components[0]
    } else {
        joined_components(components.drop_last()) + seq![path::SEPARATOR] + components.last()
    }
}

fn push_bytes(out: &mut Vec<u8>, bytes: &Vec<u8>)
    ensures
        final(out)@ == old(out)@ + bytes@,
{
    let ghost before = out@;
    let mut i: usize = 0;
    while i < bytes.len()
        invariant
            i <= bytes@.len(),
            out@ == before + bytes@.take(i as int),
        decreases bytes@.len() - i,
    {
        out.push(bytes[i]);
        i = i + 1;
        proof {
            assert(out@ =~= before + bytes@.take(i as int));
        }
    }
    proof {
        assert(bytes@.take(i as int) =~= bytes@);
    }
}

fn relative_to(root: &FilePath, path: &FilePath) -> (r: Vec<u8>)
    ensures
        r@ == below(root@, path@),
{
    let rc = root.component_list();
    let pc = path.component_list();
    let ghost rs = rc.deep_view();
    let ghost ps = pc.deep_view();
    proof {
        assert(rs.len() == rc@.len());
        assert(ps.len() == pc@.len());
    }
    let mut inside = root.is_absolute() == path.is_absolute() && rc.len() <= pc.len();
    let mut i: usize = 0;
    while inside && i < rc.len()
        invariant
            rs == rc.deep_view(),
            ps == pc.deep_view(),
            i <= rc@.len(),
            inside ==> path::is_rooted(root@) == path::is_rooted(path@),
            inside ==> rc@.len() <= pc@.len(),
            inside ==> forall|j: int| 0 <= j < i ==> rs[j] == ps[j],
            !inside ==> (path::is_rooted(root@) != path::is_rooted(path@) || rc@.len() > pc@.len()
                || exists|j: int| 0 <= j < rs.len() && j < ps.len() && #[trigger] rs[j] != ps[j]),
        decreases rc@.len() - i,
    {
        proof {
            assert(rs[i as int] == rc@[i as int].deep_view());
            assert(ps[i as int] == pc@[i as int].deep_view());
            assert(rc@[i as int].deep_view() =~= rc@[i as int]@);
            assert(pc@[i as int].deep_view() =~= pc@[i as int]@);
        }
        if !path::same_bytes(&rc[i], &pc[i]) {
            inside = false;
        }
        i = i + 1;
    }
    if !inside {
        proof {
            if rs.len() <= ps.len() && ps.take(rs.len() as int) == rs {
                assert(forall|j: int| 0 <= j < rs.len() ==> rs[j] == ps.take(rs.len() as int)[j]);
            }
        }
        return path::slice_bytes(path.as_bytes(), 0, path.as_bytes().len());
    }
    proof {
        assert(ps.take(rs.len() as int) =~= rs);
    }
    let ghost rest = ps.skip(rs.len() as int);
    let start: usize = rc.len();
    let mut out: Vec<u8> = Vec::new();
    let mut k: usize = start;
    proof {
        assert(out@ =~= joined_components(rest.take(0)));
    }
    while k < pc.len()
        invariant
            ps == pc.deep_view(),
            rest == ps.skip(start as int),
            start <= k <= pc@.len(),
            out@ == joined_components(rest.take(k - start)),
        decreases pc@.len() - k,
    {
        proof {
            assert(ps[k as int] == pc@[k as int].deep_view());
            assert(pc@[k as int].deep_view() =~= pc@[k as int]@);
            assert(rest.take(k - start + 1).drop_last() =~= rest.take(k - start));
            assert(rest.take(k - start + 1).last() == ps[k as int]);
        }
        if k > start {
            out.push(path::SEPARATOR);
        }
        push_bytes(&mut out, &pc[k]);
        proof {
            assert(out@ =~= joined_components(rest.take(k - start + 1)));
        }
        k = k + 1;
    }
    proof {
        assert(rest.take(k - start) =~= rest);
    }
    out
}

/// The name of a path, by which the filters judge a root that is an input by itself.
pub open spec fn own_name(path: Seq<u8>) -> Seq<u8> {
    match path::file_name(path) {
        Some(name) => name,
        None => seq![],
    }
}

/// What a walk through a directory met.
#[derive(Debug, PartialEq, Eq)]
pub enum WalkStep {
    /// Something below the directory.
    Entry {
        /// Where it is.
        path: FilePath,
        /// Whether it is a regular file.
        is_file: bool,
    },
    /// Something that could not be read.
    Failed {
        /// What went wrong.
        reason: String,
    },
}

/// What a walk through a directory met.
pub enum WalkStepView {
    /// Something below the directory.
    Entry {
        /// Where it is.
        path: Seq<u8>,
        /// Whether it is a regular file.
        is_file: bool,
    },
    /// Something that could not be read.
    Failed {
        /// What went wrong.
        reason: Seq<char>,
    },
}

impl View for WalkStep {
    type V = WalkStepView;

    open spec fn view(&self) -> WalkStepView {
        match self {
            WalkStep::Entry { path, is_file } => WalkStepView::Entry {
                path: path@,
                is_file: *is_file,
            },
            WalkStep::Failed { reason } => WalkStepView::Failed { reason: reason@ },
        }
    }
}

impl DeepView for WalkStep {
    type V = WalkStepView;

    open spec fn deep_view(&self) -> WalkStepView {
        self@
    }
}

/// What the file system tells of a path at which inputs are looked for.
#[derive(Debug, PartialEq, Eq)]
pub struct RootFinding {
    /// The path.
    pub path: FilePath,
    /// What it is.
    pub entry: Result<RootFacts, IoError>,
    /// What it leads to, where it is a link.
    pub target: Result<RootFacts, IoError>,
    /// What lies below it, where it is a directory.
    pub walk: Vec<WalkStep>,
}

/// What the file system tells of a path at which inputs are looked for.
pub struct RootFindingView {
    /// The path.
    pub path: Seq<u8>,
    /// What it is.
    pub entry: Result<RootFacts, IoErrorView>,
    /// What it leads to, where it is a link.
    pub target: Result<RootFacts, IoErrorView>,
    /// What lies below it, where it is a directory.
    pub walk: Seq<WalkStepView>,
}

impl View for RootFinding {
    type V = RootFindingView;

    open spec fn view(&self) -> RootFindingView {
        RootFindingView {
            path: self.path@,
            entry: facts_told(self.entry),
            target: facts_told(self.target),
            walk: self.walk.deep_view(),
        }
    }
}

impl DeepView for RootFinding {
    type V = RootFindingView;

    open spec fn deep_view(&self) -> RootFindingView {
        self@
    }
}

/// What a pattern matched.
#[derive(Debug, PartialEq, Eq)]
pub enum MatchFinding {
    /// A path.
    Found(RootFinding),
    /// A path that could not be read.
    Failed {
        /// The path.
        path: FilePath,
        /// What went wrong.
        source: IoError,
    },
}

/// What a pattern matched.
pub enum MatchFindingView {
    /// A path.
    Found(RootFindingView),
    /// A path that could not be read.
    Failed {
        /// The path.
        path: Seq<u8>,
        /// What went wrong.
        source: IoErrorView,
    },
}

impl View for MatchFinding {
    type V = MatchFindingView;

    open spec fn view(&self) -> MatchFindingView {
        match self {
            MatchFinding::Found(finding) => MatchFindingView::Found(finding@),
            MatchFinding::Failed { path, source } => MatchFindingView::Failed {
                path: path@,
                source: source@,
            },
        }
    }
}

impl DeepView for MatchFinding {
    type V = MatchFindingView;

    open spec fn deep_view(&self) -> MatchFindingView {
        self@
    }
}

/// An input that the filters judge by a part of its path.
pub struct AdditionView {
    /// The input.
    pub input: Seq<u8>,
    /// What the filters look at.
    pub relative: Seq<u8>,
}

/// What a walk through a directory adds: the Matroska files that it met, or the first thing that
/// could not be read.
pub open spec fn walked(root: Seq<u8>, walk: Seq<WalkStepView>) -> Result<
    Seq<AdditionView>,
    DiscoveryErrorView,
>
    decreases walk.len(),
{
    if walk.len() == 0 {
        Ok(seq![])
    } else {
        match (walked(root, walk.drop_last()), walk.last()) {
            (Err(e), _) => Err(e),
            (Ok(_), WalkStepView::Failed { reason }) => Err(
                DiscoveryErrorView::Traverse { path: root, reason },
            ),
            (Ok(before), WalkStepView::Entry { path, is_file }) => if is_file && path::is_mkv(
                path,
            ) {
                Ok(before.push(AdditionView { input: path, relative: below(root, path) }))
            } else {
                Ok(before)
            },
        }
    }
}

impl RootFindingView {
    /// How the path is treated.
    pub open spec fn step(self, follow_links: bool) -> Result<RootStep, DiscoveryErrorView> {
        match root_decision(self.path, self.entry, follow_links) {
            Ok(RootStep::FollowLink) => target_decision(self.path, self.target),
            other => other,
        }
    }

    /// What the path adds to the inputs.
    pub open spec fn additions(self, follow_links: bool) -> Result<
        Seq<AdditionView>,
        DiscoveryErrorView,
    > {
        match self.step(follow_links) {
            Err(e) => Err(e),
            Ok(RootStep::Directory) => walked(self.path, self.walk),
            Ok(_) => Ok(
                seq![AdditionView { input: self.path, relative: own_name(self.path) }],
            ),
        }
    }
}

/// What the matches of a pattern add, or the first failure among them.
pub open spec fn matches_additions(matches: Seq<MatchFindingView>, follow_links: bool) -> Result<
    Seq<AdditionView>,
    DiscoveryErrorView,
>
    decreases matches.len(),
{
    if matches.len() == 0 {
        Ok(seq![])
    } else {
        match (matches_additions(matches.drop_last(), follow_links), matches.last()) {
            (Err(e), _) => Err(e),
            (Ok(_), MatchFindingView::Failed { path, source }) => Err(
                DiscoveryErrorView::Inspect { path, source },
            ),
            (Ok(before), MatchFindingView::Found(finding)) => match finding.additions(
                follow_links,
            ) {
                Err(e) => Err(e),
                Ok(more) => Ok(before + more),
            },
        }
    }
}

/// What the file system answers for a root of a request.
pub enum AnswerView {
    /// The root is a path.
    Path(RootFindingView),
    /// The root is a pattern, and these are its matches, or why it is none.
    Pattern {
        /// The pattern.
        pattern: Seq<char>,
        /// The matches in order.
        matches: Result<Seq<MatchFindingView>, Seq<char>>,
    },
}

impl AnswerView {
    /// What the root adds to the inputs.
    pub open spec fn additions(self, follow_links: bool) -> Result<
        Seq<AdditionView>,
        DiscoveryErrorView,
    > {
        match self {
            AnswerView::Path(finding) => finding.additions(follow_links),
            AnswerView::Pattern { pattern, matches: Err(reason) } => Err(
                DiscoveryErrorView::InvalidGlob { kind: "input"@, pattern, reason },
            ),
            AnswerView::Pattern { pattern, matches: Ok(matches) } => if matches.len() == 0 {
                Err(DiscoveryErrorView::UnmatchedGlob { pattern })
            } else {
                matches_additions(matches, follow_links)
            },
        }
    }
}

/// What is told of the matches of a pattern.
pub open spec fn matches_told(matches: Result<Vec<MatchFinding>, String>) -> Result<
    Seq<MatchFindingView>,
    Seq<char>,
> {
    match matches {
        Ok(found) => Ok(found.deep_view()),
        Err(reason) => Err(reason@),
    }
}

proof fn lemma_walk_fails(root: Seq<u8>, walk: Seq<WalkStepView>, n: int)
    requires
        0 <= n <= walk.len(),
        walked(root, walk.take(n)) is Err,
    ensures
        walked(root, walk) == walked(root, walk.take(n)),
    decreases walk.len() - n,
{
    if n < walk.len() {
        assert(walk.take(n + 1).drop_last() =~= walk.take(n));
        lemma_walk_fails(root, walk, n + 1);
    } else {
        assert(walk.take(n) =~= walk);
    }
}

proof fn lemma_matches_fail(matches: Seq<MatchFindingView>, follow_links: bool, n: int)
    requires
        0 <= n <= matches.len(),
        matches_additions(matches.take(n), follow_links) is Err,
    ensures
        matches_additions(matches, follow_links) == matches_additions(
            matches.take(n),
            follow_links,
        ),
    decreases matches.len() - n,
{
    if n < matches.len() {
        assert(matches.take(n + 1).drop_last() =~= matches.take(n));
        lemma_matches_fail(matches, follow_links, n + 1);
    } else {
        assert(matches.take(n) =~= matches);
    }
}

fn copy_facts(entry: &Result<RootFacts, IoError>) -> (r: Result<RootFacts, IoError>)
    ensures
        facts_told(r) == facts_told(*entry),
{
    match entry {
        Ok(facts) => Ok(*facts),
        Err(source) => Err(source.clone()),
    }
}

/// The inputs that were found so far, and what decides on more.
pub struct Discovery {
    request: DiscoveryRequest,
    includes: globset::GlobSet,
    excludes: globset::GlobSet,
    found: TextMap<FilePath>,
}

/// The inputs that were found so far, and what decides on more.
pub struct DiscoveryView {
    /// Where inputs are looked for.
    pub request: DiscoveryRequestView,
    /// The inputs by their keys.
    pub found: Map<Seq<char>, Seq<u8>>,
}

impl View for Discovery {
    type V = DiscoveryView;

    closed spec fn view(&self) -> DiscoveryView {
        DiscoveryView { request: self.request@, found: self.found@ }
    }
}

impl DiscoveryRequestView {
    /// Why nothing can be looked for: the first reason of these.
    pub open spec fn fault(self) -> Option<DiscoveryErrorView> {
        let includes = effective_includes(self.includes);
        if self.roots.len() == 0 {
            Some(DiscoveryErrorView::Empty)
        } else if compile_fault("include"@, includes) is Some {
            compile_fault("include"@, includes)
        } else {
            compile_fault("exclude"@, self.excludes)
        }
    }

    /// Whether a path passes the filters.
    pub open spec fn passes(self, path: Seq<u8>) -> bool {
        passes(path, effective_includes(self.includes), self.excludes)
    }
}

impl DiscoveryView {
    /// One more input, where the filters let it pass. A path that is there already stays as it was.
    pub open spec fn with(self, input: Seq<u8>, relative: Seq<u8>) -> DiscoveryView {
        if self.request.passes(relative) && !self.found.dom().contains(order_key(input)) {
            DiscoveryView { found: self.found.insert(order_key(input), input), ..self }
        } else {
            self
        }
    }

    /// More inputs, one after the other.
    pub open spec fn with_all(self, additions: Seq<AdditionView>) -> DiscoveryView
        decreases additions.len(),
    {
        if additions.len() == 0 {
            self
        } else {
            self.with_all(additions.drop_last()).with(
                additions.last().input,
                additions.last().relative,
            )
        }
    }

    /// The inputs with those of one more root, or why there are none.
    pub open spec fn with_answer(self, answer: AnswerView) -> Result<
        DiscoveryView,
        DiscoveryErrorView,
    > {
        match answer.additions(self.request.follow_links) {
            Ok(additions) => Ok(self.with_all(additions)),
            Err(e) => Err(e),
        }
    }

    /// The inputs in ascending order.
    pub open spec fn inputs(self) -> Seq<Seq<u8>> {
        values_of(table::listing(self.found))
    }
}

/// Adding inputs leaves the request as it is.
pub proof fn lemma_requests_stay(d: DiscoveryView, additions: Seq<AdditionView>)
    ensures
        d.with_all(additions).request == d.request,
    decreases additions.len(),
{
    if additions.len() > 0 {
        lemma_requests_stay(d, additions.drop_last());
    }
}

/// Adding two lists one after the other adds both.
pub proof fn lemma_with_both(d: DiscoveryView, a: Seq<AdditionView>, b: Seq<AdditionView>)
    ensures
        d.with_all(a + b) == d.with_all(a).with_all(b),
    decreases b.len(),
{
    if b.len() > 0 {
        lemma_with_both(d, a, b.drop_last());
        assert((a + b).drop_last() =~= a + b.drop_last());
        assert((a + b).last() == b.last());
    } else {
        assert(a + b =~= a);
    }
}

impl Discovery {
    /// The compiled filters are those of the request.
    #[verifier::type_invariant]
    spec fn filters_agree(self) -> bool {
        &&& set_patterns(self.includes) == with_options(
            effective_includes(self.request@.includes),
        )
        &&& set_patterns(self.excludes) == with_options(self.request@.excludes)
    }

    /// Starts looking for inputs.
    pub fn start(request: DiscoveryRequest) -> (r: Result<Discovery, DiscoveryError>)
        ensures
            match r {
                Ok(d) => request@.fault() is None && d@ == (DiscoveryView {
                    request: request@,
                    found: Map::empty(),
                }),
                Err(e) => request@.fault() == Some(e@),
            },
    {
        proof {
            assert(request@.roots.len() == request.roots@.len());
            assert(request@.includes.len() == request.includes@.len());
        }
        if request.roots.is_empty() {
            return Err(DiscoveryError::Empty);
        }
        let mut patterns: Vec<String> = Vec::new();
        if request.includes.is_empty() {
            patterns.push("*.mkv".to_owned());
        } else {
            patterns = text::copy_texts(&request.includes);
        }
        proof {
            assert(patterns.deep_view() =~= effective_includes(request@.includes));
        }
        let includes = match compile_set("include", &patterns) {
            Ok(s) => s,
            Err(e) => {
                return Err(e);
            },
        };
        let excludes = match compile_set("exclude", &request.excludes) {
            Ok(s) => s,
            Err(e) => {
                return Err(e);
            },
        };
        Ok(Discovery { request, includes, excludes, found: TextMap::new() })
    }

    fn matches_filters(&self, relative: &Vec<u8>) -> (r: bool)
        ensures
            r == self@.request.passes(relative@),
    {
        proof {
            use_type_invariant(self);
        }
        is_match(&self.includes, relative) && !is_match(&self.excludes, relative)
    }

    fn keep(self, input: &FilePath, relative: &Vec<u8>) -> (r: Discovery)
        ensures
            r@ == self@.with(input@, relative@),
    {
        if !self.matches_filters(relative) {
            return self;
        }
        proof {
            use_type_invariant(&self);
        }
        let Discovery { request, includes, excludes, found } = self;
        let mut found = found;
        let key = path_key(input);
        let known = match found.get(key.as_str()) {
            Some(_) => true,
            None => false,
        };
        if !known {
            found.insert(key, input.clone());
        }
        Discovery { request, includes, excludes, found }
    }

    /// Takes a root that is an input by itself; the filters look at its name.
    pub fn add_file(self, root: &FilePath) -> (r: Discovery)
        ensures
            r@ == self@.with(root@, own_name(root@)),
    {
        let relative = match root.file_name() {
            Some(name) => path::slice_bytes(name.as_bytes(), 0, name.as_bytes().len()),
            None => {
                let empty: Vec<u8> = Vec::new();
                proof {
                    assert(empty@ =~= seq![]);
                }
                empty
            },
        };
        proof {
            if path::file_name(root@) is Some {
                assert(relative@ =~= path::file_name(root@)->0);
            }
        }
        self.keep(root, &relative)
    }

    /// Takes an entry of a walked directory: only Matroska files count, and the filters look at
    /// the path below the directory.
    pub fn add_entry(self, root: &FilePath, entry: &FilePath, is_file: bool) -> (r: Discovery)
        ensures
            r@ == if is_file && path::is_mkv(entry@) {
                self@.with(entry@, below(root@, entry@))
            } else {
                self@
            },
    {
        if is_file && entry.is_mkv() {
            let relative = relative_to(root, entry);
            self.keep(entry, &relative)
        } else {
            self
        }
    }

    /// Takes what a path leads to: itself, where it is a file, and what lies below it, where it
    /// is a directory.
    pub fn collect_root(self, finding: &RootFinding) -> (r: Result<Discovery, DiscoveryError>)
        ensures
            match r {
                Ok(d) => self@.with_answer(AnswerView::Path(finding@)) == Ok::<
                    _,
                    DiscoveryErrorView,
                >(d@),
                Err(e) => self@.with_answer(AnswerView::Path(finding@)) == Err::<
                    DiscoveryView,
                    _,
                >(e@),
            },
    {
        let ghost before = self@;
        let follow_links = self.request.follow_links;
        let root = &finding.path;
        let mut step = match inspect_root(root, copy_facts(&finding.entry), follow_links) {
            Ok(step) => step,
            Err(e) => {
                return Err(e);
            },
        };
        if step == RootStep::FollowLink {
            step = match inspect_target(root, copy_facts(&finding.target)) {
                Ok(step) => step,
                Err(e) => {
                    return Err(e);
                },
            };
        }
        if step != RootStep::Directory {
            proof {
                let one = seq![AdditionView { input: root@, relative: own_name(root@) }];
                assert(one.drop_last() =~= seq![]);
                assert(before.with_all(one.drop_last()) == before);
                assert(before.with_all(one) == before.with(root@, own_name(root@)));
            }
            return Ok(self.add_file(root));
        }
        let ghost walk = finding.walk.deep_view();
        let ghost mut additions: Seq<AdditionView> = seq![];
        let mut discovery = self;
        let mut i: usize = 0;
        proof {
            assert(walk.take(0) =~= seq![]);
        }
        while i < finding.walk.len()
            invariant
                walk == finding.walk.deep_view(),
                root@ == finding.path@,
                i <= finding.walk@.len(),
                walked(root@, walk.take(i as int)) == Ok::<_, DiscoveryErrorView>(additions),
                discovery@ == before.with_all(additions),
                finding@.additions(follow_links) == walked(root@, walk),
                before.request.follow_links == follow_links,
                before == self@,
            decreases finding.walk@.len() - i,
        {
            proof {
                assert(walk[i as int] == finding.walk@[i as int]@);
                assert(walk.take(i + 1).drop_last() =~= walk.take(i as int));
                assert(walk.take(i + 1).last() == walk[i as int]);
            }
            match &finding.walk[i] {
                WalkStep::Entry { path, is_file } => {
                    discovery = discovery.add_entry(root, path, *is_file);
                    proof {
                        if *is_file && path::is_mkv(path@) {
                            let next = AdditionView {
                                input: path@,
                                relative: below(root@, path@),
                            };
                            assert(additions.push(next).drop_last() =~= additions);
                            additions = additions.push(next);
                        }
                    }
                },
                WalkStep::Failed { reason } => {
                    proof {
                        lemma_walk_fails(root@, walk, i + 1);
                    }
                    return Err(
                        DiscoveryError::Traverse { path: root.clone(), reason: reason.clone() },
                    );
                },
            }
            i = i + 1;
        }
        proof {
            assert(walk.take(i as int) =~= walk);
        }
        Ok(discovery)
    }

    /// Takes what the matches of a pattern lead to. A pattern that is none, or that matches
    /// nothing, is a failure.
    pub fn collect_matches(self, pattern: &str, matches: &Result<Vec<MatchFinding>, String>) -> (r:
        Result<Discovery, DiscoveryError>)
        ensures
            ({
                let answer = AnswerView::Pattern {
                    pattern: pattern@,
                    matches: matches_told(*matches),
                };
                match r {
                    Ok(d) => self@.with_answer(answer) == Ok::<_, DiscoveryErrorView>(d@),
                    Err(e) => self@.with_answer(answer) == Err::<DiscoveryView, _>(e@),
                }
            }),
    {
        let found = match matches {
            Ok(found) => found,
            Err(reason) => {
                return Err(
                    DiscoveryError::InvalidGlob {
                        kind: "input",
                        pattern: pattern.to_owned(),
                        reason: reason.clone(),
                    },
                );
            },
        };
        let ghost all = found.deep_view();
        if found.len() == 0 {
            return Err(DiscoveryError::UnmatchedGlob { pattern: pattern.to_owned() });
        }
        let ghost before = self@;
        let ghost follow = self@.request.follow_links;
        let ghost mut additions: Seq<AdditionView> = seq![];
        let mut discovery = self;
        let mut i: usize = 0;
        proof {
            assert(all.take(0) =~= seq![]);
        }
        while i < found.len()
            invariant
                all == found.deep_view(),
                i <= found@.len(),
                matches_additions(all.take(i as int), follow) == Ok::<_, DiscoveryErrorView>(
                    additions,
                ),
                discovery@ == before.with_all(additions),
                before.request.follow_links == follow,
                before == self@,
                matches_told(*matches) == Ok::<_, Seq<char>>(all),
                all.len() > 0,
            decreases found@.len() - i,
        {
            proof {
                assert(all[i as int] == found@[i as int]@);
                assert(all.take(i + 1).drop_last() =~= all.take(i as int));
                assert(all.take(i + 1).last() == all[i as int]);
                lemma_requests_stay(before, additions);
            }
            match &found[i] {
                MatchFinding::Found(finding) => match discovery.collect_root(finding) {
                    Ok(next) => {
                        proof {
                            let more = finding@.additions(follow)->Ok_0;
                            lemma_with_both(before, additions, more);
                            additions = additions + more;
                        }
                        discovery = next;
                    },
                    Err(e) => {
                        proof {
                            lemma_matches_fail(all, follow, i + 1);
                        }
                        return Err(e);
                    },
                },
                MatchFinding::Failed { path, source } => {
                    proof {
                        lemma_matches_fail(all, follow, i + 1);
                    }
                    return Err(
                        DiscoveryError::Inspect { path: path.clone(), source: source.clone() },
                    );
                },
            }
            i = i + 1;
        }
        proof {
            assert(all.take(i as int) =~= all);
        }
        Ok(discovery)
    }

    /// The inputs in ascending order.
    pub fn finish(self) -> (r: Vec<FilePath>)
        ensures
            r.deep_view() == self@.inputs(),
    {
        self.found.order();
        let ghost pairs = self.found.pairs();
        let mut out: Vec<FilePath> = Vec::new();
        let mut i: usize = 0;
        proof {
            assert(out.deep_view() =~= values_of(pairs.take(0)));
        }
        while i < self.found.len()
            invariant
                pairs == self.found.pairs(),
                i <= pairs.len(),
                out.deep_view() == values_of(pairs.take(i as int)),
            decreases pairs.len() - i,
        {
            let ghost before = out.deep_view();
            let next = self.found.value_at(i).clone();
            out.push(next);
            proof {
                assert(out.deep_view() =~= before.push(next@));
                assert(values_of(pairs.take(i + 1)) =~= values_of(pairs.take(i as int)).push(next@));
            }
            i = i + 1;
        }
        proof {
            assert(pairs.take(i as int) =~= pairs);
        }
        out
    }
}

/// The values of a listing.
pub open spec fn values_of<V>(pairs: Seq<(Seq<char>, V)>) -> Seq<V> {
    Seq::new(pairs.len(), |i: int| pairs[i].1)
}

/// Taking the same input twice makes no difference.
pub proof fn law_inputs_are_taken_once(d: DiscoveryView, input: Seq<u8>, relative: Seq<u8>)
    ensures
        d.with(input, relative).with(input, relative) == d.with(input, relative),
{
}

/// In which order two different inputs are found makes no difference.
pub proof fn law_order_of_discovery_is_irrelevant(
    d: DiscoveryView,
    first: Seq<u8>,
    first_relative: Seq<u8>,
    second: Seq<u8>,
    second_relative: Seq<u8>,
)
    requires
        !path::same_path(first, second),
    ensures
        d.with(first, first_relative).with(second, second_relative) == d.with(
            second,
            second_relative,
        ).with(first, first_relative),
{
    law_keys_tell_paths_apart(first, second);
    assert(d.with(first, first_relative).with(second, second_relative).found =~= d.with(
        second,
        second_relative,
    ).with(first, first_relative).found);
}

/// Two paths have the same key exactly where they are the same path.
pub proof fn law_keys_tell_paths_apart(a: Seq<u8>, b: Seq<u8>)
    ensures
        order_key(a) == order_key(b) <==> path::same_path(a, b),
{
    if order_key(a) == order_key(b) {
        let ka = component_keys(path::components(a));
        let kb = component_keys(path::components(b));
        lemma_no_root_mark(path::components(a));
        lemma_no_root_mark(path::components(b));
        if path::is_rooted(a) {
            assert(order_key(a)[0] == '\0');
            assert(path::is_rooted(b));
            assert(order_key(a).drop_first() =~= ka);
            assert(order_key(b).drop_first() =~= kb);
        } else if path::is_rooted(b) {
            assert(order_key(b)[0] == '\0');
        }
        lemma_components_apart(path::components(a), path::components(b));
    }
}

proof fn lemma_no_root_mark(components: Seq<Seq<u8>>)
    ensures
        component_keys(components).len() > 0 ==> component_keys(components)[0] != '\0',
{
    if components.len() > 0 {
        assert(component_keys(components)[0] == component_key(components[0])[0]);
    }
}

proof fn lemma_byte_keys(bytes: Seq<u8>)
    ensures
        byte_keys(bytes).len() == 2 * bytes.len(),
        forall|i: int|
            0 <= i < bytes.len() ==> byte_keys(bytes)[2 * i] == '\u{1}' && #[trigger] byte_keys(
                bytes,
            )[2 * i + 1] == bytes[i] as char,
        forall|i: int| 0 <= i < bytes.len() ==> #[trigger] byte_keys(bytes)[2 * i] == '\u{1}',
    decreases bytes.len(),
{
    if bytes.len() > 0 {
        lemma_byte_keys(bytes.drop_last());
        let before = byte_keys(bytes.drop_last());
        assert forall|i: int| 0 <= i < bytes.len() implies byte_keys(bytes)[2 * i] == '\u{1}'
            && #[trigger] byte_keys(bytes)[2 * i + 1] == bytes[i] as char by {
            if i < bytes.len() - 1 {
                assert(byte_keys(bytes)[2 * i + 1] == before[2 * i + 1]);
                assert(byte_keys(bytes)[2 * i] == before[2 * i]);
            }
        }
        assert forall|i: int| 0 <= i < bytes.len() implies #[trigger] byte_keys(bytes)[2 * i]
            == '\u{1}' by {
            if i < bytes.len() - 1 {
                assert(byte_keys(bytes)[2 * i] == before[2 * i]);
            }
        }
    }
}

/// Where one component ends shows in its key, whatever follows.
proof fn lemma_component_apart(a: Seq<u8>, ra: Seq<char>, b: Seq<u8>, rb: Seq<char>)
    requires
        component_key(a) + ra == component_key(b) + rb,
    ensures
        a == b,
        ra == rb,
{
    let ka = component_key(a) + ra;
    let kb = component_key(b) + rb;
    lemma_byte_keys(a);
    lemma_byte_keys(b);
    assert forall|i: int| 0 <= i < a.len() implies ka[2 * i + 1] == '\u{1}' && #[trigger] ka[2 * i
        + 2] == a[i] as char by {
        assert(ka[2 * i + 1] == byte_keys(a)[2 * i]);
        assert(ka[2 * i + 2] == byte_keys(a)[2 * i + 1]);
    }
    assert forall|i: int| 0 <= i < b.len() implies kb[2 * i + 1] == '\u{1}' && #[trigger] kb[2 * i
        + 2] == b[i] as char by {
        assert(kb[2 * i + 1] == byte_keys(b)[2 * i]);
        assert(kb[2 * i + 2] == byte_keys(b)[2 * i + 1]);
    }
    assert(ka[2 * (a.len() as int) + 1] == '\0');
    assert(kb[2 * (b.len() as int) + 1] == '\0');
    if a.len() < b.len() {
        assert(kb[2 * (a.len() as int) + 2] == b[a.len() as int] as char);
        assert(false);
    }
    if b.len() < a.len() {
        assert(ka[2 * (b.len() as int) + 2] == a[b.len() as int] as char);
        assert(false);
    }
    assert forall|i: int| 0 <= i < a.len() implies a[i] == b[i] by {
        assert(ka[2 * i + 2] == a[i] as char);
        assert(kb[2 * i + 2] == b[i] as char);
    }
    assert(a =~= b);
    assert(ra =~= ka.skip(component_key(a).len() as int));
    assert(rb =~= kb.skip(component_key(b).len() as int));
}

proof fn lemma_components_apart(a: Seq<Seq<u8>>, b: Seq<Seq<u8>>)
    requires
        component_keys(a) == component_keys(b),
    ensures
        a == b,
    decreases a.len(),
{
    if a.len() > 0 && b.len() > 0 {
        lemma_component_apart(
            a[0],
            component_keys(a.drop_first()),
            b[0],
            component_keys(b.drop_first()),
        );
        lemma_components_apart(a.drop_first(), b.drop_first());
        assert(a =~= seq![a[0]] + a.drop_first());
        assert(b =~= seq![b[0]] + b.drop_first());
    } else if a.len() == 0 && b.len() > 0 {
        assert(component_keys(b).len() >= component_key(b[0]).len());
        assert(component_key(b[0]).len() >= 2);
        assert(false);
    } else if b.len() == 0 && a.len() > 0 {
        assert(component_keys(a).len() >= component_key(a[0]).len());
        assert(component_key(a[0]).len() >= 2);
        assert(false);
    } else {
        assert(a =~= b);
    }
}

} // verus!
