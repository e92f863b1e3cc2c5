//! Which pair of tools is used.
use vstd::prelude::*;
use vstd::utf8::*;

use crate::ffmpeg::error::{ToolError, ToolErrorView};
use crate::ffmpeg::probe::{FfmpegToolchainPaths, ToolchainPathsView};
use crate::path;
use crate::path::FilePath;
use crate::text;

verus! {

/// Where a pair of tools comes from.
#[derive(Debug, Clone, Copy, PartialEq, Eq, Structural)]
pub enum ToolchainSource {
    /// It was chosen.
    Explicit,
    /// It came with the application.
    Bundled,
    /// It was found on the search path.
    Path,
}

impl DeepView for ToolchainSource {
    type V = ToolchainSource;

    open spec fn deep_view(&self) -> ToolchainSource {
        *self
    }
}

impl ToolchainSource {
    /// The name in machine output.
    pub open spec fn label(self) -> Seq<char> {
        match self {
            ToolchainSource::Explicit => "explicit"@,
            ToolchainSource::Bundled => "bundled"@,
            ToolchainSource::Path => "path"@,
        }
    }

    /// The name in machine output.
    pub fn as_str(self) -> (r: &'static str)
        ensures
            r@ == self.label(),
    {
        match self {
            ToolchainSource::Explicit => "explicit",
            ToolchainSource::Bundled => "bundled",
            ToolchainSource::Path => "path",
        }
    }
}

/// A pair of tools and where it comes from.
#[derive(Debug, PartialEq, Eq)]
pub struct ResolvedToolchain {
    paths: FfmpegToolchainPaths,
    source: ToolchainSource,
}

/// A pair of tools and where it comes from.
pub struct ResolvedView {
    /// The two tools.
    pub paths: ToolchainPathsView,
    /// Where they come from.
    pub source: ToolchainSource,
}

impl View for ResolvedToolchain {
    type V = ResolvedView;

    closed spec fn view(&self) -> ResolvedView {
        ResolvedView {
            paths: self.paths@,
            source: self.source,
        }
    }
}

impl DeepView for ResolvedToolchain {
    type V = ResolvedView;

    open spec fn deep_view(&self) -> ResolvedView {
        self@
    }
}

impl Clone for ResolvedToolchain {
    fn clone(&self) -> (r: Self)
        ensures
            r@ == self@,
    {
        let r = ResolvedToolchain {
            paths: self.paths.clone(),
            source: self.source,
        };
        r
    }
}

impl ResolvedToolchain {
    /// The two tools.
    pub fn paths(&self) -> (r: &FfmpegToolchainPaths)
        ensures
            r@ == self@.paths,
    {
        &self.paths
    }

    /// Where they come from.
    pub fn source(&self) -> (r: ToolchainSource)
        ensures
            r == self@.source,
    {
        self.source
    }
}

impl ResolvedToolchain {
    /// The two tools.
    pub fn into_paths(self) -> (r: FfmpegToolchainPaths)
        ensures
            r@ == self@.paths,
    {
        self.paths
    }
}

/// The naming of programs.
#[derive(Debug, Clone, Copy, PartialEq, Eq, Structural)]
pub enum Platform {
    /// With a suffix.
    Windows,
    /// Without one.
    Other,
}

impl DeepView for Platform {
    type V = Platform;

    open spec fn deep_view(&self) -> Platform {
        *self
    }
}

impl Platform {
    /// The file name of the conversion tool.
    pub open spec fn ffmpeg(self) -> Seq<char> {
        match self {
            Platform::Windows => "ffmpeg.exe"@,
            Platform::Other => "ffmpeg"@,
        }
    }

    /// The file name of the inspection tool.
    pub open spec fn ffprobe(self) -> Seq<char> {
        match self {
            Platform::Windows => "ffprobe.exe"@,
            Platform::Other => "ffprobe"@,
        }
    }
}

/// The file name of the conversion tool.
pub fn ffmpeg_name(platform: Platform) -> (r: &'static str)
    ensures
        r@ == platform.ffmpeg(),
{
    match platform {
        Platform::Windows => "ffmpeg.exe",
        Platform::Other => "ffmpeg",
    }
}

/// The file name of the inspection tool.
pub fn ffprobe_name(platform: Platform) -> (r: &'static str)
    ensures
        r@ == platform.ffprobe(),
{
    match platform {
        Platform::Windows => "ffprobe.exe",
        Platform::Other => "ffprobe",
    }
}

/// What a chosen path stands for: a directory with both tools in it, or the conversion tool with
/// the other beside it. Nothing where it is neither.
pub open spec fn explicit_pair(
    path: Seq<u8>,
    is_directory: bool,
    platform: Platform,
) -> Option<ToolchainPathsView> {
    if is_directory {
        Some(
            ToolchainPathsView {
                ffmpeg: path::join(path, encode_utf8(platform.ffmpeg())),
                ffprobe: path::join(path, encode_utf8(platform.ffprobe())),
            },
        )
    } else {
        let named = match path::file_name(path) {
            Some(name) => valid_utf8(name) && text::lower(decode_utf8(name)) == text::lower(
                platform.ffmpeg(),
            ),
            None => false,
        };
        if named {
            let parent = match path::parent(path) {
                Some(p) => p,
                None => encode_utf8("."@),
            };
            Some(
                ToolchainPathsView {
                    ffmpeg: path,
                    ffprobe: path::join(parent, encode_utf8(platform.ffprobe())),
                },
            )
        } else {
            None
        }
    }
}

/// What a chosen path stands for.
pub fn explicit_candidates(path: &FilePath, is_directory: bool, platform: Platform) -> (r: Result<
    FfmpegToolchainPaths,
    ToolError,
>)
    ensures
        match r {
            Ok(p) => explicit_pair(path@, is_directory, platform) == Some(p@),
            Err(e) => explicit_pair(path@, is_directory, platform) is None && e@ == (
            ToolErrorView::InvalidPath { path: path@ }),
        },
{
    let ffprobe = FilePath::from_text(ffprobe_name(platform));
    if is_directory {
        let ffmpeg = FilePath::from_text(ffmpeg_name(platform));
        return Ok(FfmpegToolchainPaths::new(path.join(&ffmpeg), path.join(&ffprobe)));
    }
    let named = match path.file_name() {
        Some(name) => match text::decode_strict(name.as_bytes()) {
            Some(s) => text::same_ignoring_case(s.as_str(), ffmpeg_name(platform)),
            None => false,
        },
        None => false,
    };
    if !named {
        return Err(ToolError::InvalidPath { path: path.clone() });
    }
    let parent = match path.parent() {
        Some(p) => p,
        None => FilePath::from_text("."),
    };
    Ok(FfmpegToolchainPaths::new(path.clone(), parent.join(&ffprobe)))
}

/// Why a pair is not complete, given which of its files are there.
pub open spec fn pair_fault(
    paths: ToolchainPathsView,
    ffmpeg_is_file: bool,
    ffprobe_is_file: bool,
) -> Option<ToolErrorView> {
    if !ffmpeg_is_file {
        Some(ToolErrorView::ExecutableNotFound { name: "ffmpeg"@, path: paths.ffmpeg })
    } else if !ffprobe_is_file {
        Some(ToolErrorView::ExecutableNotFound { name: "ffprobe"@, path: paths.ffprobe })
    } else {
        None
    }
}

/// A pair of tools, where both files are there.
pub fn require_files(
    paths: FfmpegToolchainPaths,
    ffmpeg_is_file: bool,
    ffprobe_is_file: bool,
) -> (r: Result<FfmpegToolchainPaths, ToolError>)
    ensures
        match r {
            Ok(p) => pair_fault(paths@, ffmpeg_is_file, ffprobe_is_file) is None && p@ == paths@,
            Err(e) => pair_fault(paths@, ffmpeg_is_file, ffprobe_is_file) == Some(e@),
        },
{
    if !ffmpeg_is_file {
        Err(ToolError::ExecutableNotFound { name: "ffmpeg", path: paths.ffmpeg().clone() })
    } else if !ffprobe_is_file {
        Err(ToolError::ExecutableNotFound { name: "ffprobe", path: paths.ffprobe().clone() })
    } else {
        Ok(paths)
    }
}

/// A pair of tools from the search path, given where each was found.
pub fn resolve_path(ffmpeg: Option<FilePath>, ffprobe: Option<FilePath>) -> (r: Result<
    FfmpegToolchainPaths,
    ToolError,
>)
    ensures
        match r {
            Ok(p) => ffmpeg is Some && ffprobe is Some && p@ == (ToolchainPathsView {
                ffmpeg: ffmpeg->0@,
                ffprobe: ffprobe->0@,
            }),
            Err(e) => (ffmpeg is None || ffprobe is None) && e@ == (ToolErrorView::PathLookup {
                name: if ffmpeg is None {
                    "ffmpeg"@
                } else {
                    "ffprobe"@
                },
            }),
        },
{
    let ffmpeg = match ffmpeg {
        Some(p) => p,
        None => {
            return Err(ToolError::PathLookup { name: "ffmpeg" });
        },
    };
    let ffprobe = match ffprobe {
        Some(p) => p,
        None => {
            return Err(ToolError::PathLookup { name: "ffprobe" });
        },
    };
    Ok(FfmpegToolchainPaths::new(ffmpeg, ffprobe))
}

/// Which pair wins: the chosen one, whether it is complete or not; else the bundled one where it is
/// complete; else the one on the search path.
pub open spec fn hybrid(
    explicit: Option<Result<ToolchainPathsView, ToolErrorView>>,
    bundled: Option<Result<ToolchainPathsView, ToolErrorView>>,
    searched: Result<ToolchainPathsView, ToolErrorView>,
) -> Result<ResolvedView, ToolErrorView> {
    match (explicit, bundled) {
        (Some(Ok(paths)), _) => Ok(ResolvedView { paths, source: ToolchainSource::Explicit }),
        (Some(Err(e)), _) => Err(e),
        (None, Some(Ok(paths))) => Ok(ResolvedView { paths, source: ToolchainSource::Bundled }),
        (None, _) => match searched {
            Ok(paths) => Ok(ResolvedView { paths, source: ToolchainSource::Path }),
            Err(e) => Err(e),
        },
    }
}

/// What is told of a pair.
pub open spec fn pair_view(r: Result<FfmpegToolchainPaths, ToolError>) -> Result<
    ToolchainPathsView,
    ToolErrorView,
> {
    match r {
        Ok(p) => Ok(p@),
        Err(e) => Err(e@),
    }
}

/// What is told of a pair that need not be there.
pub open spec fn optional_pair_view(r: Option<Result<FfmpegToolchainPaths, ToolError>>) -> Option<
    Result<ToolchainPathsView, ToolErrorView>,
> {
    match r {
        Some(p) => Some(pair_view(p)),
        None => None,
    }
}

/// Chooses among a chosen pair, a bundled one and the one on the search path.
pub fn resolve_toolchain_hybrid(
    explicit: Option<Result<FfmpegToolchainPaths, ToolError>>,
    bundled: Option<Result<FfmpegToolchainPaths, ToolError>>,
    searched: Result<FfmpegToolchainPaths, ToolError>,
) -> (r: Result<ResolvedToolchain, ToolError>)
    ensures
        match r {
            Ok(t) => hybrid(
                optional_pair_view(explicit),
                optional_pair_view(bundled),
                pair_view(searched),
            ) == Ok::<_, ToolErrorView>(t@),
            Err(e) => hybrid(
                optional_pair_view(explicit),
                optional_pair_view(bundled),
                pair_view(searched),
            ) == Err::<ResolvedView, _>(e@),
        },
{
    match explicit {
        Some(Ok(paths)) => {
            return Ok(ResolvedToolchain { paths, source: ToolchainSource::Explicit });
        },
        Some(Err(e)) => {
            return Err(e);
        },
        None => {},
    }
    match bundled {
        Some(Ok(paths)) => {
            return Ok(ResolvedToolchain { paths, source: ToolchainSource::Bundled });
        },
        _ => {},
    }
    match searched {
        Ok(paths) => Ok(ResolvedToolchain { paths, source: ToolchainSource::Path }),
        Err(e) => Err(e),
    }
}

/// Chooses between a chosen pair and the one on the search path.
pub fn resolve_toolchain(
    explicit: Option<Result<FfmpegToolchainPaths, ToolError>>,
    searched: Result<FfmpegToolchainPaths, ToolError>,
) -> (r: Result<FfmpegToolchainPaths, ToolError>)
    ensures
        match r {
            Ok(p) => (hybrid(optional_pair_view(explicit), None, pair_view(searched)) matches Ok(
                t,
            ) && t.paths == p@),
            Err(e) => hybrid(optional_pair_view(explicit), None, pair_view(searched)) == Err::<
                ResolvedView,
                _,
            >(e@),
        },
{
    match resolve_toolchain_hybrid(explicit, None, searched) {
        Ok(t) => Ok(t.into_paths()),
        Err(e) => Err(e),
    }
}

/// A chosen pair that is not complete is never replaced by another.
pub proof fn law_explicit_choice_is_final(
    fault: ToolErrorView,
    bundled: Option<Result<ToolchainPathsView, ToolErrorView>>,
    searched: Result<ToolchainPathsView, ToolErrorView>,
)
    ensures
        hybrid(Some(Err(fault)), bundled, searched) == Err::<ResolvedView, _>(fault),
{
}

/// A bundled pair that is not complete makes room for the one on the search path.
pub proof fn law_incomplete_bundle_falls_back(
    fault: ToolErrorView,
    searched: ToolchainPathsView,
)
    ensures
        hybrid(None, Some(Err(fault)), Ok(searched)) == Ok::<_, ToolErrorView>(
            ResolvedView { paths: searched, source: ToolchainSource::Path },
        ),
{
}

/// A chosen pair comes before a bundled one and that before the one on the search path; the source
/// that is told is the place of the pair.
pub proof fn law_toolchain_precedence(
    explicit: Option<Result<ToolchainPathsView, ToolErrorView>>,
    bundled: Option<Result<ToolchainPathsView, ToolErrorView>>,
    searched: Result<ToolchainPathsView, ToolErrorView>,
)
    ensures
        ({
            let r = hybrid(explicit, bundled, searched);
            let whole = bundled is Some && bundled->0 is Ok;
            &&& explicit is Some ==> (r is Ok <==> explicit->0 is Ok)
            &&& explicit is Some && r is Ok ==> r->Ok_0.paths == explicit->0->Ok_0
                && r->Ok_0.source is Explicit
            &&& explicit is None && whole ==> r is Ok && r->Ok_0.paths == bundled->0->Ok_0
                && r->Ok_0.source is Bundled
            &&& explicit is None && !whole ==> (r is Ok <==> searched is Ok)
            &&& explicit is None && !whole && r is Ok ==> r->Ok_0.paths == searched->Ok_0
                && r->Ok_0.source is Path
            &&& explicit is None && r is Err ==> r->Err_0 == searched->Err_0
        }),
{
}

/// A chosen directory stands for the two tools in it, by their names on the platform. A chosen file
/// stands for itself, where it has the name of the conversion tool in any ASCII case, and the
/// inspection tool beside it.
pub proof fn law_chosen_tools(path: Seq<u8>, is_directory: bool, platform: Platform)
    ensures
        ({
            let pair = explicit_pair(path, is_directory, platform);
            let ffmpeg = encode_utf8(
                if platform is Windows {
                    "ffmpeg.exe"@
                } else {
                    "ffmpeg"@
                },
            );
            let ffprobe = encode_utf8(
                if platform is Windows {
                    "ffprobe.exe"@
                } else {
                    "ffprobe"@
                },
            );
            &&& is_directory ==> pair == Some(
                ToolchainPathsView {
                    ffmpeg: path::join(path, ffmpeg),
                    ffprobe: path::join(path, ffprobe),
                },
            )
            &&& !is_directory && pair is Some ==> pair->0.ffmpeg == path && path::file_name(path)
                is Some
            &&& !is_directory && pair is Some && path::parent(path) is Some ==> pair->0.ffprobe
                == path::join(path::parent(path)->0, ffprobe)
            &&& !is_directory && path::file_name(path) == Some(ffmpeg) ==> pair is Some
            &&& path::file_name(path) is None && !is_directory ==> pair is None
        }),
{
    encode_utf8_valid_utf8(platform.ffmpeg());
    encode_utf8_decode_utf8(platform.ffmpeg());
}

/// A pair is complete exactly where both of its files are there; the first that is missing is named.
pub proof fn law_complete_pairs(paths: ToolchainPathsView, ffmpeg: bool, ffprobe: bool)
    ensures
        pair_fault(paths, ffmpeg, ffprobe) is None <==> ffmpeg && ffprobe,
        !ffmpeg ==> pair_fault(paths, ffmpeg, ffprobe) == Some(
            ToolErrorView::ExecutableNotFound { name: "ffmpeg"@, path: paths.ffmpeg },
        ),
        ffmpeg && !ffprobe ==> pair_fault(paths, ffmpeg, ffprobe) == Some(
            ToolErrorView::ExecutableNotFound { name: "ffprobe"@, path: paths.ffprobe },
        ),
{
}

} // verus!
