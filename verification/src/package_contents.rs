//! Read-only view of a package's contents: for every file, where it would be installed,
//! whether that target is installable, and whether the game refuses its file name. The three
//! facts are reported separately, never merged into one verdict.
use crate::ids::{GameId, ModId};
use crate::metadata::PortFailure;
use crate::text::{chars_of, chars_range, str_equal, string_from_chars};
use vstd::prelude::*;

verus! {

/// One file of a package with its facts.
#[derive(Debug, Clone, PartialEq, Eq)]
pub struct PackageContentEntry {
    /// Path relative to the sandbox root; also the id used to read the file.
    pub package_file_id: String,
    pub size_bytes: u64,
    /// Path relative to the content root, i.e. where the file would be installed.
    pub target_path: Option<String>,
    /// Whether the target path falls inside an install root the game allows.
    pub installable: bool,
    /// Whether the file name is on the game's never-install list.
    pub rejected_by_game: bool,
}

/// How the content root of a package resolved. Paths are sandbox-relative with forward
/// slashes; the empty path is the sandbox root itself.
#[derive(Debug, Clone, PartialEq, Eq)]
pub enum PackageContentRoot {
    Fallback,
    Single(String),
    /// Several candidates; the player has to choose.
    Ambiguous(Vec<String>),
}

#[derive(Debug, Clone, PartialEq, Eq)]
pub struct PackageContents {
    pub entries: Vec<PackageContentEntry>,
    /// The content root in effect.
    pub content_root: PackageContentRoot,
    /// Every directory that may be chosen as content root.
    pub candidates: Vec<String>,
}

#[derive(Debug, Clone, PartialEq, Eq)]
pub enum PackageContentsQueryError {
    SourcesUnavailable,
    AnalysisUnavailable,
    ModNotFound { mod_id: ModId },
    SandboxUnavailable,
    GameAdapterNotFound { game_id: GameId },
    /// The scanner's own stable code, passed through.
    ScanFailed { code: String },
    ContentRootNotACandidate,
    ContentRootChoiceUnavailable,
}

pub open spec fn package_contents_error_code(error: PackageContentsQueryError) -> Seq<char> {
    match error {
        PackageContentsQueryError::SourcesUnavailable => "package_contents_sources_unavailable"@,
        PackageContentsQueryError::AnalysisUnavailable => "package_contents_analysis_unavailable"@,
        PackageContentsQueryError::ModNotFound { .. } => "package_contents_mod_not_found"@,
        PackageContentsQueryError::SandboxUnavailable => "package_contents_sandbox_unavailable"@,
        PackageContentsQueryError::GameAdapterNotFound { .. } =>
            "package_contents_game_adapter_not_found"@,
        PackageContentsQueryError::ScanFailed { code } => code@,
        PackageContentsQueryError::ContentRootNotACandidate =>
            "package_contents_content_root_not_a_candidate"@,
        PackageContentsQueryError::ContentRootChoiceUnavailable =>
            "package_contents_content_root_choice_unavailable"@,
    }
}

impl PackageContentsQueryError {
    pub fn code(&self) -> (r: &str)
        ensures
            r@ == package_contents_error_code(*self),
    {
        match self {
            PackageContentsQueryError::SourcesUnavailable => "package_contents_sources_unavailable",
            PackageContentsQueryError::AnalysisUnavailable => "package_contents_analysis_unavailable",
            PackageContentsQueryError::ModNotFound { .. } => "package_contents_mod_not_found",
            PackageContentsQueryError::SandboxUnavailable => "package_contents_sandbox_unavailable",
            PackageContentsQueryError::GameAdapterNotFound { .. } =>
                "package_contents_game_adapter_not_found",
            PackageContentsQueryError::ScanFailed { code } => code.as_str(),
            PackageContentsQueryError::ContentRootNotACandidate =>
                "package_contents_content_root_not_a_candidate",
            PackageContentsQueryError::ContentRootChoiceUnavailable =>
                "package_contents_content_root_choice_unavailable",
        }
    }
}

/// Rewrites a sandbox-relative path to a content-root-relative one, comparing whole path
/// segments: `root` must be followed by `/` in `path`. The empty root keeps the path.
pub open spec fn strip_content_root_spec(path: Seq<char>, root: Seq<char>) -> Option<Seq<char>> {
    if root.len() == 0 {
        Some(path)
    } else if root.len() < path.len() && path.subrange(0, root.len() as int) == root && path[root.len() as int]
        == '/' {
        Some(path.subrange(root.len() as int + 1, path.len() as int))
    } else {
        None
    }
}

pub fn strip_content_root(package_file_id: &str, content_root: &str) -> (r: Option<String>)
    ensures
        r matches Some(s) ==> strip_content_root_spec(package_file_id@, content_root@) == Some(s@),
        r is None ==> strip_content_root_spec(package_file_id@, content_root@) is None,
{
    let path = chars_of(package_file_id);
    let root = chars_of(content_root);
    if root.len() == 0 {
        return Some(package_file_id.to_owned());
    }
    if root.len() >= path.len() {
        return None;
    }
    let mut i: usize = 0;
    while i < root.len()
        invariant
            path@ == package_file_id@,
            root@ == content_root@,
            root@.len() < path@.len(),
            0 <= i <= root@.len(),
            forall|k: int| 0 <= k < i ==> path@[k] == root@[k],
        decreases root@.len() - i,
    {
        if path[i] != root[i] {
            proof {
                assert(path@.subrange(0, root@.len() as int)[i as int] != root@[i as int]);
            }
            return None;
        }
        i = i + 1;
    }
    proof {
        assert(path@.subrange(0, root@.len() as int) =~= root@);
    }
    if path[root.len()] != '/' {
        return None;
    }
    let rest = chars_range(&path, root.len() + 1, path.len());
    Some(string_from_chars(rest.as_slice()))
}

/// The last `/`-separated segment of a path (the whole path when it has no `/`).
pub open spec fn file_name_spec(path: Seq<char>) -> Seq<char> {
    path.subrange(last_slash_after(path, path.len() as int), path.len() as int)
}

/// Index just after the last `/` before `end`, or 0.
pub open spec fn last_slash_after(path: Seq<char>, end: int) -> int
    decreases end,
{
    if end <= 0 {
        0
    } else if path[end - 1] == '/' {
        end
    } else {
        last_slash_after(path, end - 1)
    }
}

pub fn file_name_of(path: &str) -> (r: String)
    ensures
        r@ == file_name_spec(path@),
{
    let chars = chars_of(path);
    let n = chars.len();
    let mut end: usize = n;
    while end > 0 && chars[end - 1] != '/'
        invariant
            chars@ == path@,
            n == chars@.len(),
            0 <= end <= n,
            last_slash_after(path@, end as int) == last_slash_after(path@, n as int),
        decreases end,
    {
        end = end - 1;
    }
    let tail = chars_range(&chars, end, n);
    string_from_chars(tail.as_slice())
}

/// The prefix files are installed relative to: the sandbox root for a fallback, the chosen
/// root for a single one, nothing while the root is ambiguous.
pub open spec fn content_root_prefix_spec(root: PackageContentRoot) -> Option<Seq<char>> {
    match root {
        PackageContentRoot::Fallback => Some(Seq::empty()),
        PackageContentRoot::Single(r) => Some(r@),
        PackageContentRoot::Ambiguous(_) => None,
    }
}

pub fn content_root_prefix(root: &PackageContentRoot) -> (r: Option<String>)
    ensures
        r matches Some(s) ==> content_root_prefix_spec(*root) == Some(s@),
        r is None ==> content_root_prefix_spec(*root) is None,
{
    match root {
        PackageContentRoot::Fallback => Some(String::new()),
        PackageContentRoot::Single(r) => Some(r.clone()),
        PackageContentRoot::Ambiguous(_) => None,
    }
}

/// What a game says about install targets and file names.
pub trait GameInstallPolicy {
    /// The policy's verdict on an install target path.
    spec fn installs_target(&self, target_path: PathText) -> bool;

    /// The policy's verdict on a file name.
    spec fn rejects_file_name(&self, file_name: PathText) -> bool;

    /// Whether `target_path` parses as an install target inside an allowed install root.
    fn is_installable_target(&self, target_path: &str) -> (r: bool)
        ensures
            r == self.installs_target(target_path@),
    ;

    /// Whether the game never installs a file of this name.
    fn is_rejected_install_file_name(&self, file_name: &str) -> (r: bool)
        ensures
            r == self.rejects_file_name(file_name@),
    ;
}

/// A path or file name as the policy is asked about it.
pub type PathText = Seq<char>;

/// A file the scanner found in a package.
#[derive(Debug, Clone, PartialEq, Eq)]
pub struct ScannedPackageFile {
    pub package_file_id: String,
    pub size_bytes: u64,
}

/// Facts of one scanned file: its target under `prefix`; installability is asked only for a
/// file that has a target, and the file-name check is asked with the path's last segment.
pub fn package_entry<P: GameInstallPolicy>(
    file: ScannedPackageFile,
    prefix: &Option<String>,
    policy: &P,
) -> (r: PackageContentEntry)
    ensures
        r.package_file_id == file.package_file_id,
        r.size_bytes == file.size_bytes,
        prefix is None ==> r.target_path is None,
        prefix matches Some(p) ==> (match strip_content_root_spec(file.package_file_id@, p@) {
            Some(t) => r.target_path matches Some(rt) && rt@ == t,
            None => r.target_path is None,
        }),
        r.target_path is None ==> !r.installable,
        r.target_path matches Some(t) ==> r.installable == policy.installs_target(t@),
        r.rejected_by_game == policy.rejects_file_name(file_name_spec(file.package_file_id@)),
{
    let target_path = match prefix {
        Some(p) => strip_content_root(file.package_file_id.as_str(), p.as_str()),
        None => None,
    };
    let installable = match &target_path {
        Some(t) => policy.is_installable_target(t.as_str()),
        None => false,
    };
    let name = file_name_of(file.package_file_id.as_str());
    let rejected_by_game = policy.is_rejected_install_file_name(name.as_str());
    PackageContentEntry {
        package_file_id: file.package_file_id,
        size_bytes: file.size_bytes,
        target_path,
        installable,
        rejected_by_game,
    }
}

/// Whether `content_root` is one of the package's candidates.
pub open spec fn is_candidate(candidates: Seq<String>, content_root: Seq<char>) -> bool {
    exists|k: int| 0 <= k < candidates.len() && #[trigger] candidates[k]@ == content_root
}

/// A content root may only be chosen among the package's candidates; anything else is refused
/// before it is stored.
pub fn check_content_root_choice(candidates: &Vec<String>, content_root: &str) -> (r: Result<
    (),
    PackageContentsQueryError,
>)
    ensures
        r is Ok <==> is_candidate(candidates@, content_root@),
        r is Err ==> r == Err::<(), _>(PackageContentsQueryError::ContentRootNotACandidate),
{
    let mut k: usize = 0;
    while k < candidates.len()
        invariant
            0 <= k <= candidates@.len(),
            forall|x: int| 0 <= x < k ==> #[trigger] candidates@[x]@ != content_root@,
        decreases candidates@.len() - k,
    {
        if str_equal(candidates[k].as_str(), content_root) {
            proof {
                assert(candidates@[k as int]@ == content_root@);
            }
            return Ok(());
        }
        k = k + 1;
    }
    Err(PackageContentsQueryError::ContentRootNotACandidate)
}

/// The facts `package_entry` reports for `file` under the content-root prefix `prefix`.
pub open spec fn entry_facts<P: GameInstallPolicy>(
    file: ScannedPackageFile,
    prefix: Option<Seq<char>>,
    policy: P,
    entry: PackageContentEntry,
) -> bool {
    &&& entry.package_file_id == file.package_file_id
    &&& entry.size_bytes == file.size_bytes
    &&& match prefix {
        None => entry.target_path is None,
        Some(p) => match strip_content_root_spec(file.package_file_id@, p) {
            Some(t) => entry.target_path matches Some(rt) && rt@ == t,
            None => entry.target_path is None,
        },
    }
    &&& (entry.target_path is None ==> !entry.installable)
    &&& (entry.target_path matches Some(t) ==> entry.installable == policy.installs_target(t@))
    &&& entry.rejected_by_game == policy.rejects_file_name(file_name_spec(file.package_file_id@))
}

pub open spec fn opt_string_view(value: Option<String>) -> Option<Seq<char>> {
    match value {
        Some(s) => Some(s@),
        None => None,
    }
}

/// What the scanner reports for a whole package.
#[derive(Debug, Clone, PartialEq, Eq)]
pub struct ScannedPackageContents {
    pub entries: Vec<ScannedPackageFile>,
    pub content_root: PackageContentRoot,
    pub candidates: Vec<String>,
}

/// Turns a scan into the page's facts: one entry per scanned file, in scan order, targets
/// computed under the content root in effect (none while the root is ambiguous).
/// `contents` are what the scan found: one entry for each scanned entry, with its facts, and
/// the scan's content root and candidates.
pub open spec fn contents_of_scan<P: GameInstallPolicy>(
    scan: ScannedPackageContents,
    policy: P,
    contents: PackageContents,
) -> bool {
    &&& contents.entries@.len() == scan.entries@.len()
    &&& forall|i: int|
        0 <= i < scan.entries@.len() ==> #[trigger] entry_facts(
            scan.entries@[i],
            content_root_prefix_spec(scan.content_root),
            policy,
            contents.entries@[i],
        )
    &&& contents.content_root == scan.content_root
    &&& contents.candidates == scan.candidates
}

pub fn contents_from_scan<P: GameInstallPolicy>(scan: ScannedPackageContents, policy: &P) -> (r:
    PackageContents)
    ensures
        r.entries@.len() == scan.entries@.len(),
        forall|i: int|
            0 <= i < scan.entries@.len() ==> #[trigger] entry_facts(
                scan.entries@[i],
                content_root_prefix_spec(scan.content_root),
                *policy,
                r.entries@[i],
            ),
        r.content_root == scan.content_root,
        r.candidates == scan.candidates,
{
    let prefix = content_root_prefix(&scan.content_root);
    let mut entries: Vec<PackageContentEntry> = Vec::new();
    let mut i: usize = 0;
    while i < scan.entries.len()
        invariant
            i <= scan.entries@.len(),
            entries@.len() == i,
            opt_string_view(prefix) == content_root_prefix_spec(scan.content_root),
            forall|k: int|
                0 <= k < i ==> #[trigger] entry_facts(
                    scan.entries@[k],
                    content_root_prefix_spec(scan.content_root),
                    *policy,
                    entries@[k],
                ),
        decreases scan.entries@.len() - i,
    {
        let file = ScannedPackageFile {
            package_file_id: scan.entries[i].package_file_id.clone(),
            size_bytes: scan.entries[i].size_bytes,
        };
        let entry = package_entry(file, &prefix, policy);
        entries.push(entry);
        proof {
            assert(entry_facts(
                scan.entries@[i as int],
                content_root_prefix_spec(scan.content_root),
                *policy,
                entries@[i as int],
            ));
        }
        i = i + 1;
    }
    PackageContents { entries, content_root: scan.content_root, candidates: scan.candidates }
}

/// Where the package contents service reads from and writes to.
pub trait PackageContentsSources {
    type Policy: GameInstallPolicy;

    /// The install policy of a supported game.
    fn game_policy(&self, game_id: &GameId) -> Option<Self::Policy>;

    /// The package of an imported Mod's analysis, if the Mod is known.
    fn analysis_package_id(&self, mod_id: &str) -> Result<Option<String>, PortFailure>;

    fn sandbox_root_for_package(&self, package_id: &str) -> Result<String, PortFailure>;

    /// Scans the whole package; a failure carries the scanner's stable code.
    fn scan_package_contents(&self, package_id: &str, sandbox_root: &str) -> Result<
        ScannedPackageContents,
        String,
    >;

    fn save_content_root(&self, package_id: &str, content_root: &str) -> Result<(), PortFailure>;

    fn clear_content_root(&self, package_id: &str) -> Result<(), PortFailure>;
}

#[derive(Debug, Clone, PartialEq, Eq)]
pub struct PackageContentsQueryRequest {
    pub game_id: GameId,
    pub mod_id: ModId,
}

pub struct PackageContentsQueryService<S: PackageContentsSources> {
    sources: Option<S>,
}

impl<S: PackageContentsSources> PackageContentsQueryService<S> {
    pub closed spec fn has_sources(&self) -> bool {
        self.sources is Some
    }

    /// A service without sources: every query answers `SourcesUnavailable`.
    pub fn new() -> (r: Self)
        ensures
            !r.has_sources(),
    {
        PackageContentsQueryService { sources: None }
    }

    pub fn with_imported_mod_sources(sources: S) -> (r: Self)
        ensures
            r.has_sources(),
    {
        PackageContentsQueryService { sources: Some(sources) }
    }

    fn package_id_for(sources: &S, mod_id: &ModId) -> (r: Result<String, PackageContentsQueryError>)
        ensures
            r matches Err(e) ==> (e == PackageContentsQueryError::AnalysisUnavailable || e
                == PackageContentsQueryError::ModNotFound { mod_id: *mod_id }),
    {
        match sources.analysis_package_id(mod_id.as_str()) {
            Err(_) => Err(PackageContentsQueryError::AnalysisUnavailable),
            Ok(None) => Err(PackageContentsQueryError::ModNotFound { mod_id: mod_id.duplicate() }),
            Ok(Some(package_id)) => Ok(package_id),
        }
    }

    /// Every file of the imported Mod's package with its facts, the content root in effect
    /// and the candidates the player may choose from. The game must be supported and the Mod
    /// imported; the Mod's sandbox must be found and scanned.
    pub fn query(&self, request: PackageContentsQueryRequest) -> (r: Result<
        PackageContents,
        PackageContentsQueryError,
    >)
        ensures
            !self.has_sources() ==> r == Err::<PackageContents, _>(
                PackageContentsQueryError::SourcesUnavailable,
            ),
            r matches Err(PackageContentsQueryError::GameAdapterNotFound { game_id }) ==> game_id
                == request.game_id,
            r matches Err(PackageContentsQueryError::ModNotFound { mod_id }) ==> mod_id
                == request.mod_id,
            r matches Ok(c) ==> exists|scan: ScannedPackageContents, policy: S::Policy|
                #[trigger] contents_of_scan(scan, policy, c),
    {
        let sources = match &self.sources {
            Some(s) => s,
            None => {
                return Err(PackageContentsQueryError::SourcesUnavailable);
            },
        };
        let policy = match sources.game_policy(&request.game_id) {
            Some(p) => p,
            None => {
                return Err(
                    PackageContentsQueryError::GameAdapterNotFound {
                        game_id: request.game_id.duplicate(),
                    },
                );
            },
        };
        let package_id = match Self::package_id_for(sources, &request.mod_id) {
            Ok(p) => p,
            Err(e) => {
                return Err(e);
            },
        };
        let sandbox_root = match sources.sandbox_root_for_package(package_id.as_str()) {
            Ok(root) => root,
            Err(_) => {
                return Err(PackageContentsQueryError::SandboxUnavailable);
            },
        };
        let scan = match sources.scan_package_contents(package_id.as_str(), sandbox_root.as_str()) {
            Ok(scan) => scan,
            Err(code) => {
                return Err(PackageContentsQueryError::ScanFailed { code });
            },
        };
        let ghost scanned = scan;
        let contents = contents_from_scan(scan, &policy);
        proof {
            assert(contents_of_scan(scanned, policy, contents));
        }
        Ok(contents)
    }

    /// Records the content root the player chose for the Mod's package. A root that is not
    /// one of the package's candidates is refused before anything is stored.
    pub fn choose_content_root(&self, request: PackageContentsQueryRequest, content_root: &str) -> (r:
        Result<(), PackageContentsQueryError>)
        ensures
            !self.has_sources() ==> r == Err::<(), _>(
                PackageContentsQueryError::SourcesUnavailable,
            ),
            r matches Err(PackageContentsQueryError::ModNotFound { mod_id }) ==> mod_id
                == request.mod_id,
            r is Ok ==> exists|scan: ScannedPackageContents, policy: S::Policy, c: PackageContents|
                #[trigger] contents_of_scan(scan, policy, c) && is_candidate(c.candidates@, content_root@),
    {
        let sources = match &self.sources {
            Some(s) => s,
            None => {
                return Err(PackageContentsQueryError::SourcesUnavailable);
            },
        };
        let package_id = match Self::package_id_for(sources, &request.mod_id) {
            Ok(p) => p,
            Err(e) => {
                return Err(e);
            },
        };
        let contents = match self.query(request) {
            Ok(c) => c,
            Err(e) => {
                return Err(e);
            },
        };
        match check_content_root_choice(&contents.candidates, content_root) {
            Ok(()) => {},
            Err(e) => {
                return Err(e);
            },
        }
        match sources.save_content_root(package_id.as_str(), content_root) {
            Ok(()) => Ok(()),
            Err(_) => Err(PackageContentsQueryError::ContentRootChoiceUnavailable),
        }
    }

    /// Forgets the player's choice; the content root is resolved automatically again.
    pub fn clear_content_root(&self, request: PackageContentsQueryRequest) -> (r: Result<
        (),
        PackageContentsQueryError,
    >)
        ensures
            !self.has_sources() ==> r == Err::<(), _>(
                PackageContentsQueryError::SourcesUnavailable,
            ),
    {
        let sources = match &self.sources {
            Some(s) => s,
            None => {
                return Err(PackageContentsQueryError::SourcesUnavailable);
            },
        };
        let package_id = match Self::package_id_for(sources, &request.mod_id) {
            Ok(p) => p,
            Err(e) => {
                return Err(e);
            },
        };
        match sources.clear_content_root(package_id.as_str()) {
            Ok(()) => Ok(()),
            Err(_) => Err(PackageContentsQueryError::ContentRootChoiceUnavailable),
        }
    }
}

} // verus!
