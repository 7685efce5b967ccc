//! Updates: which published versions this client may install, the package
//! it downloads, and the labels of an installation in progress.
use vstd::prelude::*;
use crate::text::{chars_of, push_str, string_of};

verus! {

/// A stage of an installation: downloading carries the bytes received and
/// the size when known.
#[derive(Clone, Copy, Debug, PartialEq, Eq)]
pub enum InstallProgress {
    Preparing,
    Downloading(u64, Option<u64>),
    Verifying,
    Installing,
}

impl InstallProgress {
    /// The button label during this stage.
    pub fn label(&self) -> (r: &'static str)
        ensures
            r@ == match self {
                InstallProgress::Preparing => "Preparing update..."@,
                InstallProgress::Downloading(..) => "Downloading..."@,
                InstallProgress::Verifying => "Verifying update..."@,
                InstallProgress::Installing => "Installing..."@,
            },
    {
        match self {
            InstallProgress::Preparing => "Preparing update...",
            InstallProgress::Downloading(..) => "Downloading...",
            InstallProgress::Verifying => "Verifying update...",
            InstallProgress::Installing => "Installing...",
        }
    }
}

/// The stage a download callback reports: verifying once every byte of a
/// known, non-zero size has arrived, else downloading.
pub fn download_stage(bytes: u64, total: Option<u64>) -> (r: InstallProgress)
    ensures
        r == (if total matches Some(size) && size > 0 && bytes >= size {
            InstallProgress::Verifying
        } else {
            InstallProgress::Downloading(bytes, total)
        }),
{
    match total {
        Some(size) => if size > 0 && bytes >= size {
            InstallProgress::Verifying
        } else {
            InstallProgress::Downloading(bytes, total)
        },
        None => InstallProgress::Downloading(bytes, total),
    }
}

/// A version as `semver` reads it: major, minor, patch, pre-release and build.
pub struct VersionParts {
    pub major: u64,
    pub minor: u64,
    pub patch: u64,
    pub pre: String,
    pub build: String,
}

/// What `semver::Version::parse` reads from a text, as its parts.
pub uninterp spec fn semver_parts(s: Seq<char>) -> Option<(u64, u64, u64, Seq<char>, Seq<char>)>;

/// `semver::Version::parse`, the version given as its parts (the pre-release
/// and build texts as `as_str` gives them). Claims: the result is the named
/// reading of the text.
#[verifier::external_body]
fn parse_version(text: &str) -> (r: Option<VersionParts>)
    ensures
        match (r, semver_parts(text@)) {
            (Some(v), Some(p)) => v.major == p.0 && v.minor == p.1 && v.patch == p.2 && v.pre@ == p.3
                && v.build@ == p.4,
            (None, None) => true,
            _ => false,
        },
{
    semver::Version::parse(text).ok().map(
        |v| VersionParts {
            major: v.major,
            minor: v.minor,
            patch: v.patch,
            pre: v.pre.as_str().to_string(),
            build: v.build.as_str().to_string(),
        },
    )
}

/// Why a version is refused.
#[derive(Debug, PartialEq, Eq)]
pub enum UpdateError {
    /// A version text is not a semantic version.
    InvalidVersion,
    /// Pre-releases and builds are not offered to shops.
    NotStable,
    /// A different major or minor version needs a managed database upgrade.
    ManagedUpgrade,
    /// The release has no Windows package for this client yet.
    MissingPackage,
}

/// Whether `semver` orders the version read from `a` after the one read from `b`.
pub uninterp spec fn semver_after(a: Seq<char>, b: Seq<char>) -> bool;

/// Major, minor and patch of `a` come before those of `b`, compared in turn.
pub open spec fn triple_before(
    a: (u64, u64, u64, Seq<char>, Seq<char>),
    b: (u64, u64, u64, Seq<char>, Seq<char>),
) -> bool {
    a.0 < b.0 || (a.0 == b.0 && (a.1 < b.1 || (a.1 == b.1 && a.2 < b.2)))
}

/// `semver::Version`'s `>` on the versions read from two texts. Claims: the
/// result is the named order; as `Version` derives its order field by field
/// (major, minor, patch, pre-release, build), a smaller major, minor, patch
/// triple orders before a larger one, and a version never orders after itself.
#[verifier::external_body]
fn version_after(a: &str, b: &str) -> (r: bool)
    requires
        semver_parts(a@) is Some,
        semver_parts(b@) is Some,
    ensures
        r == semver_after(a@, b@),
        triple_before(semver_parts(b@)->Some_0, semver_parts(a@)->Some_0) ==> r,
        triple_before(semver_parts(a@)->Some_0, semver_parts(b@)->Some_0) ==> !r,
        a@ == b@ ==> !r,
{
    match (semver::Version::parse(a), semver::Version::parse(b)) {
        (Ok(x), Ok(y)) => x > y,
        _ => false,
    }
}

/// The update policy: refused unless both versions parse, `next` is stable
/// and has the same major and minor version; then whether it is newer.
pub open spec fn update_decision(current: Seq<char>, next: Seq<char>) -> Result<bool, UpdateError> {
    match (semver_parts(current), semver_parts(next)) {
        (Some(c), Some(n)) => if n.3.len() > 0 || n.4.len() > 0 {
            Err(UpdateError::NotStable)
        } else if c.0 != n.0 || c.1 != n.1 {
            Err(UpdateError::ManagedUpgrade)
        } else {
            Ok(semver_after(next, current))
        },
        _ => Err(UpdateError::InvalidVersion),
    }
}

/// Whether the release `next` may replace the running `current`. A release
/// is never offered over the same version, nor over a higher patch.
pub fn compatible_newer(current: &str, next: &str) -> (r: Result<bool, UpdateError>)
    ensures
        r == update_decision(current@, next@),
        r == Ok::<bool, UpdateError>(true) ==> semver_parts(next@)->Some_0.2 >= semver_parts(current@)->Some_0.2,
        current@ == next@ ==> r != Ok::<bool, UpdateError>(true),
{
    let c = match parse_version(current) {
        Some(v) => v,
        None => return Err(UpdateError::InvalidVersion),
    };
    let n = match parse_version(next) {
        Some(v) => v,
        None => return Err(UpdateError::InvalidVersion),
    };
    if !n.pre.as_str().is_empty() || !n.build.as_str().is_empty() {
        return Err(UpdateError::NotStable);
    }
    if c.major != n.major || c.minor != n.minor {
        return Err(UpdateError::ManagedUpgrade);
    }
    Ok(version_after(next, current))
}

/// The package of a release: `kay-pos-{version}-x86_64-pc-windows-msvc.zip`.
pub fn asset_name(version: &str) -> (r: String)
    ensures
        r@ == "kay-pos-"@ + version@ + "-x86_64-pc-windows-msvc.zip"@,
{
    let mut v: Vec<char> = Vec::new();
    push_str(&mut v, "kay-pos-");
    push_str(&mut v, version);
    push_str(&mut v, "-x86_64-pc-windows-msvc.zip");
    string_of(v.as_slice())
}

/// What the update check offers for the latest release `version` with these
/// asset names: nothing unless it may replace `current`; then that version,
/// provided the release carries its package.
pub open spec fn offer_of(current: Seq<char>, version: Seq<char>, assets: Seq<Seq<char>>) -> Result<
    Option<Seq<char>>,
    UpdateError,
> {
    match update_decision(current, version) {
        Err(e) => Err(e),
        Ok(false) => Ok(None),
        Ok(true) => if assets.contains("kay-pos-"@ + version + "-x86_64-pc-windows-msvc.zip"@) {
            Ok(Some(version))
        } else {
            Err(UpdateError::MissingPackage)
        },
    }
}

pub open spec fn asset_texts(v: Seq<String>) -> Seq<Seq<char>> {
    v.map_values(|s: String| s@)
}

/// The update offered for the latest release.
pub fn offered_update(current: &str, version: &str, assets: &[String]) -> (r: Result<Option<String>, UpdateError>)
    ensures
        match (r, offer_of(current@, version@, asset_texts(assets@))) {
            (Ok(Some(v)), Ok(Some(w))) => v@ == w,
            (Ok(None), Ok(None)) => true,
            (Err(a), Err(b)) => a == b,
            _ => false,
        },
{
    match compatible_newer(current, version) {
        Err(e) => Err(e),
        Ok(false) => Ok(None),
        Ok(true) => {
            let expected = asset_name(version);
            let mut i: usize = 0;
            while i < assets.len()
                invariant
                    i <= assets@.len(),
                    update_decision(current@, version@) == Ok::<bool, UpdateError>(true),
                    expected@ == "kay-pos-"@ + version@ + "-x86_64-pc-windows-msvc.zip"@,
                    forall|j: int| 0 <= j < i ==> assets@[j]@ != expected@,
                decreases assets@.len() - i,
            {
                if crate::text::same_text(assets[i].as_str(), expected.as_str()) {
                    proof {
                        assert(asset_texts(assets@)[i as int] == expected@);
                    }
                    return Ok(Some(version.to_owned()));
                }
                i = i + 1;
            }
            proof {
                if asset_texts(assets@).contains(expected@) {
                    let j = choose|j: int| 0 <= j < asset_texts(assets@).len() && asset_texts(assets@)[j] == expected@;
                    assert(assets@[j]@ == expected@);
                }
            }
            Err(UpdateError::MissingPackage)
        },
    }
}

/// The update policy never offers a release of another major or minor
/// version, a pre-release or a build (the order of versions itself is
/// `semver`'s, and `compatible_newer` states what callers learn of it).
pub proof fn law_update_policy(current: Seq<char>, next: Seq<char>)
    ensures
        update_decision(current, next) == Ok::<bool, UpdateError>(true) ==> {
            let c = semver_parts(current)->Some_0;
            let n = semver_parts(next)->Some_0;
            &&& semver_parts(current) is Some
            &&& semver_parts(next) is Some
            &&& c.0 == n.0 && c.1 == n.1
            &&& n.3.len() == 0 && n.4.len() == 0
        },
{
}

} // verus!
