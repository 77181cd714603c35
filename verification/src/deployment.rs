//! Deploying a unit into the destination directory and reversing that.
//!
//! Each installation attempt is one atomic pass: resolve the package, find
//! the named unit, move (a directory) or copy (a single file) it into the
//! destination, re-validate what arrived, and record the outcome. Whatever
//! goes wrong becomes a terminal `Install::Failed` value; installation never
//! raises an error to its caller. Uninstallation, by contrast, reports its
//! errors, and refuses outright to touch any path that is not strictly
//! inside the destination directory.
//!
//! The filesystem work itself is returned as data ([`DeployAction`],
//! [`UninstallAction`]) for the caller to perform.

use vstd::prelude::*;
use crate::package::{
    Package, PackageEntry, PackageEntryView, HudName, UnitShape, OpenHudDirectoryError,
    spec_find_hud, lemma_spec_find_hud_absent,
};
use crate::registry::Install;
use crate::source::FetchError;
use crate::paths::{spec_basename, spec_descendant_of, basename, is_descendant_of};
use crate::strutil::{spec_join, path_join};

verus! {

/// Why an installation attempt failed.
#[derive(Debug)]
pub enum InstallError {
    IoError { detail: String },
    FetchPackageFailed(FetchError),
    /// The resolved package holds no unit of the requested name.
    HudNotFound(HudName),
    FailedToOpenHud(OpenHudDirectoryError),
    FailedToMoveDirectory { detail: String },
}

/// Why an uninstallation failed. Unlike installation, these are returned to
/// the caller, who decides whether to retry or surface them.
#[derive(Debug)]
pub enum UninstallError {
    FailedToRemoveDirectory { path: String, detail: String },
}

/// The one filesystem action that deploys a unit.
#[derive(Debug)]
pub enum DeployAction {
    /// Move the unit's directory into the destination, under its base name.
    MoveDirectory { from: String, to: String },
    /// Copy the unit's file into the destination, overwriting a file of the
    /// same name.
    CopyFile { from: String, to: String },
}

/// The mathematical image of a [`DeployAction`].
pub enum DeployActionView {
    MoveDirectory { from: Seq<char>, to: Seq<char> },
    CopyFile { from: Seq<char>, to: Seq<char> },
}

impl View for DeployAction {
    type V = DeployActionView;

    open spec fn view(&self) -> DeployActionView {
        match self {
            DeployAction::MoveDirectory { from, to } => DeployActionView::MoveDirectory {
                from: from@,
                to: to@,
            },
            DeployAction::CopyFile { from, to } => DeployActionView::CopyFile {
                from: from@,
                to: to@,
            },
        }
    }
}

/// The one filesystem action that removes a deployed unit.
#[derive(Debug)]
pub enum UninstallAction {
    /// Remove the unit's directory and all its contents.
    RemoveDirectory { path: String },
    /// Delete the unit's file.
    RemoveFile { path: String },
}

/// The mathematical image of an [`UninstallAction`].
pub enum UninstallActionView {
    RemoveDirectory { path: Seq<char> },
    RemoveFile { path: Seq<char> },
}

impl View for UninstallAction {
    type V = UninstallActionView;

    open spec fn view(&self) -> UninstallActionView {
        match self {
            UninstallAction::RemoveDirectory { path } => UninstallActionView::RemoveDirectory {
                path: path@,
            },
            UninstallAction::RemoveFile { path } => UninstallActionView::RemoveFile {
                path: path@,
            },
        }
    }
}

/// How the unit named `nm` in this inventory is deployed into `dir`: its
/// directory is moved, or its file copied, to `dir` under its base name.
/// Nothing, when the inventory holds no such unit.
pub open spec fn spec_plan_install(
    entries: Seq<PackageEntryView>,
    nm: Seq<u8>,
    dir: Seq<char>,
) -> Option<DeployActionView> {
    match spec_find_hud(entries, nm) {
        Some(ev) => Some(
            match ev.shape {
                UnitShape::Directory => DeployActionView::MoveDirectory {
                    from: ev.path,
                    to: spec_join(dir, spec_basename(ev.path)),
                },
                UnitShape::SingleFile => DeployActionView::CopyFile {
                    from: ev.path,
                    to: spec_join(dir, spec_basename(ev.path)),
                },
            },
        ),
        None => None,
    }
}

/// Locates the unit named `name` in the resolved package and plans its
/// deployment into `huds_directory`. Fails exactly when the package holds
/// no unit of that name.
pub fn plan_install(package: &Package, name: &HudName, huds_directory: &String) -> (r: Result<
    DeployAction,
    InstallError,
>)
    ensures
        r matches Ok(a) ==> spec_plan_install(package.entries_view(), name@, huds_directory@)
            == Some(a@),
        r is Err <==> spec_find_hud(package.entries_view(), name@) is None,
        r matches Err(e) ==> e matches InstallError::HudNotFound(n) && n@ == name@,
{
    match package.find_hud(name) {
        Some(entry) => {
            let base = basename(entry.path.as_str());
            let to = path_join(huds_directory.as_str(), base);
            match entry.shape {
                UnitShape::Directory => Ok(
                    DeployAction::MoveDirectory { from: entry.path.clone(), to },
                ),
                UnitShape::SingleFile => Ok(
                    DeployAction::CopyFile { from: entry.path.clone(), to },
                ),
            }
        },
        None => Err(InstallError::HudNotFound(name.clone())),
    }
}

/// Seals one installation attempt into a terminal status: a validated entry
/// becomes `Installed` at its path, stamped now; any error becomes `Failed`
/// with the error's text. Total: installation never raises.
pub fn install_finished(outcome: Result<PackageEntry, InstallError>) -> (r: Install)
    ensures
        outcome matches Ok(e) ==> r is Installed && r->path@ == e.path@,
        outcome matches Err(err) ==> r is Failed && r->error@ == spec_install_error_message(err),
{
    match outcome {
        Ok(entry) => Install::installed_now(entry.path),
        Err(err) => Install::failed(err.message()),
    }
}

/// What removing the unit at `p`, of the given shape, from the destination
/// `dir` does: nothing at all — not one filesystem touch — unless `p` lies
/// strictly inside `dir`.
pub open spec fn spec_plan_uninstall(p: Seq<char>, dir: Seq<char>, is_directory: bool) -> Option<
    UninstallActionView,
> {
    if spec_descendant_of(p, dir) {
        if is_directory {
            Some(UninstallActionView::RemoveDirectory { path: p })
        } else {
            Some(UninstallActionView::RemoveFile { path: p })
        }
    } else {
        None
    }
}

/// Plans the removal of the deployed unit at `hud_path` (`is_directory`
/// says its shape). Yields an action only when `hud_path` lies strictly
/// inside `huds_directory`; any other path is a caller bug and gets
/// nothing, so nothing outside the destination can ever be deleted.
pub fn plan_uninstall(hud_path: &String, huds_directory: &String, is_directory: bool) -> (r:
    Option<UninstallAction>)
    ensures
        r matches Some(a) ==> spec_plan_uninstall(hud_path@, huds_directory@, is_directory)
            == Some(a@),
        r is Some <==> spec_descendant_of(hud_path@, huds_directory@),
{
    if is_descendant_of(hud_path.as_str(), huds_directory.as_str()) {
        if is_directory {
            Some(UninstallAction::RemoveDirectory { path: hud_path.clone() })
        } else {
            Some(UninstallAction::RemoveFile { path: hud_path.clone() })
        }
    } else {
        None
    }
}

/// A unit name absent from a resolved package cannot be deployed: the plan
/// is nothing, and sealing the attempt yields `Install::Failed` — never an
/// error raised to the caller, which is `install_finished`'s contract.
pub proof fn lemma_install_missing_unit_fails(
    entries: Seq<PackageEntryView>,
    nm: Seq<u8>,
    dir: Seq<char>,
)
    requires
        forall|i: int| 0 <= i < entries.len() ==> (#[trigger] entries[i].name) != nm,
    ensures
        spec_plan_install(entries, nm, dir) is None,
{
    lemma_spec_find_hud_absent(entries, nm);
}

/// Uninstall given a path that is not strictly inside the destination
/// directory plans nothing: no removal action exists that could touch it.
pub proof fn lemma_uninstall_outside_destination(p: Seq<char>, dir: Seq<char>, is_directory: bool)
    requires
        !spec_descendant_of(p, dir),
    ensures
        spec_plan_uninstall(p, dir, is_directory) is None,
{
}

/// Every removal action uninstall ever plans targets exactly the given
/// path, and that path lies strictly inside the destination directory.
pub proof fn lemma_uninstall_action_stays_inside(
    p: Seq<char>,
    dir: Seq<char>,
    is_directory: bool,
)
    requires
        spec_plan_uninstall(p, dir, is_directory) is Some,
    ensures
        spec_descendant_of(p, dir),
        match spec_plan_uninstall(p, dir, is_directory) {
            Some(a) => match a {
                UninstallActionView::RemoveDirectory { path } => path == p,
                UninstallActionView::RemoveFile { path } => path == p,
            },
            None => false,
        },
{
}

/// The text of an [`OpenHudDirectoryError`].
pub open spec fn spec_open_hud_directory_error_message(e: OpenHudDirectoryError) -> Seq<char> {
    match e {
        OpenHudDirectoryError::FailedToFindHudName => "Failed to find HUD's name in info.vdf"@,
        OpenHudDirectoryError::FailedToReadVdfFile { path, detail } => "Failed to read .vdf file "@
            + path@ + ": "@ + detail@,
    }
}

/// The text of an [`InstallError`], rendered for `Install::Failed`.
pub open spec fn spec_install_error_message(e: InstallError) -> Seq<char> {
    match e {
        InstallError::IoError { detail } => detail@,
        InstallError::FetchPackageFailed(f) => spec_fetch_error_message(f),
        InstallError::HudNotFound(n) => "Hud '"@ + crate::package::lossy_text_of(n@)
            + "' not found"@,
        InstallError::FailedToOpenHud(o) => spec_open_hud_directory_error_message(o),
        InstallError::FailedToMoveDirectory { detail } => detail@,
    }
}

/// The text of a [`crate::archive::ArchiveError`].
pub open spec fn spec_archive_error_message(e: crate::archive::ArchiveError) -> Seq<char> {
    match e {
        crate::archive::ArchiveError::UnsupportedArchiveType(p) => "Unsupported archive type: "@
            + p@,
        crate::archive::ArchiveError::ReadFailed { path, detail } => "Reading archive "@ + path@
            + " failed: "@ + detail@,
        crate::archive::ArchiveError::CreateDirectoryFailed { path, detail } =>
            "Creating directory "@ + path@ + " failed: "@ + detail@,
        crate::archive::ArchiveError::CreateFileFailed { path, detail } => "Writing file "@
            + path@ + " failed: "@ + detail@,
        crate::archive::ArchiveError::CopyFileFailed { path, detail } => "Copying file "@ + path@
            + " failed: "@ + detail@,
    }
}

/// The text of a [`FetchError`].
pub open spec fn spec_fetch_error_message(e: FetchError) -> Seq<char> {
    match e {
        FetchError::InvalidDirectory { path, detail } => "Invalid directory "@ + path@ + ": "@
            + detail@,
        FetchError::ExtractionFailed(a) => spec_archive_error_message(a),
        FetchError::InvalidPackage(o) => spec_open_package_error_message(o),
        FetchError::GetFailed { detail } => detail@,
        FetchError::InvalidUrl(u) => "Invalid URL "@ + u@,
        FetchError::IoError { detail } => detail@,
    }
}

/// The text of a [`crate::package::ScanPackageError`].
pub open spec fn spec_scan_package_error_message(e: crate::package::ScanPackageError) -> Seq<
    char,
> {
    match e {
        crate::package::ScanPackageError::CantReadDirectory { path, detail } =>
            "Can't read directory "@ + path@ + ": "@ + detail@,
        crate::package::ScanPackageError::CantOpenHudDirectory(o) =>
            spec_open_hud_directory_error_message(o),
    }
}

/// The text of a [`crate::package::OpenPackageError`].
pub open spec fn spec_open_package_error_message(e: crate::package::OpenPackageError) -> Seq<
    char,
> {
    match e {
        crate::package::OpenPackageError::ScanFailed(s) => spec_scan_package_error_message(s),
    }
}

impl OpenHudDirectoryError {
    /// This error, rendered as text.
    pub fn message(&self) -> (r: String)
        ensures
            r@ == spec_open_hud_directory_error_message(*self),
    {
        match self {
            OpenHudDirectoryError::FailedToFindHudName => String::from_str(
                "Failed to find HUD's name in info.vdf",
            ),
            OpenHudDirectoryError::FailedToReadVdfFile { path, detail } => String::from_str(
                "Failed to read .vdf file ",
            ).concat(path.as_str()).concat(": ").concat(detail.as_str()),
        }
    }
}

impl crate::archive::ArchiveError {
    /// This error, rendered as text.
    pub fn message(&self) -> (r: String)
        ensures
            r@ == spec_archive_error_message(*self),
    {
        match self {
            crate::archive::ArchiveError::UnsupportedArchiveType(p) => String::from_str(
                "Unsupported archive type: ",
            ).concat(p.as_str()),
            crate::archive::ArchiveError::ReadFailed { path, detail } => String::from_str(
                "Reading archive ",
            ).concat(path.as_str()).concat(" failed: ").concat(detail.as_str()),
            crate::archive::ArchiveError::CreateDirectoryFailed { path, detail } =>
                String::from_str("Creating directory ").concat(path.as_str()).concat(
                " failed: ",
            ).concat(detail.as_str()),
            crate::archive::ArchiveError::CreateFileFailed { path, detail } => String::from_str(
                "Writing file ",
            ).concat(path.as_str()).concat(" failed: ").concat(detail.as_str()),
            crate::archive::ArchiveError::CopyFileFailed { path, detail } => String::from_str(
                "Copying file ",
            ).concat(path.as_str()).concat(" failed: ").concat(detail.as_str()),
        }
    }
}

impl crate::package::ScanPackageError {
    /// This error, rendered as text.
    pub fn message(&self) -> (r: String)
        ensures
            r@ == spec_scan_package_error_message(*self),
    {
        match self {
            crate::package::ScanPackageError::CantReadDirectory { path, detail } =>
                String::from_str("Can't read directory ").concat(path.as_str()).concat(
                ": ",
            ).concat(detail.as_str()),
            crate::package::ScanPackageError::CantOpenHudDirectory(o) => o.message(),
        }
    }
}

impl crate::package::OpenPackageError {
    /// This error, rendered as text.
    pub fn message(&self) -> (r: String)
        ensures
            r@ == spec_open_package_error_message(*self),
    {
        match self {
            crate::package::OpenPackageError::ScanFailed(s) => s.message(),
        }
    }
}

impl FetchError {
    /// This error, rendered as text.
    pub fn message(&self) -> (r: String)
        ensures
            r@ == spec_fetch_error_message(*self),
    {
        match self {
            FetchError::InvalidDirectory { path, detail } => String::from_str(
                "Invalid directory ",
            ).concat(path.as_str()).concat(": ").concat(detail.as_str()),
            FetchError::ExtractionFailed(a) => a.message(),
            FetchError::InvalidPackage(o) => o.message(),
            FetchError::GetFailed { detail } => detail.clone(),
            FetchError::InvalidUrl(u) => String::from_str("Invalid URL ").concat(u.as_str()),
            FetchError::IoError { detail } => detail.clone(),
        }
    }
}

impl InstallError {
    /// This error, rendered as text.
    pub fn message(&self) -> (r: String)
        ensures
            r@ == spec_install_error_message(*self),
    {
        match self {
            InstallError::IoError { detail } => detail.clone(),
            InstallError::FetchPackageFailed(f) => f.message(),
            InstallError::HudNotFound(n) => String::from_str("Hud '").concat(
                n.text().as_str(),
            ).concat("' not found"),
            InstallError::FailedToOpenHud(o) => o.message(),
            InstallError::FailedToMoveDirectory { detail } => detail.clone(),
        }
    }
}

impl UninstallError {
    /// This error, rendered as text.
    pub fn message(&self) -> (r: String)
        ensures
            r@ == match *self {
                UninstallError::FailedToRemoveDirectory { path, detail } =>
                    "Failed to remove directory "@ + path@ + ": "@ + detail@,
            },
    {
        match self {
            UninstallError::FailedToRemoveDirectory { path, detail } => String::from_str(
                "Failed to remove directory ",
            ).concat(path.as_str()).concat(": ").concat(detail.as_str()),
        }
    }
}

} // verus!
