//! Installation packages and the units discovered inside them.
//!
//! A package is what one resolved source yields: a root directory and the
//! ordered inventory of installable units found beneath it. A unit is either
//! a directory that directly contains a metadata marker file, or a packaged
//! single file (a `.vpk`) directly under the package root.

use vstd::prelude::*;
use vstd::string::StringSliceAdditionalSpecFns;
use vstd::string::StrSliceExecFns;
use crate::paths::{spec_basename, spec_parent, spec_extension, spec_stem};
use crate::vdf::spec_parse_hud_name;

verus! {

/// The declared name of a unit: an opaque, case-sensitive identifier held as
/// the UTF-8 bytes it was parsed from. Ordered bytewise (see
/// [`crate::strutil::bytes_lt`]), which coincides with the ordinary ordering
/// of strings.
#[derive(Debug)]
pub struct HudName {
    bytes: Vec<u8>,
}

impl View for HudName {
    type V = Seq<u8>;

    closed spec fn view(&self) -> Seq<u8> {
        self.bytes@
    }
}

impl HudName {
    pub fn new(name: &str) -> (r: Self)
        ensures
            r@ == name.spec_bytes(),
    {
        HudName { bytes: name.as_bytes_vec() }
    }

    /// A name taken directly from parsed metadata bytes.
    pub fn from_bytes(bytes: Vec<u8>) -> (r: Self)
        ensures
            r@ == bytes@,
    {
        HudName { bytes }
    }

    pub fn as_bytes(&self) -> (r: &Vec<u8>)
        ensures
            r@ == self@,
    {
        &self.bytes
    }

    /// The name rendered as text.
    pub fn text(&self) -> (r: String)
        ensures
            r@ == lossy_text_of(self@),
    {
        utf8_lossy(&self.bytes)
    }
}

/// The text a byte string decodes to, with invalid sequences replaced.
pub uninterp spec fn lossy_text_of(bytes: Seq<u8>) -> Seq<char>;

/// Relies on `String::from_utf8_lossy`: the decoded text depends on the
/// bytes alone.
#[verifier::external_body]
fn utf8_lossy(bytes: &Vec<u8>) -> (r: String)
    ensures
        r@ == lossy_text_of(bytes@),
{
    String::from_utf8_lossy(bytes).into_owned()
}

impl Clone for HudName {
    fn clone(&self) -> (r: Self)
        ensures
            r@ == self@,
    {
        HudName { bytes: crate::strutil::bytes_subrange(&self.bytes, 0, self.bytes.len()) }
    }
}

impl PartialEq for HudName {
    fn eq(&self, other: &HudName) -> (r: bool) {
        crate::strutil::bytes_eq(&self.bytes, &other.bytes)
    }
}

impl vstd::std_specs::cmp::PartialEqSpecImpl for HudName {
    open spec fn obeys_eq_spec() -> bool {
        true
    }

    open spec fn eq_spec(&self, other: &HudName) -> bool {
        self@ == other@
    }
}

/// The shape of a unit decides how it is deployed and removed: a directory is
/// moved and removed recursively, a single file is copied and deleted.
#[derive(Clone, Copy, PartialEq, Eq, Structural, Debug)]
pub enum UnitShape {
    Directory,
    SingleFile,
}

/// One discovered unit: where it lies, what it is called, and its shape.
#[derive(Debug)]
pub struct PackageEntry {
    pub path: String,
    pub name: HudName,
    pub shape: UnitShape,
}

/// The mathematical image of a [`PackageEntry`].
pub struct PackageEntryView {
    pub path: Seq<char>,
    pub name: Seq<u8>,
    pub shape: UnitShape,
}

impl View for PackageEntry {
    type V = PackageEntryView;

    open spec fn view(&self) -> PackageEntryView {
        PackageEntryView { path: self.path@, name: self.name@, shape: self.shape }
    }
}

impl Clone for PackageEntry {
    fn clone(&self) -> (r: Self)
        ensures
            r@ == self@,
    {
        PackageEntry { path: self.path.clone(), name: self.name.clone(), shape: self.shape }
    }
}

/// The root directory of a directory-shaped unit, named by its metadata file.
#[derive(Debug)]
pub struct HudDirectory {
    pub path: String,
    pub name: HudName,
}

/// Why a candidate unit directory could not be opened.
#[derive(Debug)]
pub enum OpenHudDirectoryError {
    /// The metadata file declares no parsable name.
    FailedToFindHudName,
    /// The metadata file could not be read; carries the directory and the
    /// reading error's text.
    FailedToReadVdfFile { path: String, detail: String },
}

/// Why a package could not be opened.
#[derive(Debug)]
pub enum OpenPackageError {
    ScanFailed(ScanPackageError),
}

/// Why scanning a directory tree failed.
#[derive(Debug)]
pub enum ScanPackageError {
    CantReadDirectory { path: String, detail: String },
    CantOpenHudDirectory(OpenHudDirectoryError),
}

impl HudDirectory {
    /// Evaluates a candidate directory from the bytes of the metadata file it
    /// directly contains. Succeeds exactly when that file declares a name.
    pub fn scan(path: String, info_vdf: &Vec<u8>) -> (r: Result<HudDirectory, OpenHudDirectoryError>)
        ensures
            r matches Ok(h) ==> spec_parse_hud_name(info_vdf@) == Some(h.name@) && h.path@ == path@,
            r is Err <==> spec_parse_hud_name(info_vdf@) is None,
            r matches Err(e) ==> e is FailedToFindHudName,
    {
        match crate::vdf::parse_hud_name(info_vdf) {
            Some(nm) => Ok(HudDirectory { path, name: HudName::from_bytes(nm) }),
            None => Err(OpenHudDirectoryError::FailedToFindHudName),
        }
    }
}

impl PackageEntry {
    /// A directory-shaped entry, validated from its metadata file's bytes.
    pub fn directory(path: String, info_vdf: &Vec<u8>) -> (r: Result<PackageEntry, OpenHudDirectoryError>)
        ensures
            r matches Ok(e) ==> spec_parse_hud_name(info_vdf@) == Some(e@.name) && e@.path == path@
                && e@.shape == UnitShape::Directory,
            r is Err <==> spec_parse_hud_name(info_vdf@) is None,
            r matches Err(e) ==> e is FailedToFindHudName,
    {
        match crate::vdf::parse_hud_name(info_vdf) {
            Some(nm) => Ok(
                PackageEntry {
                    path,
                    name: HudName::from_bytes(nm),
                    shape: UnitShape::Directory,
                },
            ),
            None => Err(OpenHudDirectoryError::FailedToFindHudName),
        }
    }

    /// A single-file entry for a packaged `.vpk` file; its name is the file
    /// name's stem. `None` when `path` does not name a `.vpk` file.
    pub fn vpk_file(path: String) -> (r: Option<PackageEntry>)
        ensures
            r matches Some(e) ==> spec_extension(spec_basename(path@)) == Some("vpk"@) && e@.path
                == path@ && e@.name == vstd::utf8::encode_utf8(spec_stem(spec_basename(path@)))
                && e@.shape == UnitShape::SingleFile,
            r is None <==> spec_extension(spec_basename(path@)) != Some("vpk"@),
    {
        let bn = crate::paths::basename(path.as_str());
        match crate::paths::extension_of(bn) {
            Some(ext) if crate::strutil::str_eq(ext, "vpk") => {
                let name = HudName::new(crate::paths::stem_of(bn));
                Some(PackageEntry { path, name, shape: UnitShape::SingleFile })
            },
            _ => None,
        }
    }
}

/// One record of a directory walk handed to the scanner: every directory of
/// the walked tree (the root first, parents before children), with the bytes
/// of the metadata file it directly contains when there is one, and every
/// file, each in the order the walk visited it.
#[derive(Debug)]
pub enum ListingEntry {
    Directory { path: String, info_vdf: Option<Vec<u8>> },
    File { path: String },
}

/// The mathematical image of a [`ListingEntry`].
pub enum ListingEntryView {
    Directory { path: Seq<char>, info_vdf: Option<Seq<u8>> },
    File { path: Seq<char> },
}

impl View for ListingEntry {
    type V = ListingEntryView;

    open spec fn view(&self) -> ListingEntryView {
        match self {
            ListingEntry::Directory { path, info_vdf } => ListingEntryView::Directory {
                path: path@,
                info_vdf: match info_vdf {
                    Some(c) => Some(c@),
                    None => None,
                },
            },
            ListingEntry::File { path } => ListingEntryView::File { path: path@ },
        }
    }
}

impl DeepView for ListingEntry {
    type V = ListingEntryView;

    open spec fn deep_view(&self) -> ListingEntryView {
        self.view()
    }
}

/// A directory tree flattened into walk order.
#[derive(Debug)]
pub struct DirectoryListing {
    pub entries: Vec<ListingEntry>,
}

impl View for DirectoryListing {
    type V = Seq<ListingEntryView>;

    open spec fn view(&self) -> Seq<ListingEntryView> {
        self.entries.deep_view()
    }
}

/// What one listing record contributes to the inventory: a directory with a
/// named metadata file becomes a directory unit; a `.vpk` file directly under
/// the package root becomes a single-file unit; everything else is skipped,
/// malformed metadata included.
pub open spec fn spec_scan_entry(root: Seq<char>, e: ListingEntryView) -> Option<PackageEntryView> {
    match e {
        ListingEntryView::Directory { path, info_vdf } => match info_vdf {
            Some(content) => match spec_parse_hud_name(content) {
                Some(nm) => Some(
                    PackageEntryView { path: path, name: nm, shape: UnitShape::Directory },
                ),
                None => None,
            },
            None => None,
        },
        ListingEntryView::File { path } => if spec_parent(path) == root && spec_extension(
            spec_basename(path),
        ) == Some("vpk"@) {
            Some(
                PackageEntryView {
                    path: path,
                    name: vstd::utf8::encode_utf8(spec_stem(spec_basename(path))),
                    shape: UnitShape::SingleFile,
                },
            )
        } else {
            None
        },
    }
}

/// The inventory discovered in a listing, in walk order.
pub open spec fn spec_scan(root: Seq<char>, entries: Seq<ListingEntryView>) -> Seq<PackageEntryView>
    decreases entries.len(),
{
    if entries.len() == 0 {
        Seq::empty()
    } else {
        (match spec_scan_entry(root, entries[0]) {
            Some(ev) => seq![ev],
            None => Seq::empty(),
        }) + spec_scan(root, entries.drop_first())
    }
}

pub proof fn lemma_spec_scan_snoc(root: Seq<char>, entries: Seq<ListingEntryView>, e: ListingEntryView)
    ensures
        spec_scan(root, entries.push(e)) == spec_scan(root, entries) + (match spec_scan_entry(
            root,
            e,
        ) {
            Some(ev) => seq![ev],
            None => Seq::<PackageEntryView>::empty(),
        }),
    decreases entries.len(),
{
    let tail_contrib = match spec_scan_entry(root, e) {
        Some(ev) => seq![ev],
        None => Seq::<PackageEntryView>::empty(),
    };
    if entries.len() == 0 {
        assert(entries.push(e)[0] == e);
        assert(entries.push(e).drop_first() =~= Seq::<ListingEntryView>::empty());
        assert(spec_scan(root, Seq::<ListingEntryView>::empty()) == Seq::<PackageEntryView>::empty());
        assert(spec_scan(root, entries.push(e)) == tail_contrib + Seq::<
            PackageEntryView,
        >::empty());
        assert(tail_contrib + Seq::<PackageEntryView>::empty() =~= tail_contrib);
        assert(entries =~= Seq::<ListingEntryView>::empty());
        assert(spec_scan(root, entries) + tail_contrib =~= tail_contrib);
    } else {
        assert(entries.push(e)[0] == entries[0]);
        assert(entries.push(e).drop_first() =~= entries.drop_first().push(e));
        lemma_spec_scan_snoc(root, entries.drop_first(), e);
        let head = match spec_scan_entry(root, entries[0]) {
            Some(ev) => seq![ev],
            None => Seq::<PackageEntryView>::empty(),
        };
        assert(spec_scan(root, entries.push(e)) == head + spec_scan(
            root,
            entries.drop_first().push(e),
        ));
        assert(spec_scan(root, entries) == head + spec_scan(root, entries.drop_first()));
        assert(head + (spec_scan(root, entries.drop_first()) + tail_contrib) =~= (head + spec_scan(
            root,
            entries.drop_first(),
        )) + tail_contrib);
    }
}

/// The first entry carrying the name `nm`, in inventory order.
pub open spec fn spec_find_hud(entries: Seq<PackageEntryView>, nm: Seq<u8>) -> Option<
    PackageEntryView,
>
    decreases entries.len(),
{
    if entries.len() == 0 {
        None
    } else if entries[0].name == nm {
        Some(entries[0])
    } else {
        spec_find_hud(entries.drop_first(), nm)
    }
}

pub proof fn lemma_spec_find_hud_absent(entries: Seq<PackageEntryView>, nm: Seq<u8>)
    requires
        forall|i: int| 0 <= i < entries.len() ==> entries[i].name != nm,
    ensures
        spec_find_hud(entries, nm) is None,
    decreases entries.len(),
{
    if entries.len() > 0 {
        assert(entries[0].name != nm);
        assert forall|i: int| 0 <= i < entries.drop_first().len() implies entries.drop_first()[i].name
            != nm by {
            assert(entries.drop_first()[i] == entries[i + 1]);
        }
        lemma_spec_find_hud_absent(entries.drop_first(), nm);
    }
}

/// A resolved package: the content root it was opened at and the inventory of
/// units discovered beneath it, in discovery order.
#[derive(Debug)]
pub struct Package {
    pub root_directory: String,
    pub entries: Vec<PackageEntry>,
}

impl Package {
    /// The inventory as its mathematical image.
    pub open spec fn entries_view(&self) -> Seq<PackageEntryView> {
        self.entries@.map_values(|e: PackageEntry| e@)
    }

    /// Opens the package rooted at `root_directory`, taking its inventory
    /// from a walk of that directory. Scanning is best effort and the open
    /// itself always succeeds; malformed candidates are skipped.
    pub fn open(root_directory: String, listing: &DirectoryListing) -> (r: Result<
        Package,
        OpenPackageError,
    >)
        ensures
            r matches Ok(p) ==> p.root_directory@ == root_directory@ && p.entries_view()
                == spec_scan(root_directory@, listing@),
            r is Ok,
    {
        let entries = Package::scan(&root_directory, listing);
        Ok(Package { root_directory, entries })
    }

    /// Walks the listing and collects every unit it describes.
    fn scan(root_directory: &String, listing: &DirectoryListing) -> (r: Vec<PackageEntry>)
        ensures
            r@.map_values(|e: PackageEntry| e@) == spec_scan(root_directory@, listing@),
    {
        let mut out: Vec<PackageEntry> = Vec::new();
        let mut i: usize = 0;
        proof {
            assert(listing@.take(0) =~= Seq::<ListingEntryView>::empty());
            assert(out@.map_values(|e: PackageEntry| e@) =~= spec_scan(
                root_directory@,
                listing@.take(0),
            ));
        }
        while i < listing.entries.len()
            invariant
                0 <= i <= listing.entries@.len(),
                out@.map_values(|e: PackageEntry| e@) == spec_scan(
                    root_directory@,
                    listing@.take(i as int),
                ),
            decreases listing.entries@.len() - i,
        {
            let ghost prefix = listing@.take(i as int);
            proof {
                assert(listing@[i as int] == listing.entries@[i as int]@);
            }
            match &listing.entries[i] {
                ListingEntry::Directory { path, info_vdf } => {
                    match info_vdf {
                        Some(content) => {
                            match crate::vdf::parse_hud_name(content) {
                                Some(nm) => {
                                    out.push(
                                        PackageEntry {
                                            path: path.clone(),
                                            name: HudName::from_bytes(nm),
                                            shape: UnitShape::Directory,
                                        },
                                    );
                                },
                                None => {},
                            }
                        },
                        None => {},
                    }
                },
                ListingEntry::File { path } => {
                    let par = crate::paths::parent_of(path.as_str());
                    if crate::strutil::str_eq(par, root_directory.as_str()) {
                        let bn = crate::paths::basename(path.as_str());
                        match crate::paths::extension_of(bn) {
                            Some(ext) if crate::strutil::str_eq(ext, "vpk") => {
                                let name = HudName::new(crate::paths::stem_of(bn));
                                out.push(
                                    PackageEntry {
                                        path: path.clone(),
                                        name,
                                        shape: UnitShape::SingleFile,
                                    },
                                );
                            },
                            _ => {},
                        }
                    }
                },
            }
            proof {
                lemma_spec_scan_snoc(root_directory@, prefix, listing@[i as int]);
                assert(prefix.push(listing@[i as int]) =~= listing@.take(i + 1));
                assert(out@.map_values(|e: PackageEntry| e@) =~= spec_scan(
                    root_directory@,
                    listing@.take(i + 1),
                ));
            }
            i = i + 1;
        }
        proof {
            assert(listing@.take(listing.entries@.len() as int) =~= listing@);
        }
        out
    }

    /// The names of the units in this package, in inventory order.
    pub fn hud_names(&self) -> (r: Vec<HudName>)
        ensures
            r@.len() == self.entries@.len(),
            forall|i: int| 0 <= i < r@.len() ==> r@[i]@ == self.entries_view()[i].name,
    {
        let mut out: Vec<HudName> = Vec::new();
        let mut i: usize = 0;
        while i < self.entries.len()
            invariant
                0 <= i <= self.entries@.len(),
                out@.len() == i,
                forall|j: int| 0 <= j < i ==> out@[j]@ == self.entries_view()[j].name,
            decreases self.entries@.len() - i,
        {
            out.push(self.entries[i].name.clone());
            i = i + 1;
        }
        out
    }

    /// The first unit of this package called `name`, when one exists.
    pub fn find_hud(&self, name: &HudName) -> (r: Option<&PackageEntry>)
        ensures
            r matches Some(e) ==> spec_find_hud(self.entries_view(), name@) == Some(e@),
            r is None ==> spec_find_hud(self.entries_view(), name@) is None,
    {
        let mut i: usize = 0;
        proof {
            assert(self.entries_view().skip(0) =~= self.entries_view());
        }
        while i < self.entries.len()
            invariant
                0 <= i <= self.entries@.len(),
                spec_find_hud(self.entries_view(), name@) == spec_find_hud(
                    self.entries_view().skip(i as int),
                    name@,
                ),
            decreases self.entries@.len() - i,
        {
            proof {
                assert(self.entries_view().skip(i as int)[0] == self.entries_view()[i as int]);
            }
            if crate::strutil::bytes_eq(self.entries[i].name.as_bytes(), name.as_bytes()) {
                return Some(&self.entries[i]);
            }
            proof {
                assert(self.entries_view().skip(i as int).drop_first() =~= self.entries_view().skip(
                    i + 1,
                ));
            }
            i = i + 1;
        }
        proof {
            assert(self.entries_view().skip(self.entries@.len() as int).len() == 0);
        }
        None
    }
}

} // verus!
