//! Package sources and their resolution.
//!
//! A source says where a package's archive comes from. Resolving one is:
//! fetch the archive's bytes (the caller performs the network transfer and
//! hands the bytes in), derive a file name for them from the request URL or,
//! failing that, from the final response URL, extract the archive, and scan
//! the extracted tree for units. For a ZIP archive the whole chain after the
//! transfer is computed here; for the other formats the caller decompresses
//! and walks the tree, then hands the listing to [`crate::package::Package`].

use vstd::prelude::*;
use crate::archive::{
    ArchiveError, Extraction, ExtractStep, ExtractStepView, extract_zip, spec_zip_root_ok,
    spec_zip_root, spec_zip_steps, zip_parses, zip_reads, zip_names_of, zip_datas_of,
};
use crate::package::{
    Package, DirectoryListing, ListingEntry, ListingEntryView, OpenPackageError, spec_scan,
    spec_scan_entry,
};
use crate::paths::{spec_extension, spec_basename};
use crate::strutil::{
    spec_find_char, spec_rfind_char, spec_join, spec_strip_trailing_slash, find_char_from,
    rfind_char, path_join, lemma_rfind_char_bounds,
};

verus! {

/// Where a package comes from. A unit discovered on disk has no re-fetch
/// instruction (`NoSource`); a unit added by the user carries the URL its
/// archive is downloaded from. Two `DownloadUrl` sources are equal exactly
/// when their URL strings are.
#[derive(Debug)]
pub enum Source {
    NoSource,
    DownloadUrl(String),
}

impl Source {
    /// The source's mathematical image: no URL, or the URL's characters.
    pub open spec fn view_opt(&self) -> Option<Seq<char>> {
        match self {
            Source::NoSource => None,
            Source::DownloadUrl(url) => Some(url@),
        }
    }
}

impl Clone for Source {
    fn clone(&self) -> (r: Self)
        ensures
            r.view_opt() == self.view_opt(),
    {
        match self {
            Source::NoSource => Source::NoSource,
            Source::DownloadUrl(url) => Source::DownloadUrl(url.clone()),
        }
    }
}

impl PartialEq for Source {
    fn eq(&self, other: &Source) -> (r: bool) {
        match (self, other) {
            (Source::NoSource, Source::NoSource) => true,
            (Source::DownloadUrl(a), Source::DownloadUrl(b)) => crate::strutil::str_eq(
                a.as_str(),
                b.as_str(),
            ),
            _ => false,
        }
    }
}

impl vstd::std_specs::cmp::PartialEqSpecImpl for Source {
    open spec fn obeys_eq_spec() -> bool {
        true
    }

    open spec fn eq_spec(&self, other: &Source) -> bool {
        self.view_opt() == other.view_opt()
    }
}

/// Where a unit's archive lives: a remote URL or an absolute local path.
#[derive(Debug)]
pub enum ArchiveLocation {
    DownloadUrl(String),
    AbsolutePath(String),
}

impl Clone for ArchiveLocation {
    fn clone(&self) -> (r: Self)
        ensures
            match (self, r) {
                (ArchiveLocation::DownloadUrl(a), ArchiveLocation::DownloadUrl(b)) => a@ == b@,
                (ArchiveLocation::AbsolutePath(a), ArchiveLocation::AbsolutePath(b)) => a@ == b@,
                _ => false,
            },
    {
        match self {
            ArchiveLocation::DownloadUrl(url) => ArchiveLocation::DownloadUrl(url.clone()),
            ArchiveLocation::AbsolutePath(p) => ArchiveLocation::AbsolutePath(p.clone()),
        }
    }
}

/// A unit as the user sees it: where its archive lives, which also
/// identifies it, and the name shown for it.
#[derive(Debug)]
pub struct Hud {
    pub archive_location: ArchiveLocation,
    pub display_name: String,
}

/// Why resolving a package failed.
#[derive(Debug)]
pub enum FetchError {
    InvalidDirectory { path: String, detail: String },
    ExtractionFailed(ArchiveError),
    InvalidPackage(OpenPackageError),
    /// The network transfer failed; carries the client's message.
    GetFailed { detail: String },
    /// No file name with an extension could be derived from the URLs.
    InvalidUrl(String),
    IoError { detail: String },
}

/// The file name a URL suggests: what follows the last `/`, cut at the first
/// `?`. `None` when there is no `/` or nothing follows it.
pub open spec fn spec_extract_file_name(url: Seq<char>) -> Option<Seq<char>> {
    let p = spec_rfind_char(url, '/');
    if p < 0 {
        None
    } else if p + 1 >= url.len() {
        None
    } else {
        let rest = url.subrange(p + 1, url.len() as int);
        let q = spec_find_char(rest, '?', 0);
        if q < rest.len() {
            Some(rest.take(q as int))
        } else {
            Some(rest)
        }
    }
}

/// Derives a local file name from a URL.
pub fn extract_file_name(url: &str) -> (r: Option<String>)
    ensures
        r matches Some(s) ==> spec_extract_file_name(url@) == Some(s@),
        r is None ==> spec_extract_file_name(url@) is None,
{
    proof {
        lemma_rfind_char_bounds(url@, '/');
    }
    let n = url.unicode_len();
    match rfind_char(url, '/') {
        Some(p) => {
            if p + 1 >= n {
                return None;
            }
            let rest = url.substring_char(p + 1, n);
            match find_char_from(rest, '?', 0) {
                Some(q) => {
                    proof {
                        assert(rest@.subrange(0, q as int) =~= rest@.take(q as int));
                    }
                    Some(String::from_str(rest.substring_char(0, q)))
                },
                None => {
                    proof {
                        assert(spec_find_char(rest@, '?', 0) == rest@.len());
                    }
                    Some(String::from_str(rest))
                },
            }
        },
        None => None,
    }
}

/// Whether a derived file name carries an extension, so that the archive
/// format can be recognized from it.
pub fn is_valid_filename_with_extension(file_name: &str) -> (r: bool)
    ensures
        r == (spec_extension(file_name@) is Some),
{
    match crate::paths::extension_of(file_name) {
        Some(_) => true,
        None => false,
    }
}

/// The file name under which downloaded bytes are stored: derived from the
/// request URL when that yields a name with an extension, else from the
/// final response URL's path, else nothing.
pub open spec fn spec_get_file_name(url: Seq<char>, response_url_path: Seq<char>) -> Option<
    Seq<char>,
> {
    let a = spec_extract_file_name(url);
    if a matches Some(n) && spec_extension(n) is Some {
        a
    } else {
        let b = spec_extract_file_name(response_url_path);
        if b matches Some(n) && spec_extension(n) is Some {
            b
        } else {
            None
        }
    }
}

/// Derives the stored file name for a download, trying the request URL
/// first and the final response URL second.
pub fn get_file_name(url: &str, response_url_path: &str) -> (r: Option<String>)
    ensures
        r matches Some(s) ==> spec_get_file_name(url@, response_url_path@) == Some(s@),
        r is None ==> spec_get_file_name(url@, response_url_path@) is None,
{
    match extract_file_name(url) {
        Some(name) => {
            if is_valid_filename_with_extension(name.as_str()) {
                return Some(name);
            }
            match extract_file_name(response_url_path) {
                Some(name2) => {
                    if is_valid_filename_with_extension(name2.as_str()) {
                        Some(name2)
                    } else {
                        None
                    }
                },
                None => None,
            }
        },
        None => {
            match extract_file_name(response_url_path) {
                Some(name2) => {
                    if is_valid_filename_with_extension(name2.as_str()) {
                        Some(name2)
                    } else {
                        None
                    }
                },
                None => None,
            }
        },
    }
}

/// The content of the file `path` written by one of these steps, if any.
pub open spec fn spec_find_file_data(steps: Seq<ExtractStepView>, path: Seq<char>) -> Option<
    Seq<u8>,
>
    decreases steps.len(),
{
    if steps.len() == 0 {
        None
    } else {
        match steps[0] {
            ExtractStepView::WriteFile { path: p, data } => if p == path {
                Some(data)
            } else {
                spec_find_file_data(steps.drop_first(), path)
            },
            _ => spec_find_file_data(steps.drop_first(), path),
        }
    }
}

/// The directory listing that faithfully performing these steps produces:
/// each directory made becomes a directory record carrying the content of
/// the `info.vdf` written directly inside it, if any, and each file written
/// becomes a file record, in step order.
pub open spec fn spec_listing_of_steps(
    all: Seq<ExtractStepView>,
    steps: Seq<ExtractStepView>,
) -> Seq<ListingEntryView>
    decreases steps.len(),
{
    if steps.len() == 0 {
        Seq::empty()
    } else {
        (match steps[0] {
            ExtractStepView::MakeDirectory { path } => seq![
                ListingEntryView::Directory {
                    path: path,
                    info_vdf: spec_find_file_data(all, spec_join(path, "info.vdf"@)),
                },
            ],
            ExtractStepView::WriteFile { path, data } => seq![
                ListingEntryView::File { path: path },
            ],
            _ => Seq::empty(),
        }) + spec_listing_of_steps(all, steps.drop_first())
    }
}

/// The listing an extraction plan realizes.
pub open spec fn spec_listing_of(steps: Seq<ExtractStepView>) -> Seq<ListingEntryView> {
    spec_listing_of_steps(steps, steps)
}

pub proof fn lemma_spec_listing_snoc(
    all: Seq<ExtractStepView>,
    steps: Seq<ExtractStepView>,
    s: ExtractStepView,
)
    ensures
        spec_listing_of_steps(all, steps.push(s)) == spec_listing_of_steps(all, steps) + (
        match s {
            ExtractStepView::MakeDirectory { path } => seq![
                ListingEntryView::Directory {
                    path: path,
                    info_vdf: spec_find_file_data(all, spec_join(path, "info.vdf"@)),
                },
            ],
            ExtractStepView::WriteFile { path, data } => seq![
                ListingEntryView::File { path: path },
            ],
            _ => Seq::<ListingEntryView>::empty(),
        }),
    decreases steps.len(),
{
    let tail_contrib = match s {
        ExtractStepView::MakeDirectory { path } => seq![
            ListingEntryView::Directory {
                path: path,
                info_vdf: spec_find_file_data(all, spec_join(path, "info.vdf"@)),
            },
        ],
        ExtractStepView::WriteFile { path, data } => seq![ListingEntryView::File { path: path }],
        _ => Seq::<ListingEntryView>::empty(),
    };
    if steps.len() == 0 {
        assert(steps.push(s)[0] == s);
        assert(steps.push(s).drop_first() =~= Seq::<ExtractStepView>::empty());
        assert(spec_listing_of_steps(all, steps.push(s).drop_first()) == Seq::<
            ListingEntryView,
        >::empty());
        assert(spec_listing_of_steps(all, steps.push(s)) == tail_contrib + Seq::<
            ListingEntryView,
        >::empty());
        assert(tail_contrib + Seq::<ListingEntryView>::empty() =~= tail_contrib);
        assert(spec_listing_of_steps(all, steps) + tail_contrib =~= tail_contrib);
    } else {
        assert(steps.push(s)[0] == steps[0]);
        assert(steps.push(s).drop_first() =~= steps.drop_first().push(s));
        lemma_spec_listing_snoc(all, steps.drop_first(), s);
        let head = match steps[0] {
            ExtractStepView::MakeDirectory { path } => seq![
                ListingEntryView::Directory {
                    path: path,
                    info_vdf: spec_find_file_data(all, spec_join(path, "info.vdf"@)),
                },
            ],
            ExtractStepView::WriteFile { path, data } => seq![
                ListingEntryView::File { path: path },
            ],
            _ => Seq::<ListingEntryView>::empty(),
        };
        assert(spec_listing_of_steps(all, steps.push(s)) == head + spec_listing_of_steps(
            all,
            steps.drop_first().push(s),
        ));
        assert(spec_listing_of_steps(all, steps) == head + spec_listing_of_steps(
            all,
            steps.drop_first(),
        ));
        assert(head + (spec_listing_of_steps(all, steps.drop_first()) + tail_contrib) =~= (head
            + spec_listing_of_steps(all, steps.drop_first())) + tail_contrib);
    }
}

/// The content of the file `path` among these steps, searched in order.
fn find_file_data(steps: &Vec<ExtractStep>, path: &str) -> (r: Option<Vec<u8>>)
    ensures
        r matches Some(v) ==> spec_find_file_data(
            steps@.map_values(|s: ExtractStep| s@),
            path@,
        ) == Some(v@),
        r is None ==> spec_find_file_data(steps@.map_values(|s: ExtractStep| s@), path@)
            is None,
{
    let ghost all = steps@.map_values(|s: ExtractStep| s@);
    let mut i: usize = 0;
    proof {
        assert(all.skip(0) =~= all);
    }
    while i < steps.len()
        invariant
            0 <= i <= steps@.len(),
            all == steps@.map_values(|s: ExtractStep| s@),
            spec_find_file_data(all, path@) == spec_find_file_data(all.skip(i as int), path@),
        decreases steps@.len() - i,
    {
        proof {
            assert(all.skip(i as int)[0] == all[i as int]);
        }
        match &steps[i] {
            ExtractStep::WriteFile { path: p, data } => {
                if crate::strutil::str_eq(p.as_str(), path) {
                    return Some(crate::strutil::bytes_subrange(data, 0, data.len()));
                }
            },
            _ => {},
        }
        proof {
            assert(all.skip(i as int).drop_first() =~= all.skip(i + 1));
        }
        i = i + 1;
    }
    proof {
        assert(all.skip(steps@.len() as int).len() == 0);
    }
    None
}

/// Flattens an extraction plan into the directory listing that performing
/// it produces, so the unit scanner can run without reading the tree back
/// from disk.
pub fn listing_of_extraction(extraction: &Extraction) -> (r: DirectoryListing)
    ensures
        r@ == spec_listing_of(extraction.steps_view()),
{
    let ghost all = extraction.steps_view();
    let mut entries: Vec<ListingEntry> = Vec::new();
    let mut i: usize = 0;
    proof {
        assert(all.take(0) =~= Seq::<ExtractStepView>::empty());
        assert(entries.deep_view() =~= spec_listing_of_steps(all, all.take(0)));
    }
    while i < extraction.steps.len()
        invariant
            0 <= i <= extraction.steps@.len(),
            all == extraction.steps_view(),
            entries.deep_view() == spec_listing_of_steps(all, all.take(i as int)),
        decreases extraction.steps@.len() - i,
    {
        let ghost prefix = all.take(i as int);
        let ghost old_entries = entries.deep_view();
        proof {
            assert(all[i as int] == extraction.steps@[i as int]@);
        }
        match &extraction.steps[i] {
            ExtractStep::MakeDirectory { path } => {
                let vdf_path = path_join(path.as_str(), "info.vdf");
                let info_vdf = find_file_data(&extraction.steps, vdf_path.as_str());
                entries.push(ListingEntry::Directory { path: path.clone(), info_vdf });
            },
            ExtractStep::WriteFile { path, data } => {
                entries.push(ListingEntry::File { path: path.clone() });
            },
            _ => {},
        }
        proof {
            lemma_spec_listing_snoc(all, prefix, all[i as int]);
            assert(prefix.push(all[i as int]) =~= all.take(i + 1));
            assert(entries.deep_view() =~= spec_listing_of_steps(all, all.take(i + 1)));
        }
        i = i + 1;
    }
    proof {
        assert(all.take(extraction.steps@.len() as int) =~= all);
    }
    DirectoryListing { entries }
}

/// Resolves an in-memory ZIP archive into a package: extracts it as a plan
/// for `working_directory`, scans the planned tree, and returns the package
/// together with the plan the caller must perform before deploying.
pub fn open_zip_package(
    archive_file_path: &String,
    archive_bytes: &Vec<u8>,
    working_directory: &String,
) -> (r: Result<(Package, Extraction), FetchError>)
    ensures
        r matches Ok(pe) ==> ({
            &&& zip_parses(archive_bytes@)
            &&& spec_zip_root_ok(zip_names_of(archive_bytes@))
            &&& pe.1.root@ == spec_zip_root(working_directory@, zip_names_of(archive_bytes@))
            &&& pe.1.steps_view() == spec_zip_steps(
                working_directory@,
                zip_names_of(archive_bytes@),
                zip_datas_of(archive_bytes@),
            )
            &&& pe.0.root_directory@ == pe.1.root@
            &&& pe.0.entries_view() == spec_scan(
                pe.1.root@,
                spec_listing_of(pe.1.steps_view()),
            )
        }),
        !zip_parses(archive_bytes@) ==> r is Err,
        zip_parses(archive_bytes@) && !spec_zip_root_ok(zip_names_of(archive_bytes@)) ==> r
            is Err,
        zip_parses(archive_bytes@) && zip_reads(archive_bytes@) && spec_zip_root_ok(
            zip_names_of(archive_bytes@),
        ) ==> r is Ok,
        r matches Err(e) ==> e is ExtractionFailed,
{
    let extraction = match extract_zip(
        archive_file_path.as_str(),
        archive_bytes,
        working_directory.as_str(),
    ) {
        Ok(e) => e,
        Err(err) => {
            return Err(FetchError::ExtractionFailed(err));
        },
    };
    let listing = listing_of_extraction(&extraction);
    let root = extraction.root.clone();
    match Package::open(root, &listing) {
        Ok(package) => Ok((package, extraction)),
        Err(err) => Err(FetchError::InvalidPackage(err)),
    }
}


/// Resolving a ZIP archive that holds exactly one top-level directory with a
/// metadata file declaring the name `nm` yields exactly one unit: a
/// directory unit named `nm`, at the content root, whose path ends in the
/// directory's own name.
pub proof fn lemma_zip_single_unit_resolution(
    dest: Seq<char>,
    dname: Seq<char>,
    content: Seq<u8>,
    nm: Seq<u8>,
    names: Seq<Seq<char>>,
    datas: Seq<Seq<u8>>,
)
    requires
        names.len() == 2,
        datas.len() == 2,
        names[0] == dname + seq!['/'],
        names[1] == dname + seq!['/'] + "info.vdf"@,
        datas[1] == content,
        dname.len() > 0,
        dname != seq!['.', '.'],
        forall|i: int|
            0 <= i < dname.len() ==> (#[trigger] dname[i]) != '/' && dname[i] != '\\' && dname[i]
                != ':' && dname[i] != '\u{0}',
        crate::vdf::spec_parse_hud_name(content) == Some(nm),
    ensures
        spec_zip_root_ok(names),
        ({
            let root = spec_zip_root(dest, names);
            let scanned = spec_scan(root, spec_listing_of(spec_zip_steps(dest, names, datas)));
            &&& scanned.len() == 1
            &&& scanned[0].name == nm
            &&& scanned[0].shape == crate::package::UnitShape::Directory
            &&& scanned[0].path == root
            &&& root.len() > dname.len()
            &&& root.subrange(root.len() - dname.len(), root.len() as int) == dname
        }),
{
    reveal_strlit("info.vdf");
    reveal_strlit("vpk");
    let vdf = "info.vdf"@;
    assert(vdf.len() == 8);
    let n0 = names[0];
    let n1 = names[1];

    // names[0] is a safe relative path naming a directory.
    assert(n0.len() == dname.len() + 1);
    assert(n0[n0.len() - 1] == '/');
    assert(n0[0] == dname[0]);
    assert forall|i: int| 0 <= i < n0.len() implies n0[i] != '\\' && n0[i] != ':' && n0[i]
        != '\u{0}' by {
        if i < dname.len() {
            assert(n0[i] == dname[i]);
        } else {
            assert(n0[i] == '/');
        }
    }
    assert forall|i: int| 0 <= i && i + 2 <= n0.len() implies !((#[trigger] n0[i]) == '.' && n0[i
        + 1] == '.' && (i == 0 || n0[i - 1] == '/') && (i + 2 == n0.len() || n0[i + 2] == '/'))
        by {
        if n0[i] == '.' && n0[i + 1] == '.' {
            assert(i + 1 < dname.len());
            assert(n0[i] == dname[i] && n0[i + 1] == dname[i + 1]);
            if i == 0 {
                assert(i + 2 < n0.len());
                if n0[i + 2] == '/' {
                    assert(i + 2 == dname.len());
                    assert(dname =~= seq!['.', '.']);
                    assert(false);
                }
            } else {
                assert(n0[i - 1] == dname[i - 1]);
                assert(n0[i - 1] != '/');
            }
        }
    }
    assert(!crate::paths::has_dotdot_component(n0));
    assert(crate::paths::spec_safe_relative_path(n0));
    assert(spec_zip_root_ok(names));

    // names[1] is a safe relative path naming a file.
    assert(n1.len() == dname.len() + 1 + 8);
    assert forall|j: int| 0 <= j < 8 implies vdf[j] != '\\' && vdf[j] != ':' && vdf[j]
        != '\u{0}' && vdf[j] != '/' by {}
    assert forall|i: int| 0 <= i < n1.len() implies n1[i] != '\\' && n1[i] != ':' && n1[i]
        != '\u{0}' by {
        if i < dname.len() {
            assert(n1[i] == dname[i]);
        } else if i == dname.len() {
            assert(n1[i] == '/');
        } else {
            assert(n1[i] == vdf[i - dname.len() - 1]);
        }
    }
    assert(n1[0] == dname[0]);
    assert forall|i: int| 0 <= i && i + 2 <= n1.len() implies !((#[trigger] n1[i]) == '.' && n1[i
        + 1] == '.' && (i == 0 || n1[i - 1] == '/') && (i + 2 == n1.len() || n1[i + 2] == '/'))
        by {
        if n1[i] == '.' && n1[i + 1] == '.' {
            if i + 1 < dname.len() {
                assert(n1[i] == dname[i] && n1[i + 1] == dname[i + 1]);
                if i == 0 {
                    if i + 2 == n1.len() {
                        assert(false);
                    } else if n1[i + 2] == '/' {
                        assert(i + 2 <= dname.len());
                        if i + 2 < dname.len() {
                            assert(n1[i + 2] == dname[i + 2]);
                            assert(false);
                        } else {
                            assert(dname =~= seq!['.', '.']);
                            assert(false);
                        }
                    }
                } else {
                    assert(n1[i - 1] == dname[i - 1]);
                    assert(n1[i - 1] != '/');
                }
            } else if i < dname.len() {
                assert(n1[i + 1] == '/');
                assert(false);
            } else if i == dname.len() {
                assert(n1[i] == '/');
                assert(false);
            } else {
                assert(n1[i] == vdf[i - dname.len() - 1]);
                assert(n1[i + 1] == vdf[i - dname.len()]);
                assert(false);
            }
        }
    }
    assert(!crate::paths::has_dotdot_component(n1));
    assert(crate::paths::spec_safe_relative_path(n1));
    assert(n1[n1.len() - 1] == vdf[7]);
    assert(n1[n1.len() - 1] != '/');

    // The plan: make the root directory, then write the metadata file.
    let root = spec_zip_root(dest, names);
    assert(spec_strip_trailing_slash(n0) =~= dname);
    assert(root == spec_join(dest, dname));
    let fpath = spec_join(dest, n1);
    let step0 = ExtractStepView::MakeDirectory { path: root };
    let step1 = ExtractStepView::WriteFile { path: fpath, data: content };
    let steps = spec_zip_steps(dest, names, datas);
    assert(names.drop_first() =~= seq![n1]);
    assert(datas.drop_first() =~= seq![content]);
    assert(seq![n1][0] == n1 && seq![content][0] == content);
    assert(seq![n1].drop_first() =~= Seq::<Seq<char>>::empty());
    assert(seq![content].drop_first() =~= Seq::<Seq<u8>>::empty());
    assert(spec_zip_steps(dest, Seq::<Seq<char>>::empty(), Seq::<Seq<u8>>::empty()) == Seq::<
        ExtractStepView,
    >::empty());
    assert(spec_zip_steps(dest, seq![n1], seq![content]) =~= seq![step1]);
    assert(steps =~= seq![step0] + spec_zip_steps(dest, names.drop_first(), datas.drop_first()));
    assert(steps =~= seq![step0, step1]);
    assert(steps[0] == step0 && steps[1] == step1 && steps.len() == 2);

    // The file lands directly inside the root directory.
    assert(root.len() > 0 && root[root.len() - 1] == dname[dname.len() - 1]) by {
        if dest.len() > 0 && dest[dest.len() - 1] == '/' {
            assert(root =~= dest + dname);
        } else {
            assert(root =~= dest + seq!['/'] + dname);
        }
    }
    assert(root[root.len() - 1] != '/');
    assert(spec_join(root, vdf) =~= fpath) by {
        if dest.len() > 0 && dest[dest.len() - 1] == '/' {
            assert(root =~= dest + dname);
            assert(spec_join(root, vdf) =~= (dest + dname) + seq!['/'] + vdf);
            assert(fpath =~= dest + (dname + seq!['/'] + vdf));
        } else {
            assert(root =~= dest + seq!['/'] + dname);
            assert(spec_join(root, vdf) =~= (dest + seq!['/'] + dname) + seq!['/'] + vdf);
            assert(fpath =~= dest + seq!['/'] + (dname + seq!['/'] + vdf));
        }
    }

    // The listing the plan realizes: the root directory, holding the
    // metadata file's content, then the file record.
    assert(spec_find_file_data(seq![step1], fpath) == Some(content));
    assert(steps.drop_first() =~= seq![step1]);
    assert(spec_find_file_data(steps, fpath) == Some(content));
    assert(spec_find_file_data(steps, spec_join(root, vdf)) == Some(content));
    let le0 = ListingEntryView::Directory { path: root, info_vdf: Some(content) };
    let le1 = ListingEntryView::File { path: fpath };
    let listing = spec_listing_of(steps);
    assert(spec_listing_of_steps(steps, Seq::<ExtractStepView>::empty()) == Seq::<
        ListingEntryView,
    >::empty());
    assert(seq![step1].drop_first() =~= Seq::<ExtractStepView>::empty());
    assert(spec_listing_of_steps(steps, seq![step1]) =~= seq![le1]);
    assert(listing =~= seq![le0] + spec_listing_of_steps(steps, steps.drop_first()));
    assert(listing =~= seq![le0, le1]);
    assert(listing[0] == le0 && listing[1] == le1 && listing.len() == 2);

    // Scanning the listing: the directory is a unit named by its metadata;
    // the metadata file itself is no packaged single file, so it is skipped.
    assert forall|j: int| 0 <= j < 8 implies vdf[j] != 'p' by {}
    assert(spec_extension(spec_basename(fpath)) != Some("vpk"@)) by {
        crate::strutil::lemma_rfind_concat(root, vdf, '/');
        assert(spec_rfind_char(fpath, '/') == root.len());
        assert(spec_basename(fpath) =~= vdf);
        if spec_extension(vdf) is Some {
            let e = spec_extension(vdf)->Some_0;
            crate::strutil::lemma_rfind_char_bounds(vdf, '.');
            let d = spec_rfind_char(vdf, '.');
            if e == "vpk"@ {
                assert("vpk"@.len() == 3);
                assert(e.len() == 8 - d - 1);
                assert(d == 4);
                assert(e[1] == vdf[6]);
                assert("vpk"@[1] == 'p');
                assert(false);
            }
        }
    }
    let unit = crate::package::PackageEntryView {
        path: root,
        name: nm,
        shape: crate::package::UnitShape::Directory,
    };
    assert(spec_scan_entry(root, le0) == Some(unit));
    assert(spec_scan_entry(root, le1) is None);
    let scanned = spec_scan(root, listing);
    assert(spec_scan(root, Seq::<ListingEntryView>::empty()) == Seq::<
        crate::package::PackageEntryView,
    >::empty());
    assert(seq![le1].drop_first() =~= Seq::<ListingEntryView>::empty());
    assert(spec_scan(root, seq![le1]) =~= Seq::<crate::package::PackageEntryView>::empty());
    assert(listing.drop_first() =~= seq![le1]);
    assert(scanned =~= seq![unit] + spec_scan(root, listing.drop_first()));
    assert(scanned =~= seq![unit]);

    // The root path ends in the directory's name.
    assert(root.subrange(root.len() - dname.len(), root.len() as int) =~= dname) by {
        if dest.len() > 0 && dest[dest.len() - 1] == '/' {
            assert(root =~= dest + dname);
        } else {
            assert(root =~= dest + seq!['/'] + dname);
        }
    }
}

} // verus!
