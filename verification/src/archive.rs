//! Decoding one archive file into a destination directory, described as a
//! plan of plain filesystem steps rather than performed directly.
//!
//! Dispatch is by the archive file's extension. For a ZIP archive the entry
//! list is read here (the bytes are already in memory) and every entry
//! becomes one step: directories are created, files are written at their
//! stored relative path, and any entry whose name is not a safe relative
//! path is skipped, which keeps hostile archives from reaching outside the
//! destination. The content root of a ZIP archive is its first entry, which
//! must be a directory; an archive violating that convention is rejected
//! rather than guessed at. For the 7z and RAR formats the whole archive is
//! decompressed into the destination by the respective decoder, and the
//! content root is the destination directory itself.

use vstd::prelude::*;
use crate::strutil::{spec_join, spec_strip_trailing_slash, path_join, strip_trailing_slash};
use crate::paths::{
    spec_safe_relative_path, is_safe_relative_path, spec_extension, spec_basename, spec_parent,
    extension_of, basename, parent_of,
};

verus! {

/// Why an archive could not be extracted.
#[derive(Debug)]
pub enum ArchiveError {
    /// The file's extension names no supported format; carries the archive
    /// path.
    UnsupportedArchiveType(String),
    /// The archive could not be read or violates the expected layout;
    /// carries the archive path and the decoder's message.
    ReadFailed { path: String, detail: String },
    CreateDirectoryFailed { path: String, detail: String },
    CreateFileFailed { path: String, detail: String },
    CopyFileFailed { path: String, detail: String },
}

/// Why the single-root extraction (`extract`) failed.
#[derive(Debug)]
pub enum ExtractError {
    UnsupportedArchiveType(String),
    UnzipFailed { detail: String },
    IoError { detail: String },
    /// The archive holds no `info.vdf` file, so no content root exists.
    NoInfoFileFound,
}

/// One filesystem action of an extraction plan.
#[derive(Debug)]
pub enum ExtractStep {
    MakeDirectory { path: String },
    WriteFile { path: String, data: Vec<u8> },
    DecompressSevenZ { archive_file: String, destination: String },
    DecompressRar { archive_file: String, destination: String },
}

/// The mathematical image of an [`ExtractStep`].
pub enum ExtractStepView {
    MakeDirectory { path: Seq<char> },
    WriteFile { path: Seq<char>, data: Seq<u8> },
    DecompressSevenZ { archive_file: Seq<char>, destination: Seq<char> },
    DecompressRar { archive_file: Seq<char>, destination: Seq<char> },
}

impl View for ExtractStep {
    type V = ExtractStepView;

    open spec fn view(&self) -> ExtractStepView {
        match self {
            ExtractStep::MakeDirectory { path } => ExtractStepView::MakeDirectory { path: path@ },
            ExtractStep::WriteFile { path, data } => ExtractStepView::WriteFile {
                path: path@,
                data: data@,
            },
            ExtractStep::DecompressSevenZ { archive_file, destination } => ExtractStepView::DecompressSevenZ {
                archive_file: archive_file@,
                destination: destination@,
            },
            ExtractStep::DecompressRar { archive_file, destination } => ExtractStepView::DecompressRar {
                archive_file: archive_file@,
                destination: destination@,
            },
        }
    }
}

/// An extraction described as data: the content root the caller should scan,
/// and the steps that realize the extracted tree, in order.
#[derive(Debug)]
pub struct Extraction {
    pub root: String,
    pub steps: Vec<ExtractStep>,
}

impl Extraction {
    pub open spec fn steps_view(&self) -> Seq<ExtractStepView> {
        self.steps@.map_values(|s: ExtractStep| s@)
    }
}

#[verifier::external_type_specification]
#[verifier::external_body]
#[verifier::reject_recursive_types(R)]
pub struct ExZipArchive<R>(zip::read::ZipArchive<R>);

#[verifier::external_type_specification]
#[verifier::external_body]
pub struct ExZipError(zip::result::ZipError);

#[verifier::external_type_specification]
#[verifier::external_body]
#[verifier::reject_recursive_types(T)]
pub struct ExCursor<T>(std::io::Cursor<T>);

/// Whether the ZIP central directory of these bytes parses.
pub uninterp spec fn zip_parses(bytes: Seq<u8>) -> bool;

/// The entry names a parsed ZIP archive of these bytes holds, in entry order.
pub uninterp spec fn zip_names_of(bytes: Seq<u8>) -> Seq<Seq<char>>;

/// The decompressed contents of each entry, in the same order.
pub uninterp spec fn zip_datas_of(bytes: Seq<u8>) -> Seq<Seq<u8>>;

/// The entry names an open archive value holds.
pub uninterp spec fn zip_entry_names(a: zip::read::ZipArchive<std::io::Cursor<Vec<u8>>>) -> Seq<
    Seq<char>,
>;

/// The decompressed entry contents an open archive value holds.
pub uninterp spec fn zip_entry_datas(a: zip::read::ZipArchive<std::io::Cursor<Vec<u8>>>) -> Seq<
    Seq<u8>,
>;

/// Every entry of a parsed archive of these bytes decompresses.
pub uninterp spec fn zip_reads(bytes: Seq<u8>) -> bool;

/// Entry `i` of this open archive decompresses.
pub uninterp spec fn zip_entry_ok(
    a: zip::read::ZipArchive<std::io::Cursor<Vec<u8>>>,
    i: int,
) -> bool;

/// Relies on `zip::ZipArchive::new`: parsing the central directory of an
/// in-memory ZIP archive is a pure function of the bytes; on success the
/// archive value holds one name and one content per entry, and the whole
/// archive decompresses exactly when each of its entries does.
#[verifier::external_body]
fn zip_open(bytes: &Vec<u8>) -> (r: Result<
    zip::read::ZipArchive<std::io::Cursor<Vec<u8>>>,
    zip::result::ZipError,
>)
    ensures
        r is Ok == zip_parses(bytes@),
        r matches Ok(a) ==> zip_entry_names(a) == zip_names_of(bytes@) && zip_entry_datas(a)
            == zip_datas_of(bytes@) && zip_entry_names(a).len() == zip_entry_datas(a).len(),
        r matches Ok(a) ==> (zip_reads(bytes@) <==> (forall|i: int|
            0 <= i < zip_entry_names(a).len() ==> #[trigger] zip_entry_ok(a, i))),
{
    zip::read::ZipArchive::new(std::io::Cursor::new(bytes.clone()))
}

/// Relies on `zip::ZipArchive::len`: the number of entries in the archive.
#[verifier::external_body]
fn zip_len(a: &zip::read::ZipArchive<std::io::Cursor<Vec<u8>>>) -> (n: usize)
    ensures
        n == zip_entry_names(*a).len(),
{
    a.len()
}

/// Relies on `zip::ZipArchive::name_for_index`: the stored name of entry `i`,
/// present for every index below `len`.
#[verifier::external_body]
fn zip_name(a: &zip::read::ZipArchive<std::io::Cursor<Vec<u8>>>, i: usize) -> (r: Option<String>)
    requires
        i < zip_entry_names(*a).len(),
    ensures
        r is Some,
        r matches Some(s) ==> s@ == zip_entry_names(*a)[i as int],
{
    a.name_for_index(i).map(|s| s.to_string())
}

/// Relies on `zip::ZipArchive::by_index` and `std::io::Read::read_to_end`:
/// the decompressed contents of entry `i`; an entry that decompresses is
/// returned, never refused, and reading moves only the archive's cursor,
/// leaving its directory and each entry's readability unchanged.
#[verifier::external_body]
fn zip_data(a: &mut zip::read::ZipArchive<std::io::Cursor<Vec<u8>>>, i: usize) -> (r: Result<
    Vec<u8>,
    zip::result::ZipError,
>)
    requires
        i < zip_entry_names(*old(a)).len(),
    ensures
        zip_entry_names(*final(a)) == zip_entry_names(*old(a)),
        zip_entry_datas(*final(a)) == zip_entry_datas(*old(a)),
        r matches Ok(v) ==> v@ == zip_entry_datas(*old(a))[i as int],
        zip_entry_ok(*old(a), i as int) ==> r is Ok,
        forall|j: int| #[trigger] zip_entry_ok(*final(a), j) == zip_entry_ok(*old(a), j),
{
    let mut file = a.by_index(i)?;
    let mut buf: Vec<u8> = Vec::new();
    std::io::Read::read_to_end(&mut file, &mut buf).map_err(zip::result::ZipError::Io)?;
    Ok(buf)
}

/// Relies on `ZipError`'s `Display` impl for the error's text.
#[verifier::external_body]
fn zip_error_text(e: &zip::result::ZipError) -> (r: String) {
    format!("{}", e)
}

/// The step one ZIP entry contributes: unsafe names are skipped, a name
/// ending in `/` creates a directory, any other name writes a file.
pub open spec fn spec_zip_step(dest: Seq<char>, name: Seq<char>, data: Seq<u8>) -> Option<
    ExtractStepView,
> {
    if !spec_safe_relative_path(name) {
        None
    } else if name[name.len() - 1] == '/' {
        Some(
            ExtractStepView::MakeDirectory {
                path: spec_join(dest, spec_strip_trailing_slash(name)),
            },
        )
    } else {
        Some(ExtractStepView::WriteFile { path: spec_join(dest, name), data })
    }
}

/// The steps of a whole ZIP entry list, in entry order.
pub open spec fn spec_zip_steps(
    dest: Seq<char>,
    names: Seq<Seq<char>>,
    datas: Seq<Seq<u8>>,
) -> Seq<ExtractStepView>
    decreases names.len(),
{
    if names.len() == 0 {
        Seq::empty()
    } else {
        (match spec_zip_step(dest, names[0], datas[0]) {
            Some(s) => seq![s],
            None => Seq::empty(),
        }) + spec_zip_steps(dest, names.drop_first(), datas.drop_first())
    }
}

/// The first entry names a directory that can serve as the content root.
pub open spec fn spec_zip_root_ok(names: Seq<Seq<char>>) -> bool {
    &&& names.len() > 0
    &&& spec_safe_relative_path(names[0])
    &&& names[0][names[0].len() - 1] == '/'
}

/// The content root of a ZIP archive under the single-top-folder convention.
pub open spec fn spec_zip_root(dest: Seq<char>, names: Seq<Seq<char>>) -> Seq<char> {
    spec_join(dest, spec_strip_trailing_slash(names[0]))
}

pub proof fn lemma_spec_zip_steps_snoc(
    dest: Seq<char>,
    names: Seq<Seq<char>>,
    datas: Seq<Seq<u8>>,
    name: Seq<char>,
    data: Seq<u8>,
)
    requires
        names.len() == datas.len(),
    ensures
        spec_zip_steps(dest, names.push(name), datas.push(data)) == spec_zip_steps(
            dest,
            names,
            datas,
        ) + (match spec_zip_step(dest, name, data) {
            Some(s) => seq![s],
            None => Seq::<ExtractStepView>::empty(),
        }),
    decreases names.len(),
{
    let tail_contrib = match spec_zip_step(dest, name, data) {
        Some(s) => seq![s],
        None => Seq::<ExtractStepView>::empty(),
    };
    if names.len() == 0 {
        assert(names.push(name)[0] == name);
        assert(datas.push(data)[0] == data);
        assert(names.push(name).drop_first() =~= Seq::<Seq<char>>::empty());
        assert(datas.push(data).drop_first() =~= Seq::<Seq<u8>>::empty());
        assert(spec_zip_steps(
            dest,
            names.push(name).drop_first(),
            datas.push(data).drop_first(),
        ) == Seq::<ExtractStepView>::empty());
        assert(spec_zip_steps(dest, names.push(name), datas.push(data)) == tail_contrib + Seq::<
            ExtractStepView,
        >::empty());
        assert(tail_contrib + Seq::<ExtractStepView>::empty() =~= tail_contrib);
        assert(spec_zip_steps(dest, names, datas) + tail_contrib =~= tail_contrib);
    } else {
        assert(names.push(name)[0] == names[0]);
        assert(datas.push(data)[0] == datas[0]);
        assert(names.push(name).drop_first() =~= names.drop_first().push(name));
        assert(datas.push(data).drop_first() =~= datas.drop_first().push(data));
        lemma_spec_zip_steps_snoc(dest, names.drop_first(), datas.drop_first(), name, data);
        let head = match spec_zip_step(dest, names[0], datas[0]) {
            Some(s) => seq![s],
            None => Seq::<ExtractStepView>::empty(),
        };
        assert(spec_zip_steps(dest, names.push(name), datas.push(data)) == head + spec_zip_steps(
            dest,
            names.drop_first().push(name),
            datas.drop_first().push(data),
        ));
        assert(head + (spec_zip_steps(dest, names.drop_first(), datas.drop_first()) + tail_contrib)
            =~= (head + spec_zip_steps(dest, names.drop_first(), datas.drop_first()))
            + tail_contrib);
    }
}

/// Builds the steps for a ZIP entry list.
fn build_zip_steps(
    destination_directory: &str,
    entry_names: &Vec<String>,
    entry_datas: &Vec<Vec<u8>>,
) -> (r: Vec<ExtractStep>)
    requires
        entry_names@.len() == entry_datas@.len(),
    ensures
        r@.map_values(|s: ExtractStep| s@) == spec_zip_steps(
            destination_directory@,
            entry_names.deep_view(),
            entry_datas.deep_view(),
        ),
{
    let mut out: Vec<ExtractStep> = Vec::new();
    let mut i: usize = 0;
    proof {
        assert(entry_names.deep_view().take(0) =~= Seq::<Seq<char>>::empty());
        assert(out@.map_values(|s: ExtractStep| s@) =~= spec_zip_steps(
            destination_directory@,
            entry_names.deep_view().take(0),
            entry_datas.deep_view().take(0),
        ));
    }
    while i < entry_names.len()
        invariant
            0 <= i <= entry_names@.len(),
            entry_names@.len() == entry_datas@.len(),
            out@.map_values(|s: ExtractStep| s@) == spec_zip_steps(
                destination_directory@,
                entry_names.deep_view().take(i as int),
                entry_datas.deep_view().take(i as int),
            ),
        decreases entry_names@.len() - i,
    {
        let ghost names_prefix = entry_names.deep_view().take(i as int);
        let ghost datas_prefix = entry_datas.deep_view().take(i as int);
        let name = &entry_names[i];
        proof {
            assert(entry_names.deep_view()[i as int] == entry_names@[i as int]@);
            assert(entry_datas.deep_view()[i as int] == entry_datas@[i as int]@);
        }
        if is_safe_relative_path(name.as_str()) {
            if crate::strutil::ends_with_char(name.as_str(), '/') {
                let dir = strip_trailing_slash(name.as_str());
                out.push(
                    ExtractStep::MakeDirectory {
                        path: path_join(destination_directory, dir),
                    },
                );
            } else {
                let data = crate::strutil::bytes_subrange(
                    &entry_datas[i],
                    0,
                    entry_datas[i].len(),
                );
                proof {
                    assert(data@ =~= entry_datas@[i as int]@);
                }
                out.push(
                    ExtractStep::WriteFile {
                        path: path_join(destination_directory, name.as_str()),
                        data,
                    },
                );
            }
        }
        proof {
            lemma_spec_zip_steps_snoc(
                destination_directory@,
                names_prefix,
                datas_prefix,
                entry_names.deep_view()[i as int],
                entry_datas.deep_view()[i as int],
            );
            assert(names_prefix.push(entry_names.deep_view()[i as int])
                =~= entry_names.deep_view().take(i + 1));
            assert(datas_prefix.push(entry_datas.deep_view()[i as int])
                =~= entry_datas.deep_view().take(i + 1));
            assert(out@.map_values(|s: ExtractStep| s@) =~= spec_zip_steps(
                destination_directory@,
                entry_names.deep_view().take(i + 1),
                entry_datas.deep_view().take(i + 1),
            ));
        }
        i = i + 1;
    }
    proof {
        assert(entry_names.deep_view().take(entry_names@.len() as int)
            =~= entry_names.deep_view());
        assert(entry_datas.deep_view().take(entry_datas@.len() as int)
            =~= entry_datas.deep_view());
    }
    out
}

/// Reads the full entry list of an in-memory ZIP archive. `Err` carries the
/// decoder's message.
fn read_zip_entries(archive_bytes: &Vec<u8>) -> (r: Result<(Vec<String>, Vec<Vec<u8>>), String>)
    ensures
        r matches Ok(nd) ==> zip_parses(archive_bytes@) && nd.0.deep_view() == zip_names_of(
            archive_bytes@,
        ) && nd.1.deep_view() == zip_datas_of(archive_bytes@) && nd.0@.len() == nd.1@.len(),
        !zip_parses(archive_bytes@) ==> r is Err,
        zip_parses(archive_bytes@) && zip_reads(archive_bytes@) ==> r is Ok,
{
    let mut archive = match zip_open(archive_bytes) {
        Ok(a) => a,
        Err(e) => {
            return Err(zip_error_text(&e));
        },
    };
    let n = zip_len(&archive);
    let mut names: Vec<String> = Vec::new();
    let mut i: usize = 0;
    while i < n
        invariant
            0 <= i <= n,
            n == zip_entry_names(archive).len(),
            zip_entry_names(archive) == zip_names_of(archive_bytes@),
            zip_entry_datas(archive) == zip_datas_of(archive_bytes@),
            zip_entry_names(archive).len() == zip_entry_datas(archive).len(),
            zip_parses(archive_bytes@),
            zip_reads(archive_bytes@) <==> (forall|k: int|
                0 <= k < n ==> #[trigger] zip_entry_ok(archive, k)),
            names@.len() == i,
            names.deep_view() =~= zip_names_of(archive_bytes@).take(i as int),
        decreases n - i,
    {
        let ghost old_names = names@;
        match zip_name(&archive, i) {
            Some(s) => {
                names.push(s);
            },
            None => {
                return Err(String::new());
            },
        }
        proof {
            assert(names@.len() == i + 1);
            assert forall|k: int| 0 <= k < i + 1 implies names.deep_view()[k] == zip_names_of(
                archive_bytes@,
            ).take(i + 1)[k] by {
                if k < i {
                    assert(names@[k] == old_names[k]);
                    assert(old_names[k].deep_view() == zip_names_of(archive_bytes@).take(
                        i as int,
                    )[k]);
                }
            }
            assert(names.deep_view() =~= zip_names_of(archive_bytes@).take(i + 1));
        }
        i = i + 1;
    }
    proof {
        assert(zip_names_of(archive_bytes@).take(n as int) =~= zip_names_of(archive_bytes@));
    }
    let mut datas: Vec<Vec<u8>> = Vec::new();
    let mut j: usize = 0;
    while j < n
        invariant
            0 <= j <= n,
            n == zip_entry_names(archive).len(),
            zip_entry_names(archive) == zip_names_of(archive_bytes@),
            zip_entry_datas(archive) == zip_datas_of(archive_bytes@),
            zip_entry_names(archive).len() == zip_entry_datas(archive).len(),
            zip_parses(archive_bytes@),
            zip_reads(archive_bytes@) <==> (forall|k: int|
                0 <= k < n ==> #[trigger] zip_entry_ok(archive, k)),
            names.deep_view() == zip_names_of(archive_bytes@),
            names@.len() == n,
            datas@.len() == j,
            datas.deep_view() =~= zip_datas_of(archive_bytes@).take(j as int),
        decreases n - j,
    {
        let ghost old_datas = datas@;
        let ghost old_archive = archive;
        match zip_data(&mut archive, j) {
            Ok(d) => {
                datas.push(d);
            },
            Err(e) => {
                // A readable archive cannot reach this arm: entry `j` of a
                // readable archive decompresses, so the call returns `Ok`.
                assert(zip_reads(archive_bytes@) ==> zip_entry_ok(old_archive, j as int));
                return Err(zip_error_text(&e));
            },
        }
        proof {
            if zip_reads(archive_bytes@) {
                assert forall|k: int| 0 <= k < n implies #[trigger] zip_entry_ok(archive, k) by {
                    assert(zip_entry_ok(old_archive, k));
                }
            } else {
                let bad = choose|k: int| 0 <= k < n && !(#[trigger] zip_entry_ok(old_archive, k));
                assert(!zip_entry_ok(archive, bad));
            }
        }
        proof {
            assert(datas@.len() == j + 1);
            assert forall|k: int| 0 <= k < j + 1 implies datas.deep_view()[k] == zip_datas_of(
                archive_bytes@,
            ).take(j + 1)[k] by {
                if k < j {
                    assert(datas@[k] == old_datas[k]);
                    assert(old_datas[k].deep_view() == zip_datas_of(archive_bytes@).take(
                        j as int,
                    )[k]);
                }
            }
            assert(datas.deep_view() =~= zip_datas_of(archive_bytes@).take(j + 1));
        }
        j = j + 1;
    }
    proof {
        assert(zip_datas_of(archive_bytes@).take(n as int) =~= zip_datas_of(archive_bytes@));
    }
    Ok((names, datas))
}

/// Plans the extraction of a ZIP archive from its entry list alone. Succeeds
/// exactly when the first entry is a directory with a safe name, the content
/// root; the plan then holds one step per safely named entry.
pub fn plan_zip_extraction(
    archive_file_path: &str,
    entry_names: &Vec<String>,
    entry_datas: &Vec<Vec<u8>>,
    destination_directory: &str,
) -> (r: Result<Extraction, ArchiveError>)
    requires
        entry_names@.len() == entry_datas@.len(),
    ensures
        r is Ok <==> spec_zip_root_ok(entry_names.deep_view()),
        r matches Ok(e) ==> e.root@ == spec_zip_root(
            destination_directory@,
            entry_names.deep_view(),
        ) && e.steps_view() == spec_zip_steps(
            destination_directory@,
            entry_names.deep_view(),
            entry_datas.deep_view(),
        ),
        r matches Err(e) ==> e matches ArchiveError::ReadFailed { path, .. } && path@
            == archive_file_path@,
{
    if entry_names.len() == 0 {
        return Err(
            ArchiveError::ReadFailed {
                path: String::from_str(archive_file_path),
                detail: String::from_str("the archive is empty"),
            },
        );
    }
    let first = &entry_names[0];
    proof {
        assert(entry_names.deep_view()[0] == entry_names@[0]@);
    }
    if !is_safe_relative_path(first.as_str()) || !crate::strutil::ends_with_char(
        first.as_str(),
        '/',
    ) {
        return Err(
            ArchiveError::ReadFailed {
                path: String::from_str(archive_file_path),
                detail: String::from_str(
                    "the first entry of the archive is not a top-level directory",
                ),
            },
        );
    }
    let root = path_join(destination_directory, strip_trailing_slash(first.as_str()));
    let steps = build_zip_steps(destination_directory, entry_names, entry_datas);
    Ok(Extraction { root, steps })
}

/// Extracts a ZIP archive held in memory into a plan for
/// `destination_directory`.
pub fn extract_zip(
    archive_file_path: &str,
    archive_bytes: &Vec<u8>,
    destination_directory: &str,
) -> (r: Result<Extraction, ArchiveError>)
    ensures
        r matches Ok(e) ==> zip_parses(archive_bytes@) && spec_zip_root_ok(
            zip_names_of(archive_bytes@),
        ) && e.root@ == spec_zip_root(destination_directory@, zip_names_of(archive_bytes@))
            && e.steps_view() == spec_zip_steps(
            destination_directory@,
            zip_names_of(archive_bytes@),
            zip_datas_of(archive_bytes@),
        ),
        !zip_parses(archive_bytes@) ==> r is Err,
        zip_parses(archive_bytes@) && !spec_zip_root_ok(zip_names_of(archive_bytes@)) ==> r
            is Err,
        zip_parses(archive_bytes@) && zip_reads(archive_bytes@) && spec_zip_root_ok(
            zip_names_of(archive_bytes@),
        ) ==> r is Ok,
        r matches Err(e) ==> e matches ArchiveError::ReadFailed { path, .. } && path@
            == archive_file_path@,
{
    match read_zip_entries(archive_bytes) {
        Ok((names, datas)) => plan_zip_extraction(
            archive_file_path,
            &names,
            &datas,
            destination_directory,
        ),
        Err(detail) => Err(
            ArchiveError::ReadFailed { path: String::from_str(archive_file_path), detail },
        ),
    }
}

/// Extracts one archive file into `destination_directory`, dispatching on the
/// file's extension. ZIP archives are planned entry by entry from the bytes;
/// the 7z and RAR formats are decompressed whole by their decoder, with the
/// destination directory itself as content root.
pub fn extract_archive(
    archive_file_path: &String,
    archive_bytes: &Vec<u8>,
    destination_directory: &String,
) -> (r: Result<Extraction, ArchiveError>)
    ensures
        spec_extension(spec_basename(archive_file_path@)) == Some("zip"@) ==> ({
            &&& r matches Ok(e) ==> zip_parses(archive_bytes@) && spec_zip_root_ok(
                zip_names_of(archive_bytes@),
            ) && e.root@ == spec_zip_root(destination_directory@, zip_names_of(archive_bytes@))
                && e.steps_view() == spec_zip_steps(
                destination_directory@,
                zip_names_of(archive_bytes@),
                zip_datas_of(archive_bytes@),
            )
            &&& !zip_parses(archive_bytes@) ==> r is Err
            &&& zip_parses(archive_bytes@) && zip_reads(archive_bytes@) && spec_zip_root_ok(
                zip_names_of(archive_bytes@),
            ) ==> r is Ok
        }),
        spec_extension(spec_basename(archive_file_path@)) == Some("7z"@) ==> (r matches Ok(e)
            && e.root@ == destination_directory@ && e.steps_view() =~= seq![
            ExtractStepView::DecompressSevenZ {
                archive_file: archive_file_path@,
                destination: destination_directory@,
            },
        ]),
        spec_extension(spec_basename(archive_file_path@)) == Some("rar"@) ==> (r matches Ok(e)
            && e.root@ == destination_directory@ && e.steps_view() =~= seq![
            ExtractStepView::DecompressRar {
                archive_file: archive_file_path@,
                destination: destination_directory@,
            },
        ]),
        (spec_extension(spec_basename(archive_file_path@)) != Some("zip"@) && spec_extension(
            spec_basename(archive_file_path@),
        ) != Some("7z"@) && spec_extension(spec_basename(archive_file_path@)) != Some("rar"@))
            ==> (r matches Err(e) && e matches ArchiveError::UnsupportedArchiveType(p) && p@
            == archive_file_path@),
{
    proof {
        reveal_strlit("zip");
        reveal_strlit("7z");
        reveal_strlit("rar");
        assert("zip"@.len() == 3);
        assert("7z"@.len() == 2);
        assert("rar"@.len() == 3);
        assert("zip"@[0] == 'z');
        assert("rar"@[0] == 'r');
    }
    let bn = basename(archive_file_path.as_str());
    match extension_of(bn) {
        Some(ext) => {
            if crate::strutil::str_eq(ext, "zip") {
                extract_zip(archive_file_path.as_str(), archive_bytes, destination_directory.as_str())
            } else if crate::strutil::str_eq(ext, "7z") {
                let mut steps: Vec<ExtractStep> = Vec::new();
                steps.push(
                    ExtractStep::DecompressSevenZ {
                        archive_file: archive_file_path.clone(),
                        destination: destination_directory.clone(),
                    },
                );
                let e = Extraction { root: destination_directory.clone(), steps };
                proof {
                    assert(e.steps_view() =~= seq![
                        ExtractStepView::DecompressSevenZ {
                            archive_file: archive_file_path@,
                            destination: destination_directory@,
                        },
                    ]);
                }
                Ok(e)
            } else if crate::strutil::str_eq(ext, "rar") {
                let mut steps: Vec<ExtractStep> = Vec::new();
                steps.push(
                    ExtractStep::DecompressRar {
                        archive_file: archive_file_path.clone(),
                        destination: destination_directory.clone(),
                    },
                );
                let e = Extraction { root: destination_directory.clone(), steps };
                proof {
                    assert(e.steps_view() =~= seq![
                        ExtractStepView::DecompressRar {
                            archive_file: archive_file_path@,
                            destination: destination_directory@,
                        },
                    ]);
                }
                Ok(e)
            } else {
                Err(ArchiveError::UnsupportedArchiveType(archive_file_path.clone()))
            }
        },
        None => Err(ArchiveError::UnsupportedArchiveType(archive_file_path.clone())),
    }
}

/// The content root under the metadata-file convention: the directory that
/// directly holds the first safely named `info.vdf` entry of the archive.
pub open spec fn spec_first_vdf_root(dest: Seq<char>, names: Seq<Seq<char>>) -> Option<Seq<char>>
    decreases names.len(),
{
    if names.len() == 0 {
        None
    } else if spec_safe_relative_path(names[0]) && names[0][names[0].len() - 1] != '/'
        && spec_basename(names[0]) == "info.vdf"@ {
        Some(spec_parent(spec_join(dest, names[0])))
    } else {
        spec_first_vdf_root(dest, names.drop_first())
    }
}

/// Extracts a ZIP archive, taking as content root the directory of the first
/// `info.vdf` entry instead of the first entry. Only the ZIP format is
/// supported here.
pub fn extract(
    archive: &String,
    archive_bytes: &Vec<u8>,
    destination_directory: &String,
) -> (r: Result<Extraction, ExtractError>)
    ensures
        spec_extension(spec_basename(archive@)) != Some("zip"@) ==> (r matches Err(e) && e matches
            ExtractError::UnsupportedArchiveType(p) && p@ == archive@),
        spec_extension(spec_basename(archive@)) == Some("zip"@) ==> ({
            &&& r matches Ok(e) ==> zip_parses(archive_bytes@) && spec_first_vdf_root(
                destination_directory@,
                zip_names_of(archive_bytes@),
            ) == Some(e.root@) && e.steps_view() == spec_zip_steps(
                destination_directory@,
                zip_names_of(archive_bytes@),
                zip_datas_of(archive_bytes@),
            )
            &&& !zip_parses(archive_bytes@) ==> r is Err
            &&& zip_parses(archive_bytes@) && zip_reads(archive_bytes@) && spec_first_vdf_root(
                destination_directory@,
                zip_names_of(archive_bytes@),
            ) is Some ==> r is Ok
            &&& (r matches Err(e) && e is NoInfoFileFound) ==> (zip_parses(archive_bytes@)
                && spec_first_vdf_root(destination_directory@, zip_names_of(archive_bytes@))
                is None)
        }),
{
    let bn = basename(archive.as_str());
    let is_zip = match extension_of(bn) {
        Some(ext) => crate::strutil::str_eq(ext, "zip"),
        None => false,
    };
    if !is_zip {
        return Err(ExtractError::UnsupportedArchiveType(archive.clone()));
    }
    let (names, datas) = match read_zip_entries(archive_bytes) {
        Ok(nd) => nd,
        Err(detail) => {
            return Err(ExtractError::UnzipFailed { detail });
        },
    };
    match find_vdf_root(destination_directory.as_str(), &names) {
        Some(rt) => Ok(
            Extraction {
                root: rt,
                steps: build_zip_steps(destination_directory.as_str(), &names, &datas),
            },
        ),
        None => Err(ExtractError::NoInfoFileFound),
    }
}

/// The directory of the first safely named `info.vdf` entry, under `dest`.
fn find_vdf_root(destination_directory: &str, names: &Vec<String>) -> (r: Option<String>)
    ensures
        r matches Some(s) ==> spec_first_vdf_root(destination_directory@, names.deep_view())
            == Some(s@),
        r is None ==> spec_first_vdf_root(destination_directory@, names.deep_view()) is None,
{
    let mut i: usize = 0;
    proof {
        assert(names.deep_view().skip(0) =~= names.deep_view());
    }
    while i < names.len()
        invariant
            0 <= i <= names@.len(),
            spec_first_vdf_root(destination_directory@, names.deep_view()) == spec_first_vdf_root(
                destination_directory@,
                names.deep_view().skip(i as int),
            ),
        decreases names@.len() - i,
    {
        let name = &names[i];
        proof {
            assert(names.deep_view().skip(i as int)[0] == names@[i as int]@);
        }
        if is_safe_relative_path(name.as_str()) && !crate::strutil::ends_with_char(
            name.as_str(),
            '/',
        ) && crate::strutil::str_eq(basename(name.as_str()), "info.vdf") {
            let joined = path_join(destination_directory, name.as_str());
            return Some(String::from_str(parent_of(joined.as_str())));
        }
        proof {
            assert(names.deep_view().skip(i as int).drop_first() =~= names.deep_view().skip(i + 1));
        }
        i = i + 1;
    }
    proof {
        assert(names.deep_view().skip(names@.len() as int).len() == 0);
    }
    None
}

} // verus!
