//! Packing a walked directory into a zip archive.
//!
//! The caller walks the directory and reads the regular files; this module
//! decides what is stored, under which names, and drives the archive writer.

use vstd::prelude::*;
use vstd::string::*;

verus! {

/// How the contents of a file are held in the archive.
#[derive(Clone, Copy, Debug, PartialEq, Eq, Structural)]
pub enum CompressionMethod {
    Stored,
    Deflated,
}

/// The permission bits given to every stored file.
pub const FILE_PERMISSIONS: u32 = 0o755;

/// One entry of a directory walk: its path as the walk reports it, and, for a
/// regular file, what the file holds. Directories and other entries carry no
/// contents.
#[derive(Debug, PartialEq, Eq)]
pub struct WalkedEntry {
    pub path: String,
    pub contents: Option<Vec<u8>>,
}

pub struct WalkedEntryView {
    pub path: Seq<char>,
    pub contents: Option<Seq<u8>>,
}

impl View for WalkedEntry {
    type V = WalkedEntryView;

    open spec fn view(&self) -> WalkedEntryView {
        WalkedEntryView {
            path: self.path@,
            contents: match self.contents {
                Some(data) => Some(data@),
                None => None,
            },
        }
    }
}

/// The views of the entries of a walk.
pub open spec fn walk_view(entries: Seq<WalkedEntry>) -> Seq<WalkedEntryView> {
    Seq::new(entries.len(), |i: int| entries[i]@)
}

/// The texts of a list of names, some of which may be missing.
pub open spec fn names_view(names: Seq<Option<String>>) -> Seq<Option<Seq<char>>> {
    Seq::new(
        names.len(),
        |i: int|
            match names[i] {
                Some(name) => Some(name@),
                None => None,
            },
    )
}

/// One file of an archive: its name, how it is held, its permission bits and
/// its contents.
pub struct FileModel {
    pub name: Seq<char>,
    pub method: CompressionMethod,
    pub permissions: u32,
    pub data: Seq<u8>,
}

/// Why no archive was made.
#[derive(Clone, Copy, Debug, PartialEq, Eq, Structural)]
pub enum ArchiveError {
    /// The entry at `index` does not lie under the walked root.
    NotUnderPrefix { index: usize },
    /// The archive writer refused the file at `index`.
    Rejected { index: usize },
    /// The archive writer failed to close the archive.
    Unfinished,
}

/// The name at `index`, if there is one.
pub open spec fn name_at(names: Seq<Option<Seq<char>>>, index: int) -> Option<Seq<char>> {
    if 0 <= index < names.len() {
        names[index]
    } else {
        None
    }
}

/// Whether each of the first `count` entries has a name.
pub open spec fn all_named(names: Seq<Option<Seq<char>>>, count: int) -> bool {
    forall|j: int| 0 <= j < count ==> (#[trigger] name_at(names, j)) is Some
}

/// The files that an archive of `entries` holds, in walk order: one for each
/// entry that has contents, under the name that goes with the entry. Entries
/// without contents leave no trace.
pub open spec fn stored_files(
    entries: Seq<WalkedEntryView>,
    names: Seq<Option<Seq<char>>>,
    method: CompressionMethod,
) -> Seq<FileModel>
    decreases entries.len(),
{
    if entries.len() == 0 {
        Seq::empty()
    } else {
        let before = stored_files(entries.drop_last(), names, method);
        match (entries.last().contents, name_at(names, entries.len() - 1)) {
            (Some(data), Some(name)) => before.push(
                FileModel { name, method, permissions: FILE_PERMISSIONS, data },
            ),
            _ => before,
        }
    }
}

/// `files` with `data` appended to the contents of its last file.
pub open spec fn with_data(files: Seq<FileModel>, data: Seq<u8>) -> Seq<FileModel> {
    if files.len() == 0 {
        files
    } else {
        files.update(
            files.len() - 1,
            FileModel { data: files.last().data + data, ..files.last() },
        )
    }
}

/// A file as it stands when it has just been started: nothing written yet.
pub open spec fn opened(file: FileModel) -> FileModel {
    FileModel { data: Seq::empty(), ..file }
}

/// Whether the archive writer takes each of `files` in turn: starts it after
/// the files before it, and then takes its contents.
pub open spec fn files_taken(files: Seq<FileModel>) -> bool
    decreases files.len(),
{
    files.len() == 0 || {
        &&& files_taken(files.drop_last())
        &&& start_taken(files.drop_last(), opened(files.last()))
        &&& write_taken(files.drop_last().push(opened(files.last())), files.last().data)
    }
}

/// Whether `files` can be packed: the archive writer takes each of them and
/// then closes the archive.
pub open spec fn packs(files: Seq<FileModel>) -> bool {
    files_taken(files) && archive_image(files) is Some
}

/// The files in the archive writer after the first `count` entries, or the
/// error at which the work ended among them. Entries are taken in order. An
/// entry without a name ends the work, with or without contents; an entry
/// with contents is started under its name and then written, and ends the
/// work where the writer refuses either.
pub open spec fn packing_steps(
    entries: Seq<WalkedEntryView>,
    names: Seq<Option<Seq<char>>>,
    method: CompressionMethod,
    count: nat,
) -> Result<Seq<FileModel>, ArchiveError>
    decreases count,
{
    if count == 0 {
        Ok(Seq::empty())
    } else {
        let index = (count - 1) as int;
        match packing_steps(entries, names, method, (count - 1) as nat) {
            Err(error) => Err(error),
            Ok(files) => match name_at(names, index) {
                None => Err(ArchiveError::NotUnderPrefix { index: index as usize }),
                Some(name) => match entries[index].contents {
                    None => Ok(files),
                    Some(data) => {
                        let file = FileModel { name, method, permissions: FILE_PERMISSIONS, data };
                        if start_taken(files, opened(file)) && write_taken(
                            files.push(opened(file)),
                            data,
                        ) {
                            Ok(files.push(file))
                        } else {
                            Err(ArchiveError::Rejected { index: index as usize })
                        }
                    },
                },
            },
        }
    }
}

/// What packing `entries` under `names` returns: the error at which the work
/// ended, or else the bytes of the closed archive, or `Unfinished` where the
/// writer fails to close it.
pub open spec fn packing_of(
    entries: Seq<WalkedEntryView>,
    names: Seq<Option<Seq<char>>>,
    method: CompressionMethod,
) -> Result<Seq<u8>, ArchiveError> {
    match packing_steps(entries, names, method, entries.len()) {
        Err(error) => Err(error),
        Ok(files) => match archive_image(files) {
            Some(bytes) => Ok(bytes),
            None => Err(ArchiveError::Unfinished),
        },
    }
}

/// The bytes of a result, as a sequence.
pub open spec fn outcome_view(result: Result<Vec<u8>, ArchiveError>) -> Result<Seq<u8>, ArchiveError> {
    match result {
        Ok(bytes) => Ok(bytes@),
        Err(error) => Err(error),
    }
}

/// `zip::result::ZipError`, of which nothing is read but that it occurred.
#[verifier::external_type_specification]
#[verifier::external_body]
pub struct ExZipError(zip::result::ZipError);

/// An archive under construction in memory: a `zip::ZipWriter` over a
/// `std::io::Cursor<Vec<u8>>`. What it holds is known only through
/// `writer_files`. Writers come from `new` alone and are used up by
/// `finish`, so no writer that has been closed is ever handed to a call.
#[verifier::external_body]
pub struct ArchiveWriter {
    inner: zip::ZipWriter<std::io::Cursor<Vec<u8>>>,
}

/// The files started in `writer` so far, in order, each with its name, its
/// method, its permission bits and the data written to it.
pub uninterp spec fn writer_files(writer: ArchiveWriter) -> Seq<FileModel>;

/// Whether `zip::ZipWriter::start_file` succeeds for `file` on a writer that
/// holds `files`. The writer works on a buffer in memory, so nothing but what
/// it holds and what it is given decides: in the crate's source the call
/// fails only where closing the file before it fails, which is a matter of
/// that file's size.
pub uninterp spec fn start_taken(files: Seq<FileModel>, file: FileModel) -> bool;

/// Whether `std::io::Write::write_all` succeeds for `data` on a writer that
/// holds `files`, to the last of which nothing has been written yet. In the
/// crate's source the call fails where there is data but no file has been
/// started, and where the data is beyond what a file may hold without the
/// large-file option.
pub uninterp spec fn write_taken(files: Seq<FileModel>, data: Seq<u8>) -> bool;

/// The bytes of the finished archive that holds `files`: what
/// `zip::ZipWriter::finish` leaves in the buffer, or `None` where it fails.
/// The `zip` crate is built without its `time` feature, so every entry is
/// stamped with the same fixed date and the bytes depend on the files alone.
pub uninterp spec fn archive_image(files: Seq<FileModel>) -> Option<Seq<u8>>;

/// What `std::path::Path::strip_prefix` leaves of `path` when `base` is taken
/// off its front, as text; `None` where `path` does not start with `base`.
pub uninterp spec fn relative_path(path: Seq<char>, base: Seq<char>) -> Option<Seq<char>>;

impl ArchiveWriter {
    /// `zip::ZipWriter::new` on an empty buffer: no file has been started.
    #[verifier::external_body]
    fn new() -> (writer: ArchiveWriter)
        ensures
            writer_files(writer) == Seq::<FileModel>::empty(),
    {
        ArchiveWriter { inner: zip::ZipWriter::new(std::io::Cursor::new(Vec::new())) }
    }

    /// `zip::ZipWriter::start_file`, with default options but for the method
    /// and the permission bits. Whether it succeeds is named by
    /// `start_taken`. Where it does, the writer holds one more file, which is
    /// empty; the files before it are closed as they stand.
    #[verifier::external_body]
    fn start_file(&mut self, name: &str, method: CompressionMethod, permissions: u32) -> (started:
        Result<(), zip::result::ZipError>)
        requires
            permissions <= 0o777,
        ensures
            started is Ok <==> start_taken(
                writer_files(*old(self)),
                FileModel { name: name@, method, permissions, data: Seq::empty() },
            ),
            started is Ok ==> writer_files(*final(self)) == writer_files(*old(self)).push(
                FileModel { name: name@, method, permissions, data: Seq::empty() },
            ),
    {
        let method = match method {
            CompressionMethod::Stored => zip::CompressionMethod::Stored,
            CompressionMethod::Deflated => zip::CompressionMethod::Deflated,
        };
        let options = zip::write::FileOptions::default().compression_method(method);
        self.inner.start_file(name, options.unix_permissions(permissions))
    }

    /// `std::io::Write::write_all` on the `zip::ZipWriter`, for a file that
    /// holds nothing yet. Whether it succeeds is named by `write_taken`.
    /// Where it does, the file started last holds `data`.
    #[verifier::external_body]
    fn write_all(&mut self, data: &[u8]) -> (written: Result<(), zip::result::ZipError>)
        requires
            writer_files(*old(self)).len() > 0 ==> writer_files(*old(self)).last().data.len()
                == 0,
        ensures
            written is Ok <==> write_taken(writer_files(*old(self)), data@),
            written is Ok ==> writer_files(*final(self)) == with_data(
                writer_files(*old(self)),
                data@,
            ),
    {
        std::io::Write::write_all(&mut self.inner, data).map_err(zip::result::ZipError::Io)
    }

    /// `zip::ZipWriter::finish`, then `std::io::Cursor::into_inner`; the
    /// writer is used up. Where it succeeds, the bytes are the archive of the
    /// files that the writer held; it fails exactly where there is no such
    /// archive.
    #[verifier::external_body]
    fn finish(self) -> (finished: Result<Vec<u8>, zip::result::ZipError>)
        ensures
            match finished {
                Ok(bytes) => archive_image(writer_files(self)) == Some(bytes@),
                Err(_) => archive_image(writer_files(self)) is None,
            },
    {
        let mut writer = self;
        writer.inner.finish().map(|buffer| buffer.into_inner())
    }
}

/// Calls `std::path::Path::strip_prefix` on `path` with `base`, and hands the
/// rest back as text.
#[verifier::external_body]
fn strip_prefix(path: &str, base: &str) -> (rest: Option<String>)
    ensures
        match rest {
            Some(rest) => relative_path(path@, base@) == Some(rest@),
            None => relative_path(path@, base@) is None,
        },
{
    let rest = std::path::Path::new(path).strip_prefix(base).ok();
    rest.and_then(|rest| rest.to_str()).map(|rest| rest.to_string())
}

/// The names that the entries of a walk rooted at `prefix` get in the
/// archive: each path with the prefix taken off.
pub open spec fn relative_names_of(
    entries: Seq<WalkedEntryView>,
    prefix: Seq<char>,
) -> Seq<Option<Seq<char>>> {
    Seq::new(entries.len(), |i: int| relative_path(entries[i].path, prefix))
}

/// The path of each entry relative to `prefix`; `None` for an entry that does
/// not lie under it.
pub fn relative_names(entries: &Vec<WalkedEntry>, prefix: &str) -> (names: Vec<Option<String>>)
    ensures
        names_view(names@) == relative_names_of(walk_view(entries@), prefix@),
{
    let mut names: Vec<Option<String>> = Vec::new();
    let mut i: usize = 0;
    while i < entries.len()
        invariant
            i <= entries.len(),
            names@.len() == i,
            forall|j: int|
                0 <= j < i ==> match #[trigger] names@[j] {
                    Some(name) => relative_path(entries@[j].path@, prefix@) == Some(name@),
                    None => relative_path(entries@[j].path@, prefix@) is None,
                },
        decreases entries.len() - i,
    {
        let name = strip_prefix(entries[i].path.as_str(), prefix);
        names.push(name);
        i += 1;
    }
    names
}

/// Once the work has ended in an error, later entries do not change it.
proof fn lemma_error_stays(
    entries: Seq<WalkedEntryView>,
    names: Seq<Option<Seq<char>>>,
    method: CompressionMethod,
    from: nat,
    to: nat,
)
    requires
        from <= to,
        packing_steps(entries, names, method, from) is Err,
    ensures
        packing_steps(entries, names, method, to) == packing_steps(entries, names, method, from),
    decreases to,
{
    if from < to {
        lemma_error_stays(entries, names, method, from, (to - 1) as nat);
    }
}

/// Packs the entries that have contents into an archive, each under the name
/// at its index. Entries are taken in order; an entry without a name, whether
/// named `None` or beyond the end of `names`, ends the work, with or without
/// contents. Where every entry has a name, an archive is returned exactly if
/// the writer takes every file and closes the archive.
#[verifier::loop_isolation(false)]
pub fn zip_entries(
    entries: &Vec<WalkedEntry>,
    names: &Vec<Option<String>>,
    method: CompressionMethod,
) -> (result: Result<Vec<u8>, ArchiveError>)
    ensures
        outcome_view(result) == packing_of(walk_view(entries@), names_view(names@), method),
        all_named(names_view(names@), entries@.len() as int) ==> (result is Ok <==> packs(
            stored_files(walk_view(entries@), names_view(names@), method),
        )),
        result matches Ok(bytes) ==> archive_image(
            stored_files(walk_view(entries@), names_view(names@), method),
        ) == Some(bytes@),
{
    let ghost walked = walk_view(entries@);
    let ghost named = names_view(names@);
    proof {
        assert(entries.len() <= usize::MAX);
        lemma_archive_is_owed(walked, named, method);
    }
    let mut writer = ArchiveWriter::new();
    let mut i: usize = 0;
    while i < entries.len()
        invariant
            i <= entries.len(),
            walked == walk_view(entries@),
            named == names_view(names@),
            packing_steps(walked, named, method, i as nat) == Ok::<Seq<FileModel>, ArchiveError>(
                writer_files(writer),
            ),
        decreases entries.len() - i,
    {
        let ghost files = writer_files(writer);
        if i >= names.len() {
            proof {
                lemma_error_stays(walked, named, method, (i + 1) as nat, walked.len());
            }
            return Err(ArchiveError::NotUnderPrefix { index: i });
        }
        let name = match &names[i] {
            Some(name) => name,
            None => {
                proof {
                    lemma_error_stays(walked, named, method, (i + 1) as nat, walked.len());
                }
                return Err(ArchiveError::NotUnderPrefix { index: i });
            },
        };
        match &entries[i].contents {
            Some(data) => {
                let ghost file = FileModel {
                    name: name@,
                    method,
                    permissions: FILE_PERMISSIONS,
                    data: data@,
                };
                match writer.start_file(name.as_str(), method, FILE_PERMISSIONS) {
                    Ok(_) => {},
                    Err(_) => {
                        proof {
                            lemma_error_stays(walked, named, method, (i + 1) as nat, walked.len());
                        }
                        return Err(ArchiveError::Rejected { index: i });
                    },
                }
                match writer.write_all(data.as_slice()) {
                    Ok(_) => {},
                    Err(_) => {
                        proof {
                            lemma_error_stays(walked, named, method, (i + 1) as nat, walked.len());
                        }
                        return Err(ArchiveError::Rejected { index: i });
                    },
                }
                assert(writer_files(writer) =~= files.push(file));
            },
            None => {},
        }
        i += 1;
    }
    match writer.finish() {
        Ok(bytes) => Ok(bytes),
        Err(_) => Err(ArchiveError::Unfinished),
    }
}

/// Packs a walked directory into an archive. Every regular file found by the
/// walk is stored, under its path relative to `prefix`; nothing else is.
/// Where every entry lies under `prefix`, an archive is returned exactly if
/// the writer takes every file and closes the archive.
pub fn zip_dir(entries: &Vec<WalkedEntry>, prefix: &str, method: CompressionMethod) -> (result:
    Result<Vec<u8>, ArchiveError>)
    ensures
        outcome_view(result) == packing_of(
            walk_view(entries@),
            relative_names_of(walk_view(entries@), prefix@),
            method,
        ),
        all_named(relative_names_of(walk_view(entries@), prefix@), entries@.len() as int) ==> (
        result is Ok <==> packs(
            stored_files(
                walk_view(entries@),
                relative_names_of(walk_view(entries@), prefix@),
                method,
            ),
        )),
        result matches Ok(bytes) ==> archive_image(
            stored_files(
                walk_view(entries@),
                relative_names_of(walk_view(entries@), prefix@),
                method,
            ),
        ) == Some(bytes@),
{
    let names = relative_names(entries, prefix);
    zip_entries(entries, &names, method)
}

/// Whether the entry at `index` is a regular file with the name and contents
/// of `file`.
pub open spec fn is_stored_as(
    entries: Seq<WalkedEntryView>,
    names: Seq<Option<Seq<char>>>,
    index: int,
    file: FileModel,
) -> bool {
    &&& 0 <= index < entries.len()
    &&& entries[index].contents == Some(file.data)
    &&& name_at(names, index) == Some(file.name)
}

/// An archive holds the regular files of the walk and nothing else: each of
/// its files is an entry with contents, under that entry's name and with the
/// fixed permission bits, and each entry with contents is one of its files.
/// Directories leave no file behind.
pub proof fn lemma_archive_holds_the_regular_files(
    entries: Seq<WalkedEntryView>,
    names: Seq<Option<Seq<char>>>,
    method: CompressionMethod,
)
    requires
        all_named(names, entries.len() as int),
    ensures
        stored_files(entries, names, method).len() <= entries.len(),
        forall|k: int|
            0 <= k < stored_files(entries, names, method).len() ==> {
                let file = #[trigger] stored_files(entries, names, method)[k];
                &&& file.method == method
                &&& file.permissions == FILE_PERMISSIONS
                &&& exists|i: int| is_stored_as(entries, names, i, file)
            },
        forall|i: int|
            0 <= i < entries.len() && (#[trigger] entries[i]).contents is Some ==> exists|k: int|
                0 <= k < stored_files(entries, names, method).len() && is_stored_as(
                    entries,
                    names,
                    i,
                    #[trigger] stored_files(entries, names, method)[k],
                ),
    decreases entries.len(),
{
    if entries.len() > 0 {
        let shorter = entries.drop_last();
        let last = entries.len() - 1;
        let before = stored_files(shorter, names, method);
        let stored = stored_files(entries, names, method);
        assert(all_named(names, shorter.len() as int)) by {
            assert forall|j: int| 0 <= j < shorter.len() implies (#[trigger] name_at(
                names,
                j,
            )) is Some by {}
        }
        lemma_archive_holds_the_regular_files(shorter, names, method);
        assert forall|k: int| 0 <= k < stored.len() implies {
            let file = #[trigger] stored[k];
            &&& file.method == method
            &&& file.permissions == FILE_PERMISSIONS
            &&& exists|i: int| is_stored_as(entries, names, i, file)
        } by {
            if k < before.len() {
                let i = choose|i: int| is_stored_as(shorter, names, i, before[k]);
                assert(is_stored_as(entries, names, i, stored[k]));
            } else {
                assert(is_stored_as(entries, names, last, stored[k]));
            }
        }
        assert forall|i: int|
            0 <= i < entries.len() && (#[trigger] entries[i]).contents is Some implies exists|
            k: int,
        |
            0 <= k < stored.len() && is_stored_as(entries, names, i, #[trigger] stored[k]) by {
            if i < last {
                assert(shorter[i] == entries[i]);
                let k = choose|k: int|
                    0 <= k < before.len() && is_stored_as(shorter, names, i, #[trigger] before[k]);
                assert(is_stored_as(entries, names, i, stored[k]));
            } else {
                let k = stored.len() - 1;
                assert(is_stored_as(entries, names, i, stored[k]));
            }
        }
    }
}

/// The number of entries that have contents.
pub open spec fn file_count(entries: Seq<WalkedEntryView>) -> nat
    decreases entries.len(),
{
    if entries.len() == 0 {
        0
    } else if entries.last().contents is Some {
        file_count(entries.drop_last()) + 1
    } else {
        file_count(entries.drop_last())
    }
}

/// An archive holds as many files as the walk has regular files: none is
/// left out, none is stored twice, none is added.
pub proof fn lemma_one_file_for_each_regular_file(
    entries: Seq<WalkedEntryView>,
    names: Seq<Option<Seq<char>>>,
    method: CompressionMethod,
)
    requires
        all_named(names, entries.len() as int),
    ensures
        stored_files(entries, names, method).len() == file_count(entries),
    decreases entries.len(),
{
    if entries.len() > 0 {
        assert(all_named(names, entries.drop_last().len() as int)) by {
            assert forall|j: int| 0 <= j < entries.drop_last().len() implies (#[trigger] name_at(
                names,
                j,
            )) is Some by {}
        }
        lemma_one_file_for_each_regular_file(entries.drop_last(), names, method);
    }
}

/// Each regular file has its own place in the archive, in walk order: the
/// file at `index` of the walk, which has so many regular files before it, is
/// the archive's file at that position, under the name at `index` and with
/// exactly the contents of the entry, nothing of any other file before or
/// after them.
pub proof fn lemma_file_keeps_its_place(
    entries: Seq<WalkedEntryView>,
    names: Seq<Option<Seq<char>>>,
    method: CompressionMethod,
    index: int,
)
    requires
        all_named(names, entries.len() as int),
        0 <= index < entries.len(),
        entries[index].contents is Some,
    ensures
        file_count(entries.take(index)) < stored_files(entries, names, method).len(),
        stored_files(entries, names, method)[file_count(entries.take(index)) as int] == (FileModel {
            name: name_at(names, index)->0,
            method,
            permissions: FILE_PERMISSIONS,
            data: entries[index].contents->0,
        }),
    decreases entries.len(),
{
    let shorter = entries.drop_last();
    let last = entries.len() - 1;
    assert(all_named(names, shorter.len() as int)) by {
        assert forall|j: int| 0 <= j < shorter.len() implies (#[trigger] name_at(
            names,
            j,
        )) is Some by {}
    }
    lemma_one_file_for_each_regular_file(shorter, names, method);
    if index < last {
        lemma_file_keeps_its_place(shorter, names, method, index);
        assert(shorter.take(index) =~= entries.take(index));
    }
}

/// Where the writer takes all the files of a walk, it takes those of every
/// shorter walk that the walk begins with.
proof fn lemma_taken_prefix(
    entries: Seq<WalkedEntryView>,
    names: Seq<Option<Seq<char>>>,
    method: CompressionMethod,
    count: int,
)
    requires
        0 <= count <= entries.len(),
        files_taken(stored_files(entries, names, method)),
    ensures
        files_taken(stored_files(entries.take(count), names, method)),
    decreases entries.len() - count,
{
    if count < entries.len() {
        let shorter = entries.drop_last();
        let before = stored_files(shorter, names, method);
        assert(files_taken(before)) by {
            if stored_files(entries, names, method) != before {
                assert(stored_files(entries, names, method).drop_last() =~= before);
            }
        }
        lemma_taken_prefix(shorter, names, method, count);
        assert(shorter.take(count) =~= entries.take(count));
    } else {
        assert(entries.take(count) =~= entries);
    }
}

/// What the steps of packing amount to after the first `count` entries:
/// either every entry so far had a name and the writer took each regular
/// file among them, and then it holds exactly those files; or the work ended
/// at the first entry without a name; or it ended at the first regular file
/// that the writer refused.
pub proof fn lemma_packing_steps(
    entries: Seq<WalkedEntryView>,
    names: Seq<Option<Seq<char>>>,
    method: CompressionMethod,
    count: nat,
)
    requires
        count <= entries.len() <= usize::MAX,
    ensures
        match packing_steps(entries, names, method, count) {
            Ok(files) => {
                &&& all_named(names, count as int)
                &&& files == stored_files(entries.take(count as int), names, method)
                &&& files_taken(files)
            },
            Err(ArchiveError::NotUnderPrefix { index }) => {
                &&& index < count
                &&& name_at(names, index as int) is None
                &&& all_named(names, index as int)
            },
            Err(ArchiveError::Rejected { index }) => {
                &&& index < count
                &&& entries[index as int].contents is Some
                &&& all_named(names, index + 1)
                &&& !files_taken(stored_files(entries.take(index + 1), names, method))
            },
            Err(ArchiveError::Unfinished) => false,
        },
    decreases count,
{
    if count > 0 {
        let index = (count - 1) as int;
        lemma_packing_steps(entries, names, method, (count - 1) as nat);
        let taken = entries.take(count as int);
        assert(taken.drop_last() =~= entries.take(index));
        match packing_steps(entries, names, method, (count - 1) as nat) {
            Ok(files) => {
                match (name_at(names, index), entries[index].contents) {
                    (Some(name), Some(data)) => {
                        let file = FileModel { name, method, permissions: FILE_PERMISSIONS, data };
                        assert(files.push(file).drop_last() =~= files);
                    },
                    _ => {},
                }
            },
            Err(_) => {},
        }
    }
}

/// When an archive is owed. Where every entry of the walk has a name,
/// packing succeeds exactly if the writer takes each regular file in turn and
/// then closes the archive; and whenever packing succeeds, every entry has a
/// name and the bytes are the archive of the regular files, in walk order.
pub proof fn lemma_archive_is_owed(
    entries: Seq<WalkedEntryView>,
    names: Seq<Option<Seq<char>>>,
    method: CompressionMethod,
)
    requires
        entries.len() <= usize::MAX,
    ensures
        all_named(names, entries.len() as int) ==> (packing_of(entries, names, method) is Ok
            <==> packs(stored_files(entries, names, method))),
        packing_of(entries, names, method) matches Ok(bytes) ==> {
            &&& all_named(names, entries.len() as int)
            &&& archive_image(stored_files(entries, names, method)) == Some(bytes)
        },
        packing_of(entries, names, method) == Err::<Seq<u8>, ArchiveError>(
            ArchiveError::Unfinished,
        ) ==> {
            &&& all_named(names, entries.len() as int)
            &&& files_taken(stored_files(entries, names, method))
            &&& archive_image(stored_files(entries, names, method)) is None
        },
{
    lemma_packing_steps(entries, names, method, entries.len());
    assert(entries.take(entries.len() as int) =~= entries);
    match packing_steps(entries, names, method, entries.len()) {
        Err(ArchiveError::Rejected { index }) => {
            if files_taken(stored_files(entries, names, method)) {
                lemma_taken_prefix(entries, names, method, index + 1);
            }
        },
        _ => {},
    }
}

/// An entry that does not lie under the walked root prevents the archive:
/// the work ends in an error, at that entry or before it.
pub proof fn lemma_entry_outside_root_prevents_archive(
    entries: Seq<WalkedEntryView>,
    names: Seq<Option<Seq<char>>>,
    method: CompressionMethod,
    index: int,
)
    requires
        entries.len() <= usize::MAX,
        0 <= index < entries.len(),
        name_at(names, index) is None,
    ensures
        match packing_of(entries, names, method) {
            Ok(_) => false,
            Err(ArchiveError::NotUnderPrefix { index: at }) => at <= index,
            Err(ArchiveError::Rejected { index: at }) => at < index,
            Err(ArchiveError::Unfinished) => false,
        },
{
    lemma_packing_steps(entries, names, method, entries.len());
}

/// Packing is repeatable. Where two walks hold the same files under the same
/// names in the same order, whatever else they hold, any two archives made of
/// them are the same, byte for byte; and where every entry of both has a
/// name, either both walks give an archive or neither does.
pub proof fn lemma_same_files_same_archive(
    first_entries: Seq<WalkedEntryView>,
    first_names: Seq<Option<Seq<char>>>,
    second_entries: Seq<WalkedEntryView>,
    second_names: Seq<Option<Seq<char>>>,
    method: CompressionMethod,
)
    requires
        first_entries.len() <= usize::MAX,
        second_entries.len() <= usize::MAX,
        stored_files(first_entries, first_names, method) == stored_files(
            second_entries,
            second_names,
            method,
        ),
    ensures
        packing_of(first_entries, first_names, method) is Ok && packing_of(
            second_entries,
            second_names,
            method,
        ) is Ok ==> packing_of(first_entries, first_names, method) == packing_of(
            second_entries,
            second_names,
            method,
        ),
        all_named(first_names, first_entries.len() as int) && all_named(
            second_names,
            second_entries.len() as int,
        ) ==> (packing_of(first_entries, first_names, method) is Ok <==> packing_of(
            second_entries,
            second_names,
            method,
        ) is Ok),
{
    lemma_archive_is_owed(first_entries, first_names, method);
    lemma_archive_is_owed(second_entries, second_names, method);
}

} // verus!
