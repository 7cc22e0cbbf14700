//! File entries of a directory and their grouping into list entries.

use vstd::prelude::*;
use vstd::string::StringExecFns;
use crate::names::{prefix_spec, strip_spec, number_prefix, strip_number_prefix};

verus! {

/// What a listed file is.
#[derive(Debug, Clone, Copy, PartialEq, Eq, Structural)]
pub enum FileType {
    Directory,
    Mp3File,
}

/// A directory or MP3 file: its full path and its file name.
#[derive(Debug, Clone)]
pub struct FileInfo {
    pub path: String,
    pub name: String,
    pub file_type: FileType,
}

/// One line of the file list: a directory, or a run of consecutive MP3 files
/// (`files[file_index..file_index + file_count]`) that share a playback title.
#[derive(Debug, Clone, PartialEq)]
pub struct FileListEntry {
    pub file_index: usize,
    pub file_count: usize,
    pub display_name: String,
    pub file_type: FileType,
}

/// The mathematical content of a `FileListEntry`.
pub struct EntryView {
    pub file_index: nat,
    pub file_count: nat,
    pub display_name: Seq<char>,
    pub file_type: FileType,
}

impl View for FileListEntry {
    type V = EntryView;

    open spec fn view(&self) -> EntryView {
        EntryView {
            file_index: self.file_index as nat,
            file_count: self.file_count as nat,
            display_name: self.display_name@,
            file_type: self.file_type,
        }
    }
}

/// The last component of a path as std's `Path::file_name` finds it, where
/// there is one.
pub uninterp spec fn path_file_name(path: Seq<char>) -> Option<Seq<char>>;

/// Trusted: `std::path::Path::file_name` on the path `path`, converted to a
/// `String`. Its result is named `path_file_name`, a function of the path
/// alone; nothing more is claimed of it.
#[verifier::external_body]
pub(crate) fn file_name_of(path: &str) -> (r: Option<String>)
    ensures
        r is Some <==> path_file_name(path@) is Some,
        r matches Some(n) ==> path_file_name(path@) == Some(n@),
{
    match std::path::Path::new(path).file_name() {
        Some(n) => match n.to_str() {
            Some(s) => Some(s.to_string()),
            None => None,
        },
        None => None,
    }
}

/// The file name shown for a path: its last component, or "Unknown".
pub open spec fn name_for_path(path: Seq<char>) -> Seq<char> {
    match path_file_name(path) {
        Some(n) => n,
        None => seq!['U', 'n', 'k', 'n', 'o', 'w', 'n'],
    }
}

/// The title under which a file is played and grouped: its name without the
/// number prefix.
pub open spec fn title_of(f: FileInfo) -> Seq<char> {
    strip_spec(f.name@)
}

impl FileInfo {
    /// A file entry for `path`, named after the path's last component.
    pub fn new(path: String, file_type: FileType) -> (r: Self)
        ensures
            r.path == path,
            r.name@ == name_for_path(path@),
            r.file_type == file_type,
    {
        let name = match file_name_of(path.as_str()) {
            Some(n) => n,
            None => {
                let unknown = "Unknown";
                proof {
                    reveal_strlit("Unknown");
                }
                unknown.to_owned()
            },
        };
        FileInfo { path, name, file_type }
    }

    /// The name shown in the list: the file name.
    pub fn display_name(&self) -> (r: String)
        ensures
            r@ == self.name@,
    {
        self.name.clone()
    }

    /// The file name without its number prefix.
    pub fn playback_title(&self) -> (r: String)
        ensures
            r@ == title_of(*self),
    {
        strip_number_prefix(self.name.as_str()).to_owned()
    }
}

/// The index just past the run of MP3 files titled `title` that starts at `j`.
pub open spec fn group_end(files: Seq<FileInfo>, j: int, title: Seq<char>) -> int
    decreases files.len() - j,
{
    if 0 <= j < files.len() && files[j].file_type == FileType::Mp3File && title_of(files[j])
        == title {
        group_end(files, j + 1, title)
    } else {
        j
    }
}

pub proof fn lemma_group_end_bounds(files: Seq<FileInfo>, j: int, title: Seq<char>)
    requires
        0 <= j <= files.len(),
    ensures
        j <= group_end(files, j, title) <= files.len(),
    decreases files.len() - j,
{
    if j < files.len() && files[j].file_type == FileType::Mp3File && title_of(files[j]) == title {
        lemma_group_end_bounds(files, j + 1, title);
    }
}

/// The list label of the MP3 run `files[first..first + count]` titled `title`:
/// "01 Title" for one number, "01-03 Title" when the first and last numbers
/// differ, the bare title when the first file has no number.
pub open spec fn mp3_display_spec(files: Seq<FileInfo>, first: int, count: int, title: Seq<char>) -> Seq<char> {
    match prefix_spec(files[first].name@) {
        None => title,
        Some(f) => {
            if count == 1 {
                f + seq![' '] + title
            } else {
                match prefix_spec(files[first + count - 1].name@) {
                    Some(l) => {
                        if f != l {
                            f + seq!['-'] + l + seq![' '] + title
                        } else {
                            f + seq![' '] + title
                        }
                    },
                    None => f + seq![' '] + title,
                }
            }
        },
    }
}

/// The list entries of `files[i..]`: each directory alone, and each maximal
/// run of consecutive MP3 files with one title as one entry.
pub open spec fn entries_from(files: Seq<FileInfo>, i: int) -> Seq<EntryView>
    decreases files.len() - i,
{
    if i < 0 || i >= files.len() {
        Seq::empty()
    } else if files[i].file_type == FileType::Directory {
        seq![
            EntryView {
                file_index: i as nat,
                file_count: 1,
                display_name: files[i].name@,
                file_type: FileType::Directory,
            },
        ] + entries_from(files, i + 1)
    } else {
        let t = title_of(files[i]);
        let e = group_end(files, i + 1, t);
        proof {
            lemma_group_end_bounds(files, i + 1, t);
        }
        seq![
            EntryView {
                file_index: i as nat,
                file_count: (e - i) as nat,
                display_name: mp3_display_spec(files, i, e - i, t),
                file_type: FileType::Mp3File,
            },
        ] + entries_from(files, e)
    }
}

/// The list entries of all of `files`.
pub open spec fn list_spec(files: Seq<FileInfo>) -> Seq<EntryView> {
    entries_from(files, 0)
}

/// The views of a sequence of entries.
pub open spec fn entry_views(entries: Seq<FileListEntry>) -> Seq<EntryView> {
    entries.map_values(|e: FileListEntry| e@)
}

fn continues_group(files: &[FileInfo], j: usize, title: &String) -> (r: bool)
    requires
        j < files@.len(),
    ensures
        r == (files@[j as int].file_type == FileType::Mp3File && title_of(files@[j as int])
            == title@),
{
    let f = &files[j];
    f.file_type == FileType::Mp3File && f.playback_title() == *title
}

fn str_equal(a: &str, b: &str) -> (r: bool)
    ensures
        r == (a@ == b@),
{
    a.to_owned() == b.to_owned()
}

/// The label of the MP3 run `files[first_index..first_index + file_count]`.
pub fn build_mp3_display_name(
    files: &[FileInfo],
    first_index: usize,
    file_count: usize,
    playback_title: &str,
) -> (r: String)
    requires
        file_count >= 1,
        first_index + file_count <= files@.len(),
    ensures
        r@ == mp3_display_spec(files@, first_index as int, file_count as int, playback_title@),
{
    proof {
        reveal_strlit(" ");
        reveal_strlit("-");
    }
    let first_number = match number_prefix(files[first_index].name.as_str()) {
        Some(n) => n,
        None => {
            return playback_title.to_owned();
        },
    };
    let mut out = first_number.to_owned();
    if file_count != 1 {
        let last_index = first_index + file_count - 1;
        if let Some(last_number) = number_prefix(files[last_index].name.as_str()) {
            if !str_equal(first_number, last_number) {
                out.append("-");
                out.append(last_number);
            }
        }
    }
    out.append(" ");
    out.append(playback_title);
    out
}

/// Groups `files` into list entries: every directory is an entry of its own,
/// and every maximal run of consecutive MP3 files whose names agree once the
/// number prefix is removed is one entry labelled with its number range.
pub fn build_file_list_entries(files: &[FileInfo]) -> (r: Vec<FileListEntry>)
    ensures
        entry_views(r@) == list_spec(files@),
{
    let mut entries: Vec<FileListEntry> = Vec::new();
    let mut index: usize = 0;
    let n = files.len();
    while index < n
        invariant
            n == files@.len(),
            index <= n,
            entry_views(entries@) + entries_from(files@, index as int) == list_spec(files@),
        decreases n - index,
    {
        let ghost before = entries@;
        let file = &files[index];
        if file.file_type == FileType::Directory {
            entries.push(
                FileListEntry {
                    file_index: index,
                    file_count: 1,
                    display_name: file.display_name(),
                    file_type: FileType::Directory,
                },
            );
            assert(entry_views(entries@) =~= entry_views(before) + seq![entries@.last()@]);
            index = index + 1;
        } else {
            let playback_title = file.playback_title();
            let mut file_count: usize = 1;
            proof {
                lemma_group_end_bounds(files@, index + 1, playback_title@);
            }
            while index + file_count < n && continues_group(files, index + file_count, &playback_title)
                invariant
                    n == files@.len(),
                    index < n,
                    1 <= file_count,
                    index + file_count <= n,
                    group_end(files@, (index + file_count) as int, playback_title@) == group_end(
                        files@,
                        index + 1,
                        playback_title@,
                    ),
                decreases n - index - file_count,
            {
                file_count = file_count + 1;
            }
            let display_name = build_mp3_display_name(files, index, file_count, playback_title.as_str());
            entries.push(
                FileListEntry {
                    file_index: index,
                    file_count,
                    display_name,
                    file_type: FileType::Mp3File,
                },
            );
            assert(entry_views(entries@) =~= entry_views(before) + seq![entries@.last()@]);
            index = index + file_count;
        }
    }
    assert(entry_views(entries@) =~= entry_views(entries@) + entries_from(files@, index as int));
    entries
}

} // verus!

verus! {

/// The entries `es` tile the files `start..end`: they are consecutive, each
/// covers at least one file, and together they cover exactly that range.
pub open spec fn tiles(es: Seq<EntryView>, start: int, end: int) -> bool {
    &&& (es.len() == 0 <==> start == end)
    &&& es.len() > 0 ==> es[0].file_index == start
    &&& es.len() > 0 ==> es.last().file_index + es.last().file_count == end
    &&& forall|k: int| 0 <= k < es.len() ==> #[trigger] es[k].file_count >= 1
    &&& forall|k: int|
        0 <= k < es.len() ==> start <= #[trigger] es[k].file_index && es[k].file_index
            + es[k].file_count <= end
    &&& forall|k: int|
        0 <= k < es.len() - 1 ==> #[trigger] es[k].file_index + es[k].file_count == es[k
            + 1].file_index
    &&& forall|k1: int, k2: int|
        0 <= k1 < k2 < es.len() ==> #[trigger] es[k1].file_index < #[trigger] es[k2].file_index
}

/// An entry is a single directory, or a run of MP3 files that share the
/// title of the run's first file and that the next file does not continue.
#[verifier::opaque]
pub open spec fn entry_well(files: Seq<FileInfo>, e: EntryView) -> bool {
    let first = e.file_index as int;
    let end = first + e.file_count;
    &&& e.file_type == files[first].file_type
    &&& e.file_type == FileType::Directory ==> e.file_count == 1
    &&& e.file_type == FileType::Directory ==> e.display_name == files[first].name@
    &&& e.file_type == FileType::Mp3File ==> (forall|j: int|
        first <= j < end ==> (#[trigger] files[j]).file_type == FileType::Mp3File && title_of(
            files[j],
        ) == title_of(files[first]))
    &&& (e.file_type == FileType::Mp3File && end < files.len()) ==> !(files[end].file_type
        == FileType::Mp3File && title_of(files[end]) == title_of(files[first]))
}

/// Every entry of `es` is well formed over `files`.
pub open spec fn groups_well(files: Seq<FileInfo>, es: Seq<EntryView>) -> bool {
    forall|k: int| 0 <= k < es.len() ==> entry_well(files, #[trigger] es[k])
}

proof fn lemma_group_end_run(files: Seq<FileInfo>, j: int, title: Seq<char>)
    requires
        0 <= j <= files.len(),
    ensures
        forall|m: int|
            j <= m < group_end(files, j, title) ==> (#[trigger] files[m]).file_type
                == FileType::Mp3File && title_of(files[m]) == title,
        group_end(files, j, title) < files.len() ==> !(files[group_end(files, j, title)].file_type
            == FileType::Mp3File && title_of(files[group_end(files, j, title)]) == title),
    decreases files.len() - j,
{
    lemma_group_end_bounds(files, j, title);
    if j < files.len() && files[j].file_type == FileType::Mp3File && title_of(files[j]) == title {
        lemma_group_end_run(files, j + 1, title);
    }
}

proof fn lemma_entries_from(files: Seq<FileInfo>, i: int)
    requires
        0 <= i <= files.len(),
    ensures
        tiles(entries_from(files, i), i, files.len() as int),
        groups_well(files, entries_from(files, i)),
    decreases files.len() - i,
{
    if i < files.len() {
        let next = if files[i].file_type == FileType::Directory {
            i + 1
        } else {
            let t = title_of(files[i]);
            lemma_group_end_bounds(files, i + 1, t);
            lemma_group_end_run(files, i + 1, t);
            group_end(files, i + 1, t)
        };
        lemma_entries_from(files, next);
        let rest = entries_from(files, next);
        let es = entries_from(files, i);
        assert(es.len() == rest.len() + 1);
        assert(es.drop_first() =~= rest);
        assert forall|k: int| 1 <= k < es.len() implies #[trigger] es[k] == rest[k - 1] by {}
        assert forall|k1: int, k2: int|
            0 <= k1 < k2 < es.len() implies #[trigger] es[k1].file_index
            < #[trigger] es[k2].file_index by {
            assert(es[k2] == rest[k2 - 1]);
            if k1 > 0 {
                assert(es[k1] == rest[k1 - 1]);
            }
        }
        assert forall|k: int| 0 <= k < es.len() - 1 implies #[trigger] es[k].file_index
            + es[k].file_count == es[k + 1].file_index by {
            assert(es[k + 1] == rest[k]);
            if k > 0 {
                assert(es[k] == rest[k - 1]);
            }
        }
        assert forall|k: int| 0 <= k < es.len() implies #[trigger] es[k].file_count >= 1 by {
            if k > 0 {
                assert(es[k] == rest[k - 1]);
            }
        }
        assert forall|k: int| 0 <= k < es.len() implies i <= #[trigger] es[k].file_index
            && es[k].file_index + es[k].file_count <= files.len() by {
            if k > 0 {
                assert(es[k] == rest[k - 1]);
            }
        }
        assert(entry_well(files, es[0])) by {
            reveal(entry_well);
        }
        assert forall|k: int| 0 <= k < es.len() implies entry_well(files, #[trigger] es[k]) by {
            if k > 0 {
                assert(es[k] == rest[k - 1]);
            }
        }
    }
}

/// Grouping loses and repeats nothing: the entries of `files` are in file
/// order, each covers at least one file, consecutive entries meet, and they
/// cover exactly `0..files.len()`. Every entry is a single directory, or a run
/// of MP3 files sharing its first file's title that the next file (if any)
/// does not continue.
pub proof fn law_entries_partition_files(files: Seq<FileInfo>)
    ensures
        tiles(list_spec(files), 0, files.len() as int),
        groups_well(files, list_spec(files)),
{
    lemma_entries_from(files, 0);
}

/// The entries `es` with their file indices moved on by `n`.
pub open spec fn shifted(es: Seq<EntryView>, n: nat) -> Seq<EntryView> {
    Seq::new(es.len(), |k: int| EntryView { file_index: es[k].file_index + n, ..es[k] })
}

proof fn lemma_group_end_suffix(a: Seq<FileInfo>, b: Seq<FileInfo>, j: int, t: Seq<char>)
    requires
        0 <= j <= b.len(),
    ensures
        group_end(a + b, a.len() + j, t) == a.len() + group_end(b, j, t),
    decreases b.len() - j,
{
    if j < b.len() {
        assert((a + b)[a.len() + j] == b[j]);
        if b[j].file_type == FileType::Mp3File && title_of(b[j]) == t {
            lemma_group_end_suffix(a, b, j + 1, t);
        }
    }
}

proof fn lemma_entries_suffix(a: Seq<FileInfo>, b: Seq<FileInfo>, j: int)
    requires
        0 <= j <= b.len(),
    ensures
        entries_from(a + b, a.len() + j) == shifted(entries_from(b, j), a.len()),
    decreases b.len() - j,
{
    let ab = a + b;
    let i = a.len() + j;
    if j == b.len() {
        assert(entries_from(ab, i) =~= shifted(entries_from(b, j), a.len()));
    } else {
        assert(ab[i] == b[j]);
        if b[j].file_type == FileType::Directory {
            lemma_entries_suffix(a, b, j + 1);
            assert(entries_from(ab, i) =~= shifted(entries_from(b, j), a.len()));
        } else {
            let t = title_of(b[j]);
            lemma_group_end_suffix(a, b, j + 1, t);
            lemma_group_end_bounds(b, j + 1, t);
            let e = group_end(b, j + 1, t);
            lemma_entries_suffix(a, b, e);
            let c = e - j;
            assert(ab[i + c - 1] == b[j + c - 1]);
            assert(mp3_display_spec(ab, i, c, t) == mp3_display_spec(b, j, c, t));
            assert(entries_from(ab, i) =~= shifted(entries_from(b, j), a.len()));
        }
    }
}

proof fn lemma_group_end_prefix(a: Seq<FileInfo>, b: Seq<FileInfo>, j: int, t: Seq<char>)
    requires
        0 <= j <= a.len(),
    ensures
        group_end(a + b, j, t) == (if group_end(a, j, t) < a.len() {
            group_end(a, j, t)
        } else {
            group_end(a + b, a.len() as int, t)
        }),
    decreases a.len() - j,
{
    if j < a.len() {
        assert((a + b)[j] == a[j]);
        if a[j].file_type == FileType::Mp3File && title_of(a[j]) == t {
            lemma_group_end_prefix(a, b, j + 1, t);
        }
    }
}

proof fn lemma_entries_prefix(a: Seq<FileInfo>, b: Seq<FileInfo>, i: int)
    requires
        0 <= i <= a.len(),
        (a.len() > 0 && a.last().file_type == FileType::Directory) || (b.len() > 0
            && b[0].file_type == FileType::Directory),
    ensures
        entries_from(a + b, i) == entries_from(a, i) + entries_from(a + b, a.len() as int),
    decreases a.len() - i,
{
    let ab = a + b;
    if i == a.len() {
        assert(entries_from(ab, i) =~= entries_from(a, i) + entries_from(ab, a.len() as int));
    } else {
        assert(ab[i] == a[i]);
        if a[i].file_type == FileType::Directory {
            lemma_entries_prefix(a, b, i + 1);
            assert(entries_from(ab, i) =~= entries_from(a, i) + entries_from(ab, a.len() as int));
        } else {
            let t = title_of(a[i]);
            lemma_group_end_prefix(a, b, i + 1, t);
            lemma_group_end_bounds(a, i + 1, t);
            lemma_group_end_run(a, i + 1, t);
            let e = group_end(a, i + 1, t);
            if e == a.len() {
                if a.len() > 0 && a.last().file_type == FileType::Directory {
                    assert(a[a.len() - 1].file_type == FileType::Mp3File);
                }
                assert(ab[a.len() as int] == b[0]);
                assert(group_end(ab, a.len() as int, t) == a.len());
            }
            assert(group_end(ab, i + 1, t) == e);
            lemma_entries_prefix(a, b, e);
            let c = e - i;
            assert(ab[i + c - 1] == a[i + c - 1]);
            assert(mp3_display_spec(ab, i, c, t) == mp3_display_spec(a, i, c, t));
            assert(entries_from(ab, i) =~= entries_from(a, i) + entries_from(ab, a.len() as int));
        }
    }
}

/// Grouping splits at a directory: when the last file of `a` or the first of
/// `b` is a directory, the entries of `a + b` are those of `a` followed by
/// those of `b` with their file indices moved on by `a.len()`.
pub proof fn law_entries_split_at_directory(a: Seq<FileInfo>, b: Seq<FileInfo>)
    requires
        (a.len() > 0 && a.last().file_type == FileType::Directory) || (b.len() > 0
            && b[0].file_type == FileType::Directory),
    ensures
        list_spec(a + b) == list_spec(a) + shifted(list_spec(b), a.len()),
{
    lemma_entries_prefix(a, b, 0);
    lemma_entries_suffix(a, b, 0);
}

proof fn lemma_directory_entry_from(files: Seq<FileInfo>, i: int, p: int) -> (k: int)
    requires
        0 <= i <= p < files.len(),
        files[p].file_type == FileType::Directory,
    ensures
        0 <= k < entries_from(files, i).len(),
        entries_from(files, i)[k].file_index == p,
        entries_from(files, i)[k].file_count == 1,
        entries_from(files, i)[k].file_type == FileType::Directory,
        entries_from(files, i)[k].display_name == files[p].name@,
    decreases p - i,
{
    if files[i].file_type == FileType::Directory {
        if p == i {
            0
        } else {
            let k = lemma_directory_entry_from(files, i + 1, p);
            k + 1
        }
    } else {
        let t = title_of(files[i]);
        lemma_group_end_bounds(files, i + 1, t);
        lemma_group_end_run(files, i + 1, t);
        let e = group_end(files, i + 1, t);
        if p < e {
            assert(files[p].file_type == FileType::Mp3File);
        }
        let k = lemma_directory_entry_from(files, e, p);
        k + 1
    }
}

/// Every listed directory has an entry of its own: one that starts at it,
/// covers it alone and shows its name.
pub proof fn law_directory_has_own_entry(files: Seq<FileInfo>, p: int) -> (k: int)
    requires
        0 <= p < files.len(),
        files[p].file_type == FileType::Directory,
    ensures
        0 <= k < list_spec(files).len(),
        list_spec(files)[k].file_index == p,
        list_spec(files)[k].file_count == 1,
        list_spec(files)[k].file_type == FileType::Directory,
        list_spec(files)[k].display_name == files[p].name@,
{
    lemma_directory_entry_from(files, 0, p)
}

} // verus!
