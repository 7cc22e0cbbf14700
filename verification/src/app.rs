//! The browsing and playback state of the player: the listed files, the
//! selected list entry, the title being played through, and the decisions
//! taken on each key press and tick. Reading directories and driving the
//! audio output are left to the caller, which hands in what it read and
//! carries out the returned actions.

use vstd::prelude::*;
use vstd::string::StringExecFns;
use crate::files::{
    FileInfo, FileListEntry, FileType, EntryView, build_file_list_entries, list_spec,
    entry_views, title_of, tiles, law_entries_partition_files, law_directory_has_own_entry,
};
use crate::player::{Player, PlayerView, PlaybackMode, SinkAction, no_file_label, MAX_DURATION_NANOS};
use crate::nav::{
    navigate_up_target, current_directory_display, path_parent, path_not_before,
    dir_name_or_empty, directory_display_spec, component_reading, within_root,
    law_up_stays_within_root,
};
use crate::text::{decimal, decimal_string, minutes_seconds, format_minutes_seconds};

verus! {

/// What the caller does with the audio output after `App::update`.
pub enum UpdateAction {
    /// Nothing changes.
    Nothing,
    /// Play the file at this path next, in this mode, continuing the current
    /// title.
    PlayNext(String, PlaybackMode),
    /// Playback has stopped: stop the audio output.
    Stopped,
}

/// The player's state: the files of the directory shown, the selected list
/// entry, the playback state, and the title that continued play follows.
/// The natural-speed flag is kept and labelled, but no rule says which tracks
/// are natural-speed ones, so the list shows every track whatever the flag.
pub struct App {
    files: Vec<FileInfo>,
    selected: usize,
    player: Player,
    should_quit: bool,
    natural_speed_only: bool,
    playback_title: Option<String>,
    root_directory: String,
    current_directory: String,
}

/// The mathematical content of an `App`.
pub struct AppView {
    pub files: Seq<FileInfo>,
    pub selected: nat,
    pub player: PlayerView,
    pub should_quit: bool,
    pub natural_speed_only: bool,
    pub playback_title: Option<Seq<char>>,
    pub root_directory: Seq<char>,
    pub current_directory: Seq<char>,
}

impl View for App {
    type V = AppView;

    closed spec fn view(&self) -> AppView {
        AppView {
            files: self.files@,
            selected: self.selected as nat,
            player: self.player@,
            should_quit: self.should_quit,
            natural_speed_only: self.natural_speed_only,
            playback_title: match self.playback_title {
                Some(t) => Some(t@),
                None => None,
            },
            root_directory: self.root_directory@,
            current_directory: self.current_directory@,
        }
    }
}

/// The selection after moving down: the next entry, wrapping to the first.
pub open spec fn next_index(selected: nat, len: nat) -> nat {
    if len > 0 {
        (selected + 1) % len
    } else {
        selected
    }
}

/// The selection after moving up: the previous entry, wrapping to the last.
pub open spec fn prev_index(selected: nat, len: nat) -> nat {
    if len > 0 {
        if selected == 0 {
            (len - 1) as nat
        } else {
            (selected - 1) as nat
        }
    } else {
        selected
    }
}

/// The number of list rows shown at once; a page move goes this far.
pub const PAGE_SIZE: usize = 3;

/// How far a page move goes in a list of `len > 0` entries: a page, taken
/// around the list.
pub open spec fn page_step(len: nat) -> nat {
    (PAGE_SIZE as nat) % len
}

/// The selection after a page down: a page further, wrapping past the end.
pub open spec fn page_down_index(selected: nat, len: nat) -> nat {
    if len > 0 {
        (selected + page_step(len)) % len
    } else {
        selected
    }
}

/// The selection after a page up: a page back, wrapping past the start.
pub open spec fn page_up_index(selected: nat, len: nat) -> nat {
    if len > 0 {
        ((selected + len - page_step(len)) as nat) % len
    } else {
        selected
    }
}

/// The first file at or after `j` named `name`.
pub open spec fn first_named(files: Seq<FileInfo>, name: Seq<char>, j: int) -> Option<int>
    decreases files.len() - j,
{
    if 0 <= j < files.len() {
        if files[j].name@ == name {
            Some(j)
        } else {
            first_named(files, name, j + 1)
        }
    } else {
        None
    }
}

/// The first directory at or after `j` named `name`.
pub open spec fn first_dir_named(files: Seq<FileInfo>, name: Seq<char>, j: int) -> Option<int>
    decreases files.len() - j,
{
    if 0 <= j < files.len() {
        if files[j].file_type == FileType::Directory && files[j].name@ == name {
            Some(j)
        } else {
            first_dir_named(files, name, j + 1)
        }
    } else {
        None
    }
}

/// The next track of title `t` from `j` on: the first MP3 file at or after
/// `j`, skipping directories, if it carries that title; none otherwise.
pub open spec fn next_same_title(files: Seq<FileInfo>, t: Seq<char>, j: int) -> Option<int>
    decreases files.len() - j,
{
    if 0 <= j < files.len() {
        if files[j].file_type == FileType::Mp3File {
            if title_of(files[j]) == t {
                Some(j)
            } else {
                None
            }
        } else {
            next_same_title(files, t, j + 1)
        }
    } else {
        None
    }
}

/// The first list entry at or after `k` that starts at file `fi`.
pub open spec fn entry_of_file(es: Seq<EntryView>, fi: nat, k: int) -> Option<int>
    decreases es.len() - k,
{
    if 0 <= k < es.len() {
        if es[k].file_index == fi {
            Some(k)
        } else {
            entry_of_file(es, fi, k + 1)
        }
    } else {
        None
    }
}

/// The first list entry at or after `k` that starts at file `fi` or later.
pub open spec fn entry_from_file(es: Seq<EntryView>, fi: nat, k: int) -> Option<int>
    decreases es.len() - k,
{
    if 0 <= k < es.len() {
        if es[k].file_index >= fi {
            Some(k)
        } else {
            entry_from_file(es, fi, k + 1)
        }
    } else {
        None
    }
}

/// The label shown when the list is empty and nothing plays.
pub open spec fn no_list_file_label() -> Seq<char> {
    seq!['フ', 'ァ', 'イ', 'ル', 'な', 'し']
}

pub open spec fn opt_usize_is(r: Option<usize>, s: Option<int>) -> bool {
    match r {
        Some(k) => s == Some(k as int),
        None => s is None,
    }
}

impl AppView {
    pub open spec fn entries(self) -> Seq<EntryView> {
        list_spec(self.files)
    }

    pub open spec fn list_len(self) -> nat {
        self.entries().len()
    }

    /// The index in `files` of the file that the selected entry starts at.
    pub open spec fn selected_file_index(self) -> Option<int> {
        if self.selected < self.list_len() {
            Some(self.entries()[self.selected as int].file_index as int)
        } else {
            None
        }
    }

    /// The file name shown in the header: the player's, else the selected
    /// entry's label, else "ファイルなし".
    pub open spec fn shown_name(self, now: nat) -> Seq<char> {
        let playing = self.player.shown_name(now);
        if playing != no_file_label() {
            playing
        } else if self.selected < self.list_len() {
            self.entries()[self.selected as int].display_name
        } else {
            no_list_file_label()
        }
    }

    /// The list index for file `fi` when the list has no entry starting there:
    /// the first entry after it, else the last entry.
    pub open spec fn entry_at_or_after(self, fi: nat) -> Option<int> {
        match entry_from_file(self.entries(), fi, 0) {
            Some(k) => Some(k),
            None => if self.list_len() > 0 {
                Some(self.list_len() - 1)
            } else {
                None
            },
        }
    }
}

proof fn lemma_entry_of_file_found(es: Seq<EntryView>, fi: nat, k: int, sel: int)
    requires
        0 <= k <= sel < es.len(),
        es[sel].file_index == fi,
        forall|k1: int, k2: int|
            0 <= k1 < k2 < es.len() ==> #[trigger] es[k1].file_index < #[trigger] es[k2].file_index,
    ensures
        entry_of_file(es, fi, k) == Some(sel),
    decreases sel - k,
{
    if k < sel {
        assert(es[k].file_index < es[sel].file_index);
        lemma_entry_of_file_found(es, fi, k + 1, sel);
    }
}

proof fn lemma_entry_of_file_range(es: Seq<EntryView>, fi: nat, k: int)
    requires
        0 <= k,
    ensures
        entry_of_file(es, fi, k) matches Some(x) ==> k <= x < es.len() && es[x].file_index == fi,
    decreases es.len() - k,
{
    if 0 <= k < es.len() && es[k].file_index != fi {
        lemma_entry_of_file_range(es, fi, k + 1);
    }
}

/// The next track that continued play moves to is an MP3 file of the title
/// being played, at or after the place searched from, with only directories
/// between: play never continues into another title.
pub proof fn law_next_track_same_title(files: Seq<FileInfo>, t: Seq<char>, j: int)
    requires
        0 <= j,
    ensures
        next_same_title(files, t, j) matches Some(k) ==> {
            &&& j <= k < files.len()
            &&& files[k].file_type == FileType::Mp3File
            &&& title_of(files[k]) == t
            &&& forall|m: int| j <= m < k ==> (#[trigger] files[m]).file_type == FileType::Directory
        },
    decreases files.len() - j,
{
    if 0 <= j < files.len() && files[j].file_type != FileType::Mp3File {
        law_next_track_same_title(files, t, j + 1);
    }
}

/// The next-track search finds what there is to find: when the first MP3
/// file at or after `j` (directories in between skipped) is at `k` and has
/// title `t`, continued play moves to `k`, wherever `k` stands in the list,
/// the last file included; when that first MP3 file has another title, or
/// there is none, play does not continue.
pub proof fn law_next_track_found(files: Seq<FileInfo>, t: Seq<char>, j: int, k: int)
    requires
        0 <= j <= k < files.len(),
        files[k].file_type == FileType::Mp3File,
        forall|m: int| j <= m < k ==> (#[trigger] files[m]).file_type == FileType::Directory,
    ensures
        title_of(files[k]) == t ==> next_same_title(files, t, j) == Some(k),
        title_of(files[k]) != t ==> next_same_title(files, t, j) is None,
    decreases k - j,
{
    if j < k {
        law_next_track_found(files, t, j + 1, k);
    }
}

/// With no MP3 file at or after `j`, play does not continue.
pub proof fn law_no_next_track(files: Seq<FileInfo>, t: Seq<char>, j: int)
    requires
        0 <= j,
        forall|m: int| j <= m < files.len() ==> (#[trigger] files[m]).file_type == FileType::Directory,
    ensures
        next_same_title(files, t, j) is None,
    decreases files.len() - j,
{
    if j < files.len() {
        law_no_next_track(files, t, j + 1);
    }
}

/// Focusing finds the directory that was left wherever it stands: when
/// `files[p]` is a directory named `name` and no directory before it has that
/// name, the search gives `p`, the last file included; when no directory has
/// that name, it gives none.
pub proof fn law_directory_found(files: Seq<FileInfo>, name: Seq<char>, p: int)
    requires
        0 <= p < files.len(),
        files[p].file_type == FileType::Directory,
        files[p].name@ == name,
        forall|m: int|
            0 <= m < p ==> !((#[trigger] files[m]).file_type == FileType::Directory && files[m].name@
                == name),
    ensures
        first_dir_named(files, name, 0) == Some(p),
{
    lemma_first_dir_from(files, name, 0, p);
}

proof fn lemma_first_dir_from(files: Seq<FileInfo>, name: Seq<char>, j: int, p: int)
    requires
        0 <= j <= p < files.len(),
        files[p].file_type == FileType::Directory,
        files[p].name@ == name,
        forall|m: int|
            j <= m < p ==> !((#[trigger] files[m]).file_type == FileType::Directory && files[m].name@
                == name),
    ensures
        first_dir_named(files, name, j) == Some(p),
    decreases p - j,
{
    if j < p {
        lemma_first_dir_from(files, name, j + 1, p);
    }
}

/// After going up, the cursor lands on the directory that was left: when
/// `files[p]` is the first directory named `name`, `focus_directory(name)`
/// selects the list entry that starts at `p`, which is `p`'s own entry.
pub proof fn law_focus_selects_left_directory(v: AppView, name: Seq<char>, p: int)
    requires
        0 <= p < v.files.len(),
        v.files[p].file_type == FileType::Directory,
        v.files[p].name@ == name,
        forall|m: int|
            0 <= m < p ==> !((#[trigger] v.files[m]).file_type == FileType::Directory
                && v.files[m].name@ == name),
    ensures
        first_dir_named(v.files, name, 0) == Some(p),
        entry_of_file(v.entries(), p as nat, 0) matches Some(x) && 0 <= x < v.list_len()
            && v.entries()[x].file_index == p && v.entries()[x].file_type == FileType::Directory,
{
    law_directory_found(v.files, name, p);
    let k = law_directory_has_own_entry(v.files, p);
    law_entries_partition_files(v.files);
    lemma_entry_of_file_found(v.entries(), p as nat, 0, k);
}

/// With no directory named `name` from `j` on, the search gives none.
pub proof fn law_directory_absent(files: Seq<FileInfo>, name: Seq<char>, j: int)
    requires
        0 <= j,
        forall|m: int|
            j <= m < files.len() ==> !((#[trigger] files[m]).file_type == FileType::Directory
                && files[m].name@ == name),
    ensures
        first_dir_named(files, name, j) is None,
    decreases files.len() - j,
{
    if j < files.len() {
        law_directory_absent(files, name, j + 1);
    }
}

/// Moving down selects the next entry and moving up the previous one,
/// wrapping from the last entry to the first and back, in every list with
/// at least one entry; in a list of two or more the selection always moves.
pub proof fn law_select_moves_by_one(selected: nat, len: nat)
    requires
        selected < len,
    ensures
        next_index(selected, len) as int == (selected as int + 1) % (len as int),
        prev_index(selected, len) as int == (selected as int + len as int - 1) % (len as int),
        selected + 1 < len ==> next_index(selected, len) == selected + 1,
        selected + 1 == len ==> next_index(selected, len) == 0,
        selected > 0 ==> prev_index(selected, len) == selected - 1,
        selected == 0 ==> prev_index(selected, len) == len - 1,
        len >= 2 ==> next_index(selected, len) != selected && prev_index(selected, len) != selected,
{
    let s = selected as int;
    let n = len as int;
    if s + 1 < n {
        assert((s + 1) % n == s + 1) by (nonlinear_arith)
            requires
                0 <= s + 1 < n,
        ;
    } else {
        assert((s + 1) % n == 0) by (nonlinear_arith)
            requires
                s + 1 == n,
                n > 0,
        ;
    }
    if s > 0 {
        assert((s + n - 1) % n == s - 1) by (nonlinear_arith)
            requires
                0 < s < n,
        ;
    } else {
        assert((s + n - 1) % n == n - 1) by (nonlinear_arith)
            requires
                s == 0,
                n > 0,
        ;
    }
}

/// Moving the selection down and then up, or up and then down, returns to
/// the entry selected before; either move keeps the selection in the list.
pub proof fn law_select_round_trip(selected: nat, len: nat)
    requires
        selected < len,
    ensures
        prev_index(next_index(selected, len), len) == selected,
        next_index(prev_index(selected, len), len) == selected,
        next_index(selected, len) < len,
        prev_index(selected, len) < len,
{
    if selected + 1 < len {
        assert((selected + 1) % len == selected + 1) by (nonlinear_arith)
            requires
                selected + 1 < len,
        ;
    } else {
        assert((selected + 1) % len == 0) by (nonlinear_arith)
            requires
                selected + 1 == len,
        ;
    }
    if selected > 0 {
        assert(selected % len == selected) by (nonlinear_arith)
            requires
                selected < len,
        ;
    } else {
        assert(len % len == 0) by (nonlinear_arith)
            requires
                len > 0,
        ;
    }
}

proof fn lemma_page_arith(selected: int, len: int, k: int)
    requires
        0 <= selected < len,
        0 <= k < len,
    ensures
        (selected + k) % len == (if selected + k < len {
            selected + k
        } else {
            selected + k - len
        }),
        (selected + len - k) % len == (if selected >= k {
            selected - k
        } else {
            selected + len - k
        }),
{
    if selected + k < len {
        assert((selected + k) % len == selected + k) by (nonlinear_arith)
            requires
                0 <= selected + k < len,
        ;
    } else {
        assert((selected + k) % len == selected + k - len) by (nonlinear_arith)
            requires
                len <= selected + k < 2 * len,
        ;
    }
    if selected >= k {
        assert((selected + len - k) % len == selected - k) by (nonlinear_arith)
            requires
                len <= selected + len - k < 2 * len,
        ;
    } else {
        assert((selected + len - k) % len == selected + len - k) by (nonlinear_arith)
            requires
                0 <= selected + len - k < len,
        ;
    }
}

/// A page down followed by a page up, or the other way round, returns to the
/// entry selected before; a page down moves `PAGE_SIZE` entries on around the
/// list; either move keeps the selection in the list.
pub proof fn law_page_round_trip(selected: nat, len: nat)
    requires
        selected < len,
    ensures
        page_up_index(page_down_index(selected, len), len) == selected,
        page_down_index(page_up_index(selected, len), len) == selected,
        page_down_index(selected, len) == (selected + PAGE_SIZE) % (len as int),
        page_down_index(selected, len) < len,
        page_up_index(selected, len) < len,
{
    let k = page_step(len) as int;
    assert(0 <= k < len) by (nonlinear_arith)
        requires
            k == (PAGE_SIZE as int) % (len as int),
            len > 0,
    ;
    lemma_page_arith(selected as int, len as int, k);
    let d = page_down_index(selected, len) as int;
    let u = page_up_index(selected, len) as int;
    lemma_page_arith(d, len as int, k);
    lemma_page_arith(u, len as int, k);
    vstd::arithmetic::div_mod::lemma_add_mod_noop(selected as int, PAGE_SIZE as int, len as int);
    vstd::arithmetic::div_mod::lemma_small_mod(selected, len);
}

/// Esc never leaves the start directory. Under a reading `components` of
/// paths as component sequences (see `component_reading`), when the current
/// directory lies at or below the root and going up leads to `target` (as
/// `up_target` returns it, after which `navigate_to_directory` makes it
/// current with the root unchanged), the new state's current directory lies
/// at or below the root as well; and going up never happens from the root
/// itself.
pub proof fn law_navigate_up_within_root(
    components: spec_fn(Seq<char>) -> Seq<Seq<char>>,
    v: AppView,
    new_files: Seq<FileInfo>,
    target: Seq<char>,
)
    requires
        component_reading(components),
        within_root(components, v.current_directory, v.root_directory),
        path_parent(v.current_directory) == Some(target),
        path_not_before(target, v.root_directory),
    ensures
        ({
            let after = AppView {
                files: new_files,
                selected: 0,
                current_directory: target,
                ..v
            };
            within_root(components, after.current_directory, after.root_directory)
        }),
        components(v.current_directory) != components(v.root_directory),
{
    law_up_stays_within_root(components, v.current_directory, v.root_directory);
}

impl App {
    /// The selection stays within the list (or at 0 when the list is empty).
    #[verifier::type_invariant]
    closed spec fn selection_in_list(self) -> bool {
        self.selected < list_spec(self.files@).len() || self.selected == 0
    }

    /// The state at start, showing `files`, the listing of the start
    /// directory `root`, which is also the current directory; none when the
    /// listing holds no files.
    pub fn new(files: Vec<FileInfo>, root: String) -> (r: Option<App>)
        ensures
            r is None <==> files@.len() == 0,
            r matches Some(a) ==> a@ == (AppView {
                files: files@,
                selected: 0,
                player: PlayerView::stopped(),
                should_quit: false,
                natural_speed_only: true,
                playback_title: None,
                root_directory: root@,
                current_directory: root@,
            }),
    {
        if files.len() == 0 {
            None
        } else {
            Some(
                App {
                    files,
                    selected: 0,
                    player: Player::new(),
                    should_quit: false,
                    natural_speed_only: true,
                    playback_title: None,
                    current_directory: root.clone(),
                    root_directory: root,
                },
            )
        }
    }

    /// The listed files.
    pub fn files(&self) -> (r: &Vec<FileInfo>)
        ensures
            r@ == self@.files,
    {
        &self.files
    }

    /// The selected list index.
    pub fn selected(&self) -> (r: usize)
        ensures
            r == self@.selected,
            r < self@.list_len() || r == 0,
    {
        proof {
            use_type_invariant(self);
        }
        self.selected
    }

    /// Whether the user asked to quit.
    pub fn should_quit(&self) -> (r: bool)
        ensures
            r == self@.should_quit,
    {
        self.should_quit
    }

    /// Whether the natural-speed filter is on (it changes the label only).
    pub fn natural_speed_only(&self) -> (r: bool)
        ensures
            r == self@.natural_speed_only,
    {
        self.natural_speed_only
    }

    /// The playback state.
    pub fn player(&self) -> (r: &Player)
        ensures
            r@ == self@.player,
    {
        &self.player
    }

    /// The list entries of the files.
    pub fn list_entries(&self) -> (r: Vec<FileListEntry>)
        ensures
            entry_views(r@) == self@.entries(),
    {
        build_file_list_entries(self.files.as_slice())
    }

    fn list_len(&self) -> (r: usize)
        ensures
            r == self@.list_len(),
    {
        let entries = self.list_entries();
        assert(entry_views(entries@).len() == entries@.len());
        entries.len()
    }

    /// Moves the selection down, wrapping from the last entry to the first.
    pub fn select_next(&mut self)
        ensures
            final(self)@ == (AppView {
                selected: next_index(old(self)@.selected, old(self)@.list_len()),
                ..old(self)@
            }),
    {
        proof {
            use_type_invariant(&*self);
        }
        let list_len = self.list_len();
        if list_len > 0 {
            self.selected = (self.selected + 1) % list_len;
        }
    }

    /// Moves the selection up, wrapping from the first entry to the last.
    pub fn select_prev(&mut self)
        ensures
            final(self)@ == (AppView {
                selected: prev_index(old(self)@.selected, old(self)@.list_len()),
                ..old(self)@
            }),
    {
        proof {
            use_type_invariant(&*self);
        }
        let list_len = self.list_len();
        if list_len > 0 {
            if self.selected == 0 {
                self.selected = list_len - 1;
            } else {
                self.selected = self.selected - 1;
            }
        }
    }

    /// Moves the selection a page down, wrapping past the last entry.
    pub fn page_down(&mut self)
        ensures
            final(self)@ == (AppView {
                selected: page_down_index(old(self)@.selected, old(self)@.list_len()),
                ..old(self)@
            }),
    {
        proof {
            use_type_invariant(&*self);
        }
        let list_len = self.list_len();
        if list_len > 0 {
            let k = PAGE_SIZE % list_len;
            proof {
                lemma_page_arith(self.selected as int, list_len as int, k as int);
            }
            if self.selected < list_len - k {
                self.selected = self.selected + k;
            } else {
                self.selected = self.selected - (list_len - k);
            }
        }
    }

    /// Moves the selection a page up, wrapping past the first entry.
    pub fn page_up(&mut self)
        ensures
            final(self)@ == (AppView {
                selected: page_up_index(old(self)@.selected, old(self)@.list_len()),
                ..old(self)@
            }),
    {
        proof {
            use_type_invariant(&*self);
        }
        let list_len = self.list_len();
        if list_len > 0 {
            let k = PAGE_SIZE % list_len;
            proof {
                lemma_page_arith(self.selected as int, list_len as int, k as int);
            }
            if self.selected >= k {
                self.selected = self.selected - k;
            } else {
                self.selected = self.selected + (list_len - k);
            }
        }
    }

    /// The list index of the entry that starts at file `file_index`.
    pub fn display_index_for_file_index(&self, file_index: usize) -> (r: Option<usize>)
        ensures
            opt_usize_is(r, entry_of_file(self@.entries(), file_index as nat, 0)),
    {
        let entries = self.list_entries();
        let n = entries.len();
        let mut k: usize = 0;
        while k < n && entries[k].file_index != file_index
            invariant
                n == entries@.len(),
                entry_views(entries@) == self@.entries(),
                k <= n,
                entry_of_file(self@.entries(), file_index as nat, k as int) == entry_of_file(
                    self@.entries(),
                    file_index as nat,
                    0,
                ),
            decreases n - k,
        {
            k = k + 1;
        }
        if k < n {
            Some(k)
        } else {
            None
        }
    }

    /// The list index of the first entry that starts at file `file_index` or
    /// later, else of the last entry.
    pub fn display_index_at_or_after_file_index(&self, file_index: usize) -> (r: Option<usize>)
        ensures
            opt_usize_is(r, self@.entry_at_or_after(file_index as nat)),
    {
        let entries = self.list_entries();
        let n = entries.len();
        let mut k: usize = 0;
        while k < n && entries[k].file_index < file_index
            invariant
                n == entries@.len(),
                entry_views(entries@) == self@.entries(),
                k <= n,
                entry_from_file(self@.entries(), file_index as nat, k as int) == entry_from_file(
                    self@.entries(),
                    file_index as nat,
                    0,
                ),
            decreases n - k,
        {
            k = k + 1;
        }
        if k < n {
            Some(k)
        } else if n > 0 {
            Some(n - 1)
        } else {
            None
        }
    }
}

impl App {
    proof fn lemma_list(&self)
        ensures
            tiles(self@.entries(), 0, self@.files.len() as int),
    {
        law_entries_partition_files(self@.files);
    }

    /// Flips the natural-speed filter, keeping the same entry selected. The
    /// list does not depend on the flag, so only the label changes.
    pub fn toggle_natural_speed_filter(&mut self)
        ensures
            final(self)@ == (AppView {
                natural_speed_only: !old(self)@.natural_speed_only,
                ..old(self)@
            }),
    {
        proof {
            use_type_invariant(&*self);
            self.lemma_list();
        }
        let entries = self.list_entries();
        let selected_file_index = if self.selected < entries.len() {
            Some(entries[self.selected].file_index)
        } else {
            None
        };
        self.natural_speed_only = !self.natural_speed_only;
        if let Some(file_index) = selected_file_index {
            proof {
                lemma_entry_of_file_found(self@.entries(), file_index as nat, 0, self.selected as int);
            }
            let found = match self.display_index_for_file_index(file_index) {
                Some(d) => Some(d),
                None => self.display_index_at_or_after_file_index(file_index),
            };
            if let Some(display_index) = found {
                self.selected = display_index;
            } else {
                let list_len = entries.len();
                let last = if list_len > 0 { list_len - 1 } else { 0 };
                self.selected = if self.selected < last { self.selected } else { last };
            }
        }
    }

    /// Asks to quit.
    pub fn quit(&mut self)
        ensures
            final(self)@ == (AppView { should_quit: true, ..old(self)@ }),
    {
        proof {
            use_type_invariant(&*self);
        }
        self.should_quit = true;
    }

    /// The name shown in the header: the file playing, else the label of the
    /// selected entry, else "ファイルなし".
    pub fn current_file_name(&self, now: u128) -> (r: String)
        requires
            self@.player.clock_ok(now as nat),
        ensures
            r@ == self@.shown_name(now as nat),
    {
        let name = self.player.current_file_name(now);
        let none_label = "なし".to_owned();
        proof {
            reveal_strlit("なし");
            reveal_strlit("ファイルなし");
            assert(none_label@ =~= no_file_label());
            assert("ファイルなし"@ =~= no_list_file_label());
        }
        if !(name == none_label) {
            return name;
        }
        let entries = self.list_entries();
        if self.selected < entries.len() {
            assert(entries@[self.selected as int]@ == self@.entries()[self.selected as int]);
            entries[self.selected].display_name.clone()
        } else {
            "ファイルなし".to_owned()
        }
    }

    /// Whether one of the entry's files is the one playing.
    pub fn is_list_entry_playing(&self, entry: &FileListEntry, now: u128) -> (r: bool)
        requires
            self@.player.clock_ok(now as nat),
            entry.file_index + entry.file_count <= self@.files.len(),
        ensures
            r == (self@.player.shown_name(now as nat) != no_file_label() && exists|m: int|
                entry.file_index <= m < entry.file_index + entry.file_count
                    && (#[trigger] self@.files[m]).name@ == self@.player.shown_name(now as nat)),
    {
        let current_playing = self.player.current_file_name(now);
        let none_label = "なし".to_owned();
        proof {
            reveal_strlit("なし");
            assert(none_label@ =~= no_file_label());
        }
        if current_playing == none_label {
            return false;
        }
        let n = self.files.len();
        let end = entry.file_index + entry.file_count;
        let mut j = entry.file_index;
        while j < end
            invariant
                entry.file_index <= j <= end <= self@.files.len(),
                end == entry.file_index + entry.file_count,
                current_playing@ == self@.player.shown_name(now as nat),
                current_playing@ != no_file_label(),
                forall|m: int|
                    entry.file_index <= m < j ==> (#[trigger] self@.files[m]).name@
                        != current_playing@,
            decreases end - j,
        {
            if self.files[j].name == current_playing {
                assert(self@.files[j as int].name@ == current_playing@);
                return true;
            }
            j = j + 1;
        }
        false
    }

    /// Whether `now` is a clock reading the player can work with.
    pub fn clock_valid(&self, now: u128) -> (r: bool)
        ensures
            r == self@.player.clock_ok(now as nat),
    {
        self.player.clock_valid(now)
    }

    /// Whether the track is playing at `now`.
    pub fn is_playing(&self, now: u128) -> (r: bool)
        requires
            self@.player.clock_ok(now as nat),
        ensures
            r == self@.player.playing(now as nat),
            r ==> self@.player.current_file is Some,
            (self@.player.playback_mode != PlaybackMode::Repeat && self@.player.finished(
                now as nat,
            )) ==> !r,
    {
        self.player.is_playing(now)
    }

    /// Whether a file is loaded.
    pub fn has_current_file(&self) -> (r: bool)
        ensures
            r == (self@.player.current_file is Some),
    {
        self.player.has_current_file()
    }

    /// The playback position as "MM:SS".
    pub fn current_time_str(&self, now: u128) -> (r: String)
        requires
            self@.player.clock_ok(now as nat),
        ensures
            r@ == minutes_seconds(self@.player.position(now as nat) / 1_000_000_000),
    {
        let position = self.player.get_position(now);
        let secs = (position / 1_000_000_000) as u64;
        format_minutes_seconds(secs)
    }

    /// The track length as "MM:SS".
    pub fn total_time_str(&self) -> (r: String)
        ensures
            r@ == minutes_seconds(self@.player.duration() / 1_000_000_000),
    {
        let duration = self.player.get_duration();
        let secs = (duration / 1_000_000_000) as u64;
        format_minutes_seconds(secs)
    }

    /// "(i/n)": the selected entry's place in the list, counted from one; empty
    /// for an empty list.
    pub fn current_position_info(&self) -> (r: String)
        ensures
            r@ == (if self@.list_len() == 0 {
                Seq::<char>::empty()
            } else {
                seq!['('] + decimal(self@.selected + 1) + seq!['/'] + decimal(self@.list_len())
                    + seq![')']
            }),
    {
        proof {
            use_type_invariant(self);
        }
        let list_len = self.list_len();
        if list_len == 0 {
            String::new()
        } else {
            proof {
                reveal_strlit("(");
                reveal_strlit("/");
                reveal_strlit(")");
            }
            let mut s = "(".to_owned();
            let index = decimal_string((self.selected + 1) as u64);
            s.append(index.as_str());
            s.append("/");
            let total = decimal_string(list_len as u64);
            s.append(total.as_str());
            s.append(")");
            s
        }
    }

    /// The label of the speed filter.
    pub fn speed_filter_label(&self) -> (r: &'static str)
        ensures
            r@ == (if self@.natural_speed_only {
                seq!['ナ', 'チ', 'ュ', 'ラ', 'ル', 'の', 'み']
            } else {
                seq!['全', '速', '度']
            }),
    {
        proof {
            reveal_strlit("ナチュラルのみ");
            reveal_strlit("全速度");
        }
        if self.natural_speed_only {
            "ナチュラルのみ"
        } else {
            "全速度"
        }
    }

    /// Makes `target` the current directory, showing `new_files`, its
    /// listing, with the first entry selected.
    pub fn navigate_to_directory(&mut self, new_files: Vec<FileInfo>, target: String)
        ensures
            final(self)@ == (AppView {
                files: new_files@,
                selected: 0,
                current_directory: target@,
                ..old(self)@
            }),
    {
        self.selected = 0;
        self.files = new_files;
        self.current_directory = target;
    }

    /// The start directory.
    pub fn root_directory(&self) -> (r: &str)
        ensures
            r@ == self@.root_directory,
    {
        self.root_directory.as_str()
    }

    /// The directory shown.
    pub fn current_directory(&self) -> (r: &str)
        ensures
            r@ == self@.current_directory,
    {
        self.current_directory.as_str()
    }

    /// Where Esc leads: the parent of the current directory, unless it has
    /// none or the parent comes before the root in path order; with the name
    /// of the directory left, to select it again.
    pub fn up_target(&self) -> (r: Option<(String, String)>)
        ensures
            r is Some <==> (path_parent(self@.current_directory) matches Some(p) && path_not_before(
                p,
                self@.root_directory,
            )),
            r matches Some(target) ==> path_parent(self@.current_directory) == Some(target.0@)
                && target.1@ == dir_name_or_empty(self@.current_directory),
    {
        navigate_up_target(self.current_directory.as_str(), self.root_directory.as_str())
    }

    /// The header's text naming the current directory relative to the root.
    pub fn current_directory_display(&self) -> (r: String)
        ensures
            r@ == directory_display_spec(self@.current_directory, self@.root_directory),
    {
        current_directory_display(self.current_directory.as_str(), self.root_directory.as_str())
    }

    /// After going up a level, selects the entry of the directory that was
    /// left, when it is listed.
    pub fn focus_directory(&mut self, dir_name: &str)
        ensures
            final(self)@ == (match first_dir_named(old(self)@.files, dir_name@, 0) {
                Some(pos) => AppView {
                    selected: match entry_of_file(old(self)@.entries(), pos as nat, 0) {
                        Some(d) => d as nat,
                        None => 0,
                    },
                    ..old(self)@
                },
                None => old(self)@,
            }),
    {
        let target = dir_name.to_owned();
        let n = self.files.len();
        let mut j: usize = 0;
        while j < n && !(self.files[j].file_type == FileType::Directory && self.files[j].name
            == target)
            invariant
                n == self@.files.len(),
                j <= n,
                target@ == dir_name@,
                first_dir_named(self@.files, dir_name@, j as int) == first_dir_named(
                    self@.files,
                    dir_name@,
                    0,
                ),
            decreases n - j,
        {
            j = j + 1;
        }
        if j < n {
            proof {
                lemma_entry_of_file_range(self@.entries(), j as nat, 0);
            }
            match self.display_index_for_file_index(j) {
                Some(d) => {
                    self.selected = d;
                },
                None => {
                    self.selected = 0;
                },
            }
        }
    }

    fn selected_file(&self) -> (r: Option<&FileInfo>)
        ensures
            r is Some <==> self@.selected_file_index() is Some,
            r matches Some(f) ==> 0 <= self@.selected_file_index()->0 < self@.files.len() && *f
                == self@.files[self@.selected_file_index()->0],
    {
        proof {
            self.lemma_list();
        }
        let entries = self.list_entries();
        if self.selected < entries.len() {
            let file_index = entries[self.selected].file_index;
            assert(entries@[self.selected as int]@ == self@.entries()[self.selected as int]);
            if file_index < self.files.len() {
                Some(&self.files[file_index])
            } else {
                None
            }
        } else {
            None
        }
    }

    /// The path of the directory to enter when Enter is pressed: the selected
    /// entry's, if it is a directory.
    pub fn handle_enter_key(&self) -> (r: Option<String>)
        ensures
            r is Some <==> (self@.selected_file_index() matches Some(i) && self@.files[i].file_type
                == FileType::Directory),
            r matches Some(path) ==> path@ == self@.files[self@.selected_file_index()->0].path@,
    {
        match self.selected_file() {
            Some(file) => {
                if file.file_type == FileType::Directory {
                    Some(file.path.clone())
                } else {
                    None
                }
            },
            None => None,
        }
    }

    /// Starts playing the selected entry when it is a track: its title becomes
    /// the one that play continues through, and its path is returned for the
    /// caller to play.
    pub fn play_selected(&mut self) -> (r: Option<String>)
        ensures
            (old(self)@.selected_file_index() matches Some(i) && old(self)@.files[i].file_type
                == FileType::Mp3File) ==> {
                &&& r matches Some(path) && path@ == old(self)@.files[old(
                    self,
                )@.selected_file_index()->0].path@
                &&& final(self)@ == (AppView {
                    playback_title: Some(
                        title_of(old(self)@.files[old(self)@.selected_file_index()->0]),
                    ),
                    ..old(self)@
                })
            },
            !(old(self)@.selected_file_index() matches Some(i) && old(self)@.files[i].file_type
                == FileType::Mp3File) ==> r is None && final(self)@ == old(self)@,
    {
        let chosen = match self.selected_file() {
            Some(file) => {
                if file.file_type == FileType::Mp3File {
                    Some((file.playback_title(), file.path.clone()))
                } else {
                    None
                }
            },
            None => None,
        };
        match chosen {
            Some((title, path)) => {
                self.playback_title = Some(title);
                Some(path)
            },
            None => None,
        }
    }

    /// The index of the track that continued play moves to after the file at
    /// `current_index`: the next MP3 file, skipping directories, if it has the
    /// title being played.
    pub fn get_next_matching_mp3_file(&self, current_index: usize) -> (r: Option<usize>)
        requires
            self@.playback_title is Some ==> current_index < usize::MAX,
        ensures
            opt_usize_is(
                r,
                match self@.playback_title {
                    Some(t) => next_same_title(self@.files, t, current_index + 1),
                    None => None,
                },
            ),
    {
        let playback_title = match &self.playback_title {
            Some(t) => t,
            None => {
                return None;
            },
        };
        let n = self.files.len();
        let mut i = current_index + 1;
        while i < n
            invariant
                n == self@.files.len(),
                self@.playback_title == Some(playback_title@),
                current_index + 1 <= i,
                next_same_title(self@.files, playback_title@, i as int) == next_same_title(
                    self@.files,
                    playback_title@,
                    current_index + 1,
                ),
            decreases n - i,
        {
            let file = &self.files[i];
            if file.file_type == FileType::Mp3File {
                if file.playback_title() == *playback_title {
                    return Some(i);
                }
                return None;
            }
            i = i + 1;
        }
        None
    }

    /// The step taken on each tick: once the track has ended and stopped,
    /// play continues with the next track of the same title, or stops when
    /// there is none.
    pub fn update(&mut self, now: u128) -> (r: UpdateAction)
        requires
            old(self)@.player.clock_ok(now as nat),
        ensures
            ({
                let v = old(self)@;
                let p = v.player;
                let stopped_view = AppView {
                    player: PlayerView::stopped(),
                    playback_title: None,
                    ..v
                };
                if p.finished(now as nat) && !p.playing(now as nat) {
                    match first_named(v.files, p.shown_name(now as nat), 0) {
                        Some(ci) => match v.playback_title {
                            Some(t) => match next_same_title(v.files, t, ci + 1) {
                                Some(ni) => r matches UpdateAction::PlayNext(path, mode) && mode
                                    == PlaybackMode::Continuous && path@
                                    == v.files[ni].path@ && final(self)@ == v,
                                None => r is Stopped && final(self)@ == stopped_view,
                            },
                            None => r is Stopped && final(self)@ == stopped_view,
                        },
                        None => r is Stopped && final(self)@ == stopped_view,
                    }
                } else {
                    r is Nothing && final(self)@ == v
                }
            }),
    {
        proof {
            use_type_invariant(&*self);
        }
        if self.player.is_track_finished(now) && !self.player.is_playing(now) {
            let current_playing = self.player.current_file_name(now);
            let n = self.files.len();
            let mut j: usize = 0;
            while j < n && !(self.files[j].name == current_playing)
                invariant
                    n == self@.files.len(),
                    j <= n,
                    first_named(self@.files, current_playing@, j as int) == first_named(
                        self@.files,
                        current_playing@,
                        0,
                    ),
                decreases n - j,
            {
                j = j + 1;
            }
            if j < n {
                if let Some(next_index) = self.get_next_matching_mp3_file(j) {
                    proof {
                        law_next_track_same_title(self@.files, self@.playback_title->0, j + 1);
                    }
                    let path = self.files[next_index].path.clone();
                    return UpdateAction::PlayNext(path, PlaybackMode::Continuous);
                }
            }
            self.player.stop();
            self.playback_title = None;
            UpdateAction::Stopped
        } else {
            UpdateAction::Nothing
        }
    }

    /// Pauses or resumes playback at `now`; the caller does the same to the
    /// audio output as the returned action says.
    pub fn toggle_pause(&mut self, now: u128) -> (r: SinkAction)
        requires
            old(self)@.player.clock_ok(now as nat),
        ensures
            final(self)@ == (AppView { player: old(self)@.player.toggled(now as nat), ..old(self)@ }),
            r == old(self)@.player.toggle_action(),
    {
        proof {
            use_type_invariant(&*self);
        }
        self.player.toggle_pause(now)
    }

    /// Stops playback and records the length of the file about to be opened.
    pub fn prepare_play(&mut self, file_duration: Option<u128>)
        requires
            file_duration matches Some(d) ==> d <= MAX_DURATION_NANOS,
        ensures
            final(self)@ == (AppView {
                player: PlayerView {
                    file_duration: match file_duration {
                        Some(d) => Some(d as nat),
                        None => None,
                    },
                    ..PlayerView::stopped()
                },
                ..old(self)@
            }),
    {
        proof {
            use_type_invariant(&*self);
        }
        self.player.prepare_play(file_duration);
    }

    /// Records that the file at `file_path` now plays in `mode` from `now`.
    pub fn start_play(&mut self, file_path: String, mode: PlaybackMode, now: u128)
        ensures
            final(self)@ == (AppView {
                player: PlayerView {
                    current_file: Some(file_path@),
                    is_playing: true,
                    start_time: Some(now as nat),
                    elapsed_before_pause: 0,
                    playback_mode: mode,
                    ..old(self)@.player
                },
                ..old(self)@
            }),
    {
        proof {
            use_type_invariant(&*self);
        }
        self.player.start_play(file_path, mode, now);
    }
}

/// The icon in front of a list entry: a play mark for the entry playing, a
/// folder for a directory, blank otherwise.
pub open spec fn entry_icon(playing: bool, file_type: FileType) -> Seq<char> {
    if playing {
        seq!['\u{25B6}', '\u{FE0F}']
    } else if file_type == FileType::Directory {
        seq!['\u{1F4C1}']
    } else {
        seq![' ', ' ']
    }
}

impl App {
    /// The text of a row of the file list: the entry's icon, a space, and its
    /// label.
    pub fn list_item_text(&self, entry: &FileListEntry, now: u128) -> (r: String)
        requires
            self@.player.clock_ok(now as nat),
            entry.file_index + entry.file_count <= self@.files.len(),
        ensures
            r@ == entry_icon(
                self@.player.shown_name(now as nat) != no_file_label() && exists|m: int|
                    entry.file_index <= m < entry.file_index + entry.file_count
                        && (#[trigger] self@.files[m]).name@ == self@.player.shown_name(now as nat),
                entry.file_type,
            ) + seq![' '] + entry.display_name@,
    {
        let playing = self.is_list_entry_playing(entry, now);
        proof {
            reveal_strlit("\u{25B6}\u{FE0F}");
            reveal_strlit("\u{1F4C1}");
            reveal_strlit("  ");
            reveal_strlit(" ");
        }
        let icon = if playing {
            "\u{25B6}\u{FE0F}"
        } else if entry.file_type == FileType::Directory {
            "\u{1F4C1}"
        } else {
            "  "
        };
        let mut text = icon.to_owned();
        text.append(" ");
        text.append(entry.display_name.as_str());
        text
    }
}

} // verus!
