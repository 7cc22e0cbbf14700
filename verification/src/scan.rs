//! Deciding which directory entries are listed, and in what order.

use vstd::prelude::*;
use vstd::string::StrSliceExecFns;
use vstd::multiset::Multiset;
use crate::files::{FileInfo, FileType};

verus! {

broadcast use vstd::seq_lib::group_to_multiset_ensures;

/// The lowercase form of a string as std's `str::to_lowercase` computes it
/// (Unicode lowercase mapping).
pub uninterp spec fn lowercase(s: Seq<char>) -> Seq<char>;

/// Trusted: `str::to_lowercase`. Its result is named `lowercase`, a function
/// of the string alone; nothing more is claimed of it.
#[verifier::external_body]
fn to_lowercase(s: &str) -> (r: String)
    ensures
        r@ == lowercase(s@),
{
    s.to_lowercase()
}

/// Whether a file extension marks an MP3 file: "mp3" in any letter case.
pub fn is_mp3_extension(extension: &str) -> (r: bool)
    ensures
        r == (lowercase(extension@) == seq!['m', 'p', '3']),
{
    let lower = to_lowercase(extension);
    let mp3 = "mp3";
    proof {
        reveal_strlit("mp3");
        assert(mp3@ =~= seq!['m', 'p', '3']);
    }
    lower == mp3.to_owned()
}

/// The extension is present and is "mp3" in any letter case.
pub open spec fn names_mp3(extension: Option<&str>) -> bool {
    match extension {
        Some(e) => lowercase(e@) == seq!['m', 'p', '3'],
        None => false,
    }
}

/// How a directory entry is listed: a directory as a directory, a regular
/// file with an MP3 extension as a track, anything else not at all.
pub fn classify_entry(is_dir: bool, is_file: bool, extension: Option<&str>) -> (r: Option<FileType>)
    ensures
        is_dir ==> r == Some(FileType::Directory),
        (!is_dir && is_file && names_mp3(extension)) ==> r == Some(FileType::Mp3File),
        (!is_dir && !(is_file && names_mp3(extension))) ==> r is None,
{
    if is_dir {
        Some(FileType::Directory)
    } else if is_file {
        match extension {
            Some(e) => {
                if is_mp3_extension(e) {
                    Some(FileType::Mp3File)
                } else {
                    None
                }
            },
            None => None,
        }
    } else {
        None
    }
}

/// `a[i..]` comes no later than `b[i..]` in code-point order (the order of
/// `str`'s `Ord`, which compares UTF-8 bytes).
pub open spec fn lex_le_from(a: Seq<char>, b: Seq<char>, i: int) -> bool
    decreases a.len() - i,
{
    if i >= a.len() {
        true
    } else if i >= b.len() {
        false
    } else if a[i] != b[i] {
        a[i] < b[i]
    } else {
        lex_le_from(a, b, i + 1)
    }
}

/// `a` comes no later than `b` in code-point order.
pub open spec fn lex_le(a: Seq<char>, b: Seq<char>) -> bool {
    lex_le_from(a, b, 0)
}

/// The listing order: directories before tracks, each kind by name.
pub open spec fn listed_before(x: FileInfo, y: FileInfo) -> bool {
    if x.file_type == y.file_type {
        lex_le(x.name@, y.name@)
    } else {
        x.file_type == FileType::Directory
    }
}

/// Each file comes no later than every file after it.
pub open spec fn sorted_for_listing(s: Seq<FileInfo>) -> bool {
    forall|i: int, j: int| 0 <= i < j < s.len() ==> listed_before(#[trigger] s[i], #[trigger] s[j])
}

proof fn lemma_lex_total(a: Seq<char>, b: Seq<char>, i: int)
    requires
        0 <= i,
    ensures
        lex_le_from(a, b, i) || lex_le_from(b, a, i),
    decreases a.len() - i,
{
    if i < a.len() && i < b.len() && a[i] == b[i] {
        lemma_lex_total(a, b, i + 1);
    }
}

proof fn lemma_lex_trans(a: Seq<char>, b: Seq<char>, c: Seq<char>, i: int)
    requires
        0 <= i,
        lex_le_from(a, b, i),
        lex_le_from(b, c, i),
    ensures
        lex_le_from(a, c, i),
    decreases a.len() - i,
{
    if i < a.len() && i < b.len() && i < c.len() && a[i] == b[i] && b[i] == c[i] {
        lemma_lex_trans(a, b, c, i + 1);
    }
}

proof fn lemma_lex_skip_common(a: Seq<char>, b: Seq<char>, i: int, k: int)
    requires
        0 <= i <= k,
        k <= a.len(),
        k <= b.len(),
        forall|m: int| i <= m < k ==> a[m] == b[m],
    ensures
        lex_le_from(a, b, i) == lex_le_from(a, b, k),
    decreases k - i,
{
    if i < k {
        lemma_lex_skip_common(a, b, i + 1, k);
    }
}

/// Names are compared in plain code-point (dictionary) order, whatever their
/// lengths: a name is listed no later than every name it is a prefix of, and
/// before every longer name it is a proper prefix of; at the first position
/// where two names differ, the one with the smaller character comes first.
pub proof fn law_lex_le_is_dictionary_order(a: Seq<char>, b: Seq<char>)
    ensures
        (a.len() <= b.len() && b.subrange(0, a.len() as int) == a) ==> lex_le(a, b),
        (a.len() < b.len() && b.subrange(0, a.len() as int) == a) ==> !lex_le(b, a),
        forall|k: int|
            0 <= k < a.len() && k < b.len() && a.subrange(0, k) == b.subrange(0, k) && #[trigger] a[k]
                < b[k] ==> lex_le(a, b) && !lex_le(b, a),
{
    if a.len() <= b.len() && b.subrange(0, a.len() as int) == a {
        assert forall|m: int| 0 <= m < a.len() implies a[m] == b[m] by {
            assert(b.subrange(0, a.len() as int)[m] == b[m]);
        }
        lemma_lex_skip_common(a, b, 0, a.len() as int);
        lemma_lex_skip_common(b, a, 0, a.len() as int);
    }
    assert forall|k: int|
        0 <= k < a.len() && k < b.len() && a.subrange(0, k) == b.subrange(0, k) && #[trigger] a[k]
            < b[k] implies lex_le(a, b) && !lex_le(b, a) by {
        assert forall|m: int| 0 <= m < k implies a[m] == b[m] by {
            assert(a.subrange(0, k)[m] == a[m]);
            assert(b.subrange(0, k)[m] == b[m]);
        }
        lemma_lex_skip_common(a, b, 0, k);
        lemma_lex_skip_common(b, a, 0, k);
    }
}

/// The listing order is total and transitive.
pub proof fn law_listing_order(x: FileInfo, y: FileInfo, z: FileInfo)
    ensures
        listed_before(x, y) || listed_before(y, x),
        listed_before(x, y) && listed_before(y, z) ==> listed_before(x, z),
{
    lemma_lex_total(x.name@, y.name@, 0);
    if listed_before(x, y) && listed_before(y, z) && x.file_type == z.file_type
        && x.file_type == y.file_type {
        lemma_lex_trans(x.name@, y.name@, z.name@, 0);
    }
}

fn lex_le_exec(a: &str, b: &str) -> (r: bool)
    ensures
        r == lex_le(a@, b@),
{
    let na = a.unicode_len();
    let nb = b.unicode_len();
    let mut i: usize = 0;
    while i < na && i < nb && a.get_char(i) == b.get_char(i)
        invariant
            na == a@.len(),
            nb == b@.len(),
            i <= na,
            i <= nb,
            lex_le_from(a@, b@, i as int) == lex_le_from(a@, b@, 0),
        decreases na - i,
    {
        i = i + 1;
    }
    if i >= na {
        true
    } else if i >= nb {
        false
    } else {
        a.get_char(i) < b.get_char(i)
    }
}

fn listed_before_exec(x: &FileInfo, y: &FileInfo) -> (r: bool)
    ensures
        r == listed_before(*x, *y),
{
    if x.file_type == y.file_type {
        lex_le_exec(x.name.as_str(), y.name.as_str())
    } else {
        x.file_type == FileType::Directory
    }
}

/// `r` is `files` rearranged by `pos`: `r[i]` is `files[pos[i]]`, each index
/// of `files` is used once, and files with equal keys keep their order.
pub open spec fn stable_rearrangement(files: Seq<FileInfo>, r: Seq<FileInfo>, pos: Seq<int>) -> bool {
    &&& pos.len() == r.len()
    &&& r.len() == files.len()
    &&& forall|i: int| 0 <= i < r.len() ==> 0 <= #[trigger] pos[i] < files.len() && r[i] == files[pos[i]]
    &&& forall|i: int, j: int| 0 <= i < j < r.len() ==> #[trigger] pos[i] != #[trigger] pos[j]
    &&& forall|i: int, j: int|
        #![trigger pos[i], pos[j]]
        0 <= i < j < r.len() && listed_before(r[j], r[i]) ==> pos[i] < pos[j]
}

/// The files in listing order: directories first, then tracks, each by name
/// in code-point order; files with equal keys keep their order.
pub fn sort_files(files: Vec<FileInfo>) -> (r: Vec<FileInfo>)
    ensures
        r@.to_multiset() == files@.to_multiset(),
        sorted_for_listing(r@),
        exists|pos: Seq<int>| stable_rearrangement(files@, r@, pos),
{
    let ghost unsorted = files@;
    let mut rest = files;
    let mut out: Vec<FileInfo> = Vec::new();
    let ghost mut pos: Seq<int> = Seq::empty();
    while rest.len() > 0
        invariant
            out@.to_multiset().add(rest@.to_multiset()) == unsorted.to_multiset(),
            sorted_for_listing(out@),
            rest@ == unsorted.subrange(0, rest@.len() as int),
            out@.len() + rest@.len() == unsorted.len(),
            pos.len() == out@.len(),
            forall|i: int|
                0 <= i < out@.len() ==> rest@.len() <= #[trigger] pos[i] < unsorted.len()
                    && out@[i] == unsorted[pos[i]],
            forall|i: int, j: int| 0 <= i < j < out@.len() ==> #[trigger] pos[i] != #[trigger] pos[j],
            forall|i: int, j: int|
                #![trigger pos[i], pos[j]]
                0 <= i < j < out@.len() && listed_before(out@[j], out@[i]) ==> pos[i] < pos[j],
        decreases rest.len(),
    {
        let ghost before_rest = rest@;
        let x = rest.pop().unwrap();
        let ghost p = rest@.len() as int;
        proof {
            assert(before_rest =~= rest@.push(x));
            assert(x == unsorted[p]);
            assert(rest@ =~= unsorted.subrange(0, rest@.len() as int));
        }
        let mut k: usize = 0;
        while k < out.len() && !listed_before_exec(&x, &out[k])
            invariant
                k <= out@.len(),
                forall|m: int| 0 <= m < k ==> !listed_before(x, #[trigger] out@[m]),
            decreases out@.len() - k,
        {
            k = k + 1;
        }
        let ghost old_out = out@;
        let ghost old_pos = pos;
        out.insert(k, x);
        proof {
            pos = old_pos.insert(k as int, p);
            assert forall|i: int, j: int| 0 <= i < j < out@.len() implies listed_before(
                #[trigger] out@[i],
                #[trigger] out@[j],
            ) by {
                if i < k && j == k {
                    law_listing_order(x, old_out[i], x);
                } else if i == k && j > k {
                    if k < old_out.len() {
                        law_listing_order(x, old_out[k as int], old_out[j - 1]);
                    }
                } else if i < k && j > k {
                    assert(out@[i] == old_out[i]);
                    assert(out@[j] == old_out[j - 1]);
                } else if j < k {
                    assert(out@[i] == old_out[i]);
                } else {
                    assert(out@[i] == old_out[i - 1]);
                    assert(out@[j] == old_out[j - 1]);
                }
            }
            assert forall|i: int|
                0 <= i < out@.len() implies rest@.len() <= #[trigger] pos[i] < unsorted.len()
                && out@[i] == unsorted[pos[i]] by {
                if i < k {
                    assert(pos[i] == old_pos[i]);
                } else if i > k {
                    assert(pos[i] == old_pos[i - 1]);
                }
            }
            assert forall|i: int, j: int| 0 <= i < j < out@.len() implies #[trigger] pos[i]
                != #[trigger] pos[j] by {
                if i < k && j > k {
                    assert(old_pos[i] != old_pos[j - 1]);
                } else if i > k {
                    assert(old_pos[i - 1] != old_pos[j - 1]);
                } else if j < k {
                    assert(old_pos[i] != old_pos[j]);
                } else if i == k {
                    assert(old_pos[j - 1] >= p + 1);
                } else {
                    assert(old_pos[i] >= p + 1);
                }
            }
            assert forall|i: int, j: int|
                #![trigger pos[i], pos[j]]
                0 <= i < j < out@.len() && listed_before(out@[j], out@[i]) implies pos[i]
                < pos[j] by {
                if i < k && j > k {
                    assert(out@[i] == old_out[i]);
                    assert(out@[j] == old_out[j - 1]);
                    assert(old_pos[i] < old_pos[j - 1]);
                } else if i > k {
                    assert(out@[i] == old_out[i - 1]);
                    assert(out@[j] == old_out[j - 1]);
                    assert(old_pos[i - 1] < old_pos[j - 1]);
                } else if j < k {
                    assert(old_pos[i] < old_pos[j]);
                } else if i == k {
                    assert(old_pos[j - 1] >= p + 1);
                } else {
                    assert(!listed_before(x, old_out[i]));
                }
            }
            assert(out@.to_multiset() == old_out.to_multiset().insert(x));
            assert(before_rest.to_multiset() == rest@.to_multiset().insert(x));
            assert(out@.to_multiset().add(rest@.to_multiset()) =~= old_out.to_multiset().add(
                before_rest.to_multiset(),
            ));
        }
    }
    proof {
        assert(rest@.to_multiset() =~= Multiset::empty());
        assert(out@.to_multiset().add(rest@.to_multiset()) =~= out@.to_multiset());
        assert(stable_rearrangement(unsorted, out@, pos));
    }
    out
}

} // verus!
