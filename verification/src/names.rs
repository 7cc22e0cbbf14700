//! Leading track numbers in file names ("01 Cinema Update.mp3").

use vstd::prelude::*;
use vstd::string::StrSliceExecFns;

verus! {

/// An ASCII decimal digit.
pub open spec fn is_ascii_digit(c: char) -> bool {
    '0' <= c && c <= '9'
}

/// The Unicode `White_Space` property (PropList.txt), the set that
/// `char::is_whitespace` tests.
pub open spec fn is_white_space(c: char) -> bool {
    let u = c as u32;
    ||| 0x09 <= u <= 0x0D
    ||| u == 0x20
    ||| u == 0x85
    ||| u == 0xA0
    ||| u == 0x1680
    ||| 0x2000 <= u <= 0x200A
    ||| u == 0x2028
    ||| u == 0x2029
    ||| u == 0x202F
    ||| u == 0x205F
    ||| u == 0x3000
}

/// Whether `c` has the Unicode `White_Space` property.
fn char_is_whitespace(c: char) -> (r: bool)
    ensures
        r == is_white_space(c),
{
    let u = c as u32;
    (0x09 <= u && u <= 0x0D) || u == 0x20 || u == 0x85 || u == 0xA0 || u == 0x1680 || (0x2000
        <= u && u <= 0x200A) || u == 0x2028 || u == 0x2029 || u == 0x202F || u == 0x205F || u
        == 0x3000
}

fn char_is_ascii_digit(c: char) -> (r: bool)
    ensures
        r == is_ascii_digit(c),
{
    '0' <= c && c <= '9'
}

/// The index just past the run of ASCII digits that starts at `i`.
pub open spec fn digit_run_end(s: Seq<char>, i: int) -> int
    decreases s.len() - i,
{
    if 0 <= i < s.len() && is_ascii_digit(s[i]) {
        digit_run_end(s, i + 1)
    } else {
        i
    }
}

/// The index just past the run of white space that starts at `i`.
pub open spec fn space_run_end(s: Seq<char>, i: int) -> int
    decreases s.len() - i,
{
    if 0 <= i < s.len() && is_white_space(s[i]) {
        space_run_end(s, i + 1)
    } else {
        i
    }
}

/// A name that starts with at least one ASCII digit followed by at least one
/// white-space character splits into the digits and the rest after the
/// white space; any other name does not split.
pub open spec fn split_spec(name: Seq<char>) -> Option<(Seq<char>, Seq<char>)> {
    let d = digit_run_end(name, 0);
    let w = space_run_end(name, d);
    if d > 0 && w > d {
        Some((name.subrange(0, d), name.subrange(w, name.len() as int)))
    } else {
        None
    }
}

/// The name without its number prefix; a name without one is kept.
pub open spec fn strip_spec(name: Seq<char>) -> Seq<char> {
    match split_spec(name) {
        Some(parts) => parts.1,
        None => name,
    }
}

/// The number prefix of a name, if it has one.
pub open spec fn prefix_spec(name: Seq<char>) -> Option<Seq<char>> {
    match split_spec(name) {
        Some(parts) => Some(parts.0),
        None => None,
    }
}

/// Splits `name` into its leading ASCII digits and the text after the white
/// space that follows them.
pub fn split_number_prefix(name: &str) -> (r: Option<(&str, &str)>)
    ensures
        r is Some <==> split_spec(name@) is Some,
        r matches Some(parts) ==> split_spec(name@) == Some((parts.0@, parts.1@)),
{
    let n = name.unicode_len();
    let mut d: usize = 0;
    while d < n && char_is_ascii_digit(name.get_char(d))
        invariant
            n == name@.len(),
            d <= n,
            digit_run_end(name@, d as int) == digit_run_end(name@, 0),
        decreases n - d,
    {
        d = d + 1;
    }
    if d == 0 {
        return None;
    }
    let mut w: usize = d;
    while w < n && char_is_whitespace(name.get_char(w))
        invariant
            n == name@.len(),
            d <= w <= n,
            d == digit_run_end(name@, 0),
            space_run_end(name@, w as int) == space_run_end(name@, d as int),
        decreases n - w,
    {
        w = w + 1;
    }
    if w == d {
        return None;
    }
    let number = name.substring_char(0, d);
    let title = name.substring_char(w, n);
    Some((number, title))
}

/// The name without its number prefix ("01 Cinema Update.mp3" becomes
/// "Cinema Update.mp3"); a name without a number prefix is returned whole.
pub fn strip_number_prefix(name: &str) -> (r: &str)
    ensures
        r@ == strip_spec(name@),
{
    match split_number_prefix(name) {
        Some((_, title)) => title,
        None => name,
    }
}

/// The digits of the number prefix of a name, if it has one.
pub fn number_prefix(name: &str) -> (r: Option<&str>)
    ensures
        r is Some <==> prefix_spec(name@) is Some,
        r matches Some(number) ==> prefix_spec(name@) == Some(number@),
{
    match split_number_prefix(name) {
        Some((number, _)) => Some(number),
        None => None,
    }
}

proof fn lemma_digit_run(s: Seq<char>, i: int)
    requires
        0 <= i <= s.len(),
    ensures
        forall|k: int| i <= k < digit_run_end(s, i) ==> is_ascii_digit(#[trigger] s[k]),
        digit_run_end(s, i) < s.len() ==> !is_ascii_digit(s[digit_run_end(s, i)]),
        i <= digit_run_end(s, i) <= s.len(),
    decreases s.len() - i,
{
    if i < s.len() && is_ascii_digit(s[i]) {
        lemma_digit_run(s, i + 1);
    }
}

proof fn lemma_space_run(s: Seq<char>, i: int)
    requires
        0 <= i <= s.len(),
    ensures
        forall|k: int| i <= k < space_run_end(s, i) ==> is_white_space(#[trigger] s[k]),
        space_run_end(s, i) < s.len() ==> !is_white_space(s[space_run_end(s, i)]),
        i <= space_run_end(s, i) <= s.len(),
    decreases s.len() - i,
{
    if i < s.len() && is_white_space(s[i]) {
        lemma_space_run(s, i + 1);
    }
}

/// A name splits exactly when it is a run of ASCII digits, then a run of
/// white space, then the title: the number is all the leading digits, the
/// title starts after all the white space that follows them, and the three
/// parts put back together give the name. The stripped name is therefore
/// always a suffix of the name.
pub proof fn law_split_reassembles(name: Seq<char>)
    ensures
        split_spec(name) matches Some(parts) ==> {
            let number = parts.0;
            let title = parts.1;
            let gap = name.subrange(number.len() as int, name.len() - title.len());
            &&& number.len() > 0
            &&& gap.len() > 0
            &&& name == number + gap + title
            &&& forall|k: int| 0 <= k < number.len() ==> is_ascii_digit(#[trigger] number[k])
            &&& forall|k: int| 0 <= k < gap.len() ==> is_white_space(#[trigger] gap[k])
            &&& title.len() > 0 ==> !is_white_space(title[0])
        },
        split_spec(name) is None ==> strip_spec(name) == name,
        exists|k: int| 0 <= k <= name.len() && #[trigger] name.subrange(k, name.len() as int)
            == strip_spec(name),
        (name.len() > 0 && !is_ascii_digit(name[0])) ==> split_spec(name) is None,
{
    lemma_digit_run(name, 0);
    let d = digit_run_end(name, 0);
    lemma_space_run(name, d);
    let w = space_run_end(name, d);
    if d > 0 && w > d {
        let number = name.subrange(0, d);
        let title = name.subrange(w, name.len() as int);
        let gap = name.subrange(d, w);
        assert(name.subrange(number.len() as int, name.len() - title.len()) =~= gap);
        assert(name =~= number + gap + title);
        assert(forall|k: int| 0 <= k < gap.len() ==> gap[k] == name[d + k]);
        assert(name.subrange(w, name.len() as int) == strip_spec(name));
    } else {
        assert(name.subrange(0, name.len() as int) =~= name);
    }
}

} // verus!
