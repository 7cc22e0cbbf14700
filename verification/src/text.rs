//! Numbers and bars rendered as text for the player's status lines.

use vstd::prelude::*;
use vstd::string::StringExecFns;

verus! {

/// The decimal digit character for `d < 10`.
pub open spec fn digit_char(d: nat) -> char {
    seq!['0', '1', '2', '3', '4', '5', '6', '7', '8', '9'][d as int]
}

/// The decimal representation of `n`, without leading zeros.
pub open spec fn decimal(n: nat) -> Seq<char>
    decreases n,
{
    if n < 10 {
        seq![digit_char(n)]
    } else {
        decimal(n / 10) + seq![digit_char(n % 10)]
    }
}

/// `n` in decimal, padded with a zero to at least two digits (`{:02}`).
pub open spec fn two_digits(n: nat) -> Seq<char> {
    if n < 10 {
        seq!['0'] + decimal(n)
    } else {
        decimal(n)
    }
}

/// "MM:SS" for a number of seconds: whole minutes, then the seconds left.
pub open spec fn minutes_seconds(secs: nat) -> Seq<char> {
    two_digits(secs / 60) + seq![':'] + two_digits(secs % 60)
}

/// A bar of `filled` full cells followed by empty cells up to ten in all.
pub open spec fn bar_spec(filled: nat) -> Seq<char> {
    Seq::new(filled, |i: int| '■') + Seq::new((10 - filled) as nat, |i: int| '░')
}

fn digit_str(d: u64) -> (r: &'static str)
    requires
        d < 10,
    ensures
        r@ == seq![digit_char(d as nat)],
{
    proof {
        reveal_strlit("0");
        reveal_strlit("1");
        reveal_strlit("2");
        reveal_strlit("3");
        reveal_strlit("4");
        reveal_strlit("5");
        reveal_strlit("6");
        reveal_strlit("7");
        reveal_strlit("8");
        reveal_strlit("9");
    }
    if d == 0 {
        "0"
    } else if d == 1 {
        "1"
    } else if d == 2 {
        "2"
    } else if d == 3 {
        "3"
    } else if d == 4 {
        "4"
    } else if d == 5 {
        "5"
    } else if d == 6 {
        "6"
    } else if d == 7 {
        "7"
    } else if d == 8 {
        "8"
    } else {
        "9"
    }
}

/// `n` written in decimal.
pub fn decimal_string(n: u64) -> (r: String)
    ensures
        r@ == decimal(n as nat),
    decreases n,
{
    if n < 10 {
        digit_str(n).to_owned()
    } else {
        let mut s = decimal_string(n / 10);
        s.append(digit_str(n % 10));
        s
    }
}

/// `n` in decimal with at least two digits.
pub fn two_digit_string(n: u64) -> (r: String)
    ensures
        r@ == two_digits(n as nat),
{
    if n < 10 {
        let mut s = "0".to_owned();
        proof {
            reveal_strlit("0");
        }
        s.append(digit_str(n));
        s
    } else {
        decimal_string(n)
    }
}

/// A time given in whole seconds as "MM:SS" (`{:02}:{:02}` of minutes and
/// seconds); more than 99 minutes take more digits.
pub fn format_minutes_seconds(secs: u64) -> (r: String)
    ensures
        r@ == minutes_seconds(secs as nat),
{
    let mut s = two_digit_string(secs / 60);
    proof {
        reveal_strlit(":");
    }
    s.append(":");
    let rest = two_digit_string(secs % 60);
    s.append(rest.as_str());
    s
}

/// The ten-cell progress bar with `filled` full cells.
pub fn progress_bar(filled: usize) -> (r: String)
    requires
        filled <= 10,
    ensures
        r@ == bar_spec(filled as nat),
{
    let mut s = String::new();
    let mut i: usize = 0;
    while i < filled
        invariant
            i <= filled <= 10,
            s@ == Seq::new(i as nat, |k: int| '■'),
        decreases filled - i,
    {
        proof {
            reveal_strlit("■");
        }
        s.append("■");
        i = i + 1;
        assert(s@ =~= Seq::new(i as nat, |k: int| '■'));
    }
    let mut j: usize = filled;
    while j < 10
        invariant
            filled <= j <= 10,
            s@ == Seq::new(filled as nat, |k: int| '■') + Seq::new((j - filled) as nat, |k: int| '░'),
        decreases 10 - j,
    {
        proof {
            reveal_strlit("░");
        }
        s.append("░");
        j = j + 1;
        assert(s@ =~= Seq::new(filled as nat, |k: int| '■') + Seq::new((j - filled) as nat, |k: int| '░'));
    }
    s
}

/// The list indices shown in the three rows of the file list, with the
/// selected entry in the middle row and its neighbours (cyclically) above and
/// below.
pub fn visible_slot_indices(selected: usize, list_len: usize) -> (r: [Option<usize>; 3])
    requires
        list_len >= 2 ==> selected + list_len - 1 <= usize::MAX,
    ensures
        list_len == 0 ==> r@ == seq![None::<usize>, None, None],
        list_len == 1 ==> r@ == seq![None, Some(0usize), None],
        list_len == 2 ==> r@ == seq![
            Some(((selected + 1) % 2) as usize),
            Some(selected),
            Some(((selected + 1) % 2) as usize),
        ],
        list_len >= 3 ==> r@ == seq![
            Some(((selected + list_len - 1) % (list_len as int)) as usize),
            Some(selected),
            Some(((selected + 1) % (list_len as int)) as usize),
        ],
{
    if list_len == 0 {
        let r = [None, None, None];
        assert(r@ =~= seq![None::<usize>, None, None]);
        r
    } else if list_len == 1 {
        let r = [None, Some(0), None];
        assert(r@ =~= seq![None, Some(0usize), None]);
        r
    } else if list_len == 2 {
        let other = (selected + 1) % 2;
        let r = [Some(other), Some(selected), Some(other)];
        assert(r@ =~= seq![Some(other), Some(selected), Some(other)]);
        r
    } else {
        let r = [
            Some((selected + (list_len - 1)) % list_len),
            Some(selected),
            Some((selected + 1) % list_len),
        ];
        assert(r@ =~= seq![
            Some(((selected + list_len - 1) % (list_len as int)) as usize),
            Some(selected),
            Some(((selected + 1) % (list_len as int)) as usize),
        ]);
        r
    }
}

} // verus!
