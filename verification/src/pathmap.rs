//! Destination mapper: formats a date as `YYYY` and `YYYY-MM-DD` and derives
//! the destination path `root/YYYY/YYYY-MM-DD/name` as a pure function of the
//! timestamp and the file name.
use crate::calendar::Date;
use vstd::prelude::*;

verus! {

/// The decimal digit character for `d` (meaningful for `0 <= d <= 9`).
pub open spec fn digit_char(d: int) -> char {
    if d == 0 {
        '0'
    } else if d == 1 {
        '1'
    } else if d == 2 {
        '2'
    } else if d == 3 {
        '3'
    } else if d == 4 {
        '4'
    } else if d == 5 {
        '5'
    } else if d == 6 {
        '6'
    } else if d == 7 {
        '7'
    } else if d == 8 {
        '8'
    } else {
        '9'
    }
}

/// `n` printed as exactly two decimal digits, zero padded.
pub open spec fn two_digits(n: int) -> Seq<char> {
    seq![digit_char((n / 10) % 10), digit_char(n % 10)]
}

/// `n` printed as exactly four decimal digits, zero padded.
pub open spec fn four_digits(n: int) -> Seq<char> {
    seq![
        digit_char((n / 1000) % 10),
        digit_char((n / 100) % 10),
        digit_char((n / 10) % 10),
        digit_char(n % 10),
    ]
}

/// The `YYYY` folder name of a date.
pub open spec fn year_str(d: Date) -> Seq<char> {
    four_digits(d.year as int)
}

/// The `YYYY-MM-DD` folder name of a date.
pub open spec fn full_date_str(d: Date) -> Seq<char> {
    four_digits(d.year as int) + seq!['-'] + two_digits(d.month as int) + seq!['-'] + two_digits(
        d.day as int,
    )
}

/// The parent directory every copy of a file dated `d` goes into.
pub open spec fn dest_dir_spec(root: Seq<char>, d: Date) -> Seq<char> {
    root + seq!['/'] + year_str(d) + seq!['/'] + full_date_str(d)
}

/// The full destination path of a file named `name` dated `d`.
pub open spec fn dest_path_spec(root: Seq<char>, d: Date, name: Seq<char>) -> Seq<char> {
    dest_dir_spec(root, d) + seq!['/'] + name
}

/// The one-character string of a decimal digit.
fn digit_str(d: u32) -> (r: &'static str)
    requires
        d < 10,
    ensures
        r@ == seq![digit_char(d as int)],
{
    proof {
        reveal_strlit("0");
        reveal_strlit("1");
        reveal_strlit("2");
        reveal_strlit("3");
        reveal_strlit("4");
        reveal_strlit("5");
        reveal_strlit("6");
        reveal_strlit("7");
        reveal_strlit("8");
        reveal_strlit("9");
    }
    let r = match d {
        0 => "0",
        1 => "1",
        2 => "2",
        3 => "3",
        4 => "4",
        5 => "5",
        6 => "6",
        7 => "7",
        8 => "8",
        _ => "9",
    };
    proof {
        assert(r@ =~= seq![digit_char(d as int)]);
    }
    r
}

/// Appends `n` to `s` as two zero-padded decimal digits.
fn push_two_digits(s: &mut String, n: u32)
    requires
        n < 100,
    ensures
        final(s)@ == old(s)@ + two_digits(n as int),
{
    s.append(digit_str(n / 10));
    s.append(digit_str(n % 10));
    proof {
        assert(s@ =~= old(s)@ + two_digits(n as int));
    }
}

/// Appends `n` to `s` as four zero-padded decimal digits.
fn push_four_digits(s: &mut String, n: u32)
    requires
        n < 10000,
    ensures
        final(s)@ == old(s)@ + four_digits(n as int),
{
    s.append(digit_str(n / 1000));
    s.append(digit_str((n / 100) % 10));
    s.append(digit_str((n / 10) % 10));
    s.append(digit_str(n % 10));
    proof {
        assert(s@ =~= old(s)@ + four_digits(n as int));
    }
}

/// The `YYYY` folder name of a date, executably.
pub fn year_string(d: &Date) -> (r: String)
    requires
        d.valid(),
    ensures
        r@ == year_str(*d),
{
    let mut s = String::new();
    push_four_digits(&mut s, d.year);
    proof {
        assert(s@ =~= year_str(*d));
    }
    s
}

/// The `YYYY-MM-DD` folder name of a date, executably.
pub fn full_date_string(d: &Date) -> (r: String)
    requires
        d.valid(),
    ensures
        r@ == full_date_str(*d),
{
    let mut s = String::new();
    push_four_digits(&mut s, d.year);
    proof {
        reveal_strlit("-");
    }
    s.append("-");
    push_two_digits(&mut s, d.month);
    s.append("-");
    push_two_digits(&mut s, d.day);
    proof {
        assert(s@ =~= full_date_str(*d));
    }
    s
}

/// The parent directory of every copy dated `d` under `root`, executably.
pub fn destination_dir(root: &str, d: &Date) -> (r: String)
    requires
        d.valid(),
    ensures
        r@ == dest_dir_spec(root@, *d),
{
    let mut s = String::from_str(root);
    proof {
        reveal_strlit("/");
    }
    s.append("/");
    let year = year_string(d);
    s.append(year.as_str());
    s.append("/");
    let date = full_date_string(d);
    s.append(date.as_str());
    proof {
        assert(s@ =~= dest_dir_spec(root@, *d));
    }
    s
}

/// The full destination path of `name` dated `d` under `root`, executably.
pub fn destination_path(root: &str, d: &Date, name: &str) -> (r: String)
    requires
        d.valid(),
    ensures
        r@ == dest_path_spec(root@, *d, name@),
{
    let mut s = destination_dir(root, d);
    proof {
        reveal_strlit("/");
    }
    s.append("/");
    s.append(name);
    proof {
        assert(s@ =~= dest_path_spec(root@, *d, name@));
    }
    s
}

/// Law: the destination path is a pure function of the destination root, the
/// resolved date and the file name — two derivations from the same inputs
/// yield the same path.
pub proof fn lemma_destination_path_pure(
    root: Seq<char>,
    d: Date,
    name: Seq<char>,
    p1: Seq<char>,
    p2: Seq<char>,
)
    requires
        p1 == dest_path_spec(root, d, name),
        p2 == dest_path_spec(root, d, name),
    ensures
        p1 == p2,
{
}

} // verus!
