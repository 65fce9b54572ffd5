//! Extension classifier: decides whether a file name carries an importable
//! media extension, matched case-insensitively against an allow-list, and
//! reports the extension of every rejected name.
use vstd::prelude::*;

verus! {

/// ASCII lower-casing of one character; other characters are unchanged.
pub open spec fn lower_char(c: char) -> char {
    if c == 'A' {
        'a'
    } else if c == 'B' {
        'b'
    } else if c == 'C' {
        'c'
    } else if c == 'D' {
        'd'
    } else if c == 'E' {
        'e'
    } else if c == 'F' {
        'f'
    } else if c == 'G' {
        'g'
    } else if c == 'H' {
        'h'
    } else if c == 'I' {
        'i'
    } else if c == 'J' {
        'j'
    } else if c == 'K' {
        'k'
    } else if c == 'L' {
        'l'
    } else if c == 'M' {
        'm'
    } else if c == 'N' {
        'n'
    } else if c == 'O' {
        'o'
    } else if c == 'P' {
        'p'
    } else if c == 'Q' {
        'q'
    } else if c == 'R' {
        'r'
    } else if c == 'S' {
        's'
    } else if c == 'T' {
        't'
    } else if c == 'U' {
        'u'
    } else if c == 'V' {
        'v'
    } else if c == 'W' {
        'w'
    } else if c == 'X' {
        'x'
    } else if c == 'Y' {
        'y'
    } else if c == 'Z' {
        'z'
    } else {
        c
    }
}

/// ASCII lower-casing of a whole string.
pub open spec fn fold_lower(s: Seq<char>) -> Seq<char> {
    s.map_values(|c: char| lower_char(c))
}

/// ASCII lower-casing of one character, executably.
pub fn ascii_lower(c: char) -> (r: char)
    ensures
        r == lower_char(c),
{
    match c {
        'A' => 'a',
        'B' => 'b',
        'C' => 'c',
        'D' => 'd',
        'E' => 'e',
        'F' => 'f',
        'G' => 'g',
        'H' => 'h',
        'I' => 'i',
        'J' => 'j',
        'K' => 'k',
        'L' => 'l',
        'M' => 'm',
        'N' => 'n',
        'O' => 'o',
        'P' => 'p',
        'Q' => 'q',
        'R' => 'r',
        'S' => 's',
        'T' => 't',
        'U' => 'u',
        'V' => 'v',
        'W' => 'w',
        'X' => 'x',
        'Y' => 'y',
        'Z' => 'z',
        _ => c,
    }
}

/// Whether two strings are equal, character for character.
pub fn str_eq(a: &str, b: &str) -> (r: bool)
    ensures
        r == (a@ == b@),
{
    let n = a.unicode_len();
    if n != b.unicode_len() {
        return false;
    }
    let mut i: usize = 0;
    while i < n
        invariant
            n == a@.len() == b@.len(),
            0 <= i <= n,
            forall|j: int| 0 <= j < i ==> a@[j] == b@[j],
        decreases n - i,
    {
        if a.get_char(i) != b.get_char(i) {
            return false;
        }
        i = i + 1;
    }
    proof {
        assert(a@ =~= b@);
    }
    true
}

/// Whether two strings are equal after ASCII lower-casing.
pub fn eq_ignore_case(a: &str, b: &str) -> (r: bool)
    ensures
        r == (fold_lower(a@) == fold_lower(b@)),
{
    let n = a.unicode_len();
    if n != b.unicode_len() {
        proof {
            assert(fold_lower(a@).len() == a@.len());
            assert(fold_lower(b@).len() == b@.len());
        }
        return false;
    }
    let mut i: usize = 0;
    while i < n
        invariant
            n == a@.len() == b@.len(),
            0 <= i <= n,
            forall|j: int| 0 <= j < i ==> lower_char(a@[j]) == lower_char(b@[j]),
        decreases n - i,
    {
        if ascii_lower(a.get_char(i)) != ascii_lower(b.get_char(i)) {
            assert(fold_lower(a@)[i as int] != fold_lower(b@)[i as int]);
            return false;
        }
        i = i + 1;
    }
    proof {
        assert(fold_lower(a@) =~= fold_lower(b@));
    }
    true
}

/// The index of the last `.` in `s`, or `-1` when there is none.
pub open spec fn last_dot(s: Seq<char>) -> int
    decreases s.len(),
{
    if s.len() == 0 {
        -1
    } else if s[s.len() - 1] == '.' {
        s.len() - 1
    } else {
        last_dot(s.drop_last())
    }
}

/// A file name has an extension when a `.` stands after its first character;
/// a name with no dot, or only a leading one, has none.
pub open spec fn has_extension(s: Seq<char>) -> bool {
    last_dot(s) > 0
}

/// The extension of a file name: everything after the last `.`.
pub open spec fn extension_spec(s: Seq<char>) -> Seq<char> {
    s.subrange(last_dot(s) + 1, s.len() as int)
}

/// The last-dot index lies inside the string.
proof fn lemma_last_dot_range(s: Seq<char>)
    ensures
        -1 <= last_dot(s) < s.len(),
    decreases s.len(),
{
    if s.len() > 0 && s[s.len() - 1] != '.' {
        lemma_last_dot_range(s.drop_last());
    }
}

/// The extension of a file name, executably: the part after the last `.`,
/// present only when that dot stands after the first character.
pub fn extension_of(name: &str) -> (r: Option<String>)
    ensures
        r is Some <==> has_extension(name@),
        r is Some ==> r->0@ == extension_spec(name@),
{
    let n = name.unicode_len();
    proof {
        assert(name@.take(n as int) =~= name@);
    }
    let mut i: usize = n;
    while i > 0
        invariant
            n == name@.len(),
            0 <= i <= n,
            last_dot(name@) == last_dot(name@.take(i as int)),
        decreases i,
    {
        proof {
            assert(name@.take(i as int).drop_last() =~= name@.take(i - 1));
        }
        if name.get_char(i - 1) == '.' {
            proof {
                assert(last_dot(name@.take(i as int)) == i - 1);
            }
            if i - 1 > 0 {
                let ext = name.substring_char(i, n);
                return Some(String::from_str(ext));
            }
            return None;
        }
        i = i - 1;
    }
    proof {
        assert(name@.take(0) =~= Seq::<char>::empty());
    }
    None
}

/// The verdict on one file name: importable, rejected with its extension
/// recorded for reporting, or rejected for want of any extension.
#[derive(Debug)]
pub enum Classification {
    Accepted,
    Rejected(String),
    NoExtension,
}

/// Whether `ext` matches some allow-list entry, case-insensitively.
pub open spec fn allowed_contains(allowed: Seq<String>, ext: Seq<char>) -> bool {
    exists|i: int| 0 <= i < allowed.len() && fold_lower(allowed[i]@) == fold_lower(ext)
}

/// Whether a file name is importable under an allow-list.
pub open spec fn accepted(name: Seq<char>, allowed: Seq<String>) -> bool {
    has_extension(name) && allowed_contains(allowed, extension_spec(name))
}

/// Classifies one file name against the allow-list: `Accepted` exactly when
/// the name has an extension that matches an allow-list entry, ignoring
/// ASCII case; `Rejected` carries the extension as spelled in the name;
/// names without an extension are always rejected as `NoExtension`.
pub fn classify(name: &str, allowed: &Vec<String>) -> (r: Classification)
    ensures
        r is Accepted <==> accepted(name@, allowed@),
        r is NoExtension <==> !has_extension(name@),
        r matches Classification::Rejected(e) ==> e@ == extension_spec(name@),
        r is Rejected <==> has_extension(name@) && !allowed_contains(
            allowed@,
            extension_spec(name@),
        ),
{
    let ext = match extension_of(name) {
        Some(e) => e,
        None => { return Classification::NoExtension },
    };
    let mut i: usize = 0;
    while i < allowed.len()
        invariant
            0 <= i <= allowed@.len(),
            ext@ == extension_spec(name@),
            has_extension(name@),
            forall|j: int| 0 <= j < i ==> fold_lower(allowed@[j]@) != fold_lower(ext@),
        decreases allowed@.len() - i,
    {
        if eq_ignore_case(ext.as_str(), allowed[i].as_str()) {
            return Classification::Accepted;
        }
        i = i + 1;
    }
    Classification::Rejected(ext)
}

/// The reference allow-list: the four importable media formats.
pub fn default_allowed() -> (r: Vec<String>)
    ensures
        r@.len() == 4,
        r@[0]@ == "arw"@,
        r@[1]@ == "mp4"@,
        r@[2]@ == "jpg"@,
        r@[3]@ == "heic"@,
{
    let mut v: Vec<String> = Vec::new();
    v.push(String::from_str("arw"));
    v.push(String::from_str("mp4"));
    v.push(String::from_str("jpg"));
    v.push(String::from_str("heic"));
    v
}

} // verus!
