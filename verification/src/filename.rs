//! Session-file naming: a file stem of the shape
//! `label-YYYY-MM-DDTHH-MM-SS-uuid` yields a display label (dashes become
//! spaces), the civil timestamp's components, and the uuid (hex digits and
//! dashes); any other stem is its own label and uuid.
//!
//! The stem is scanned for the earliest position where the timestamp-uuid
//! tail begins, matching the lazy-label reading of the shape.

use vstd::prelude::*;

use crate::shim::string_from_chars;
use crate::text::chars_vec;

verus! {

/// Whether `c` is a decimal digit.
pub open spec fn is_digit_char(c: char) -> bool {
    0x30 <= (c as u32) && (c as u32) <= 0x39
}

/// Whether `c` may appear in a uuid: a hex digit or a dash.
pub open spec fn is_uuid_char(c: char) -> bool {
    let u = c as u32;
    ||| (0x30 <= u && u <= 0x39)
    ||| (0x41 <= u && u <= 0x46)
    ||| (0x61 <= u && u <= 0x66)
    ||| u == 0x2d
}

/// The numeric value of a digit character.
pub open spec fn digit_val(c: char) -> int {
    c as u32 - 0x30
}

/// Whether the 19 characters of `s` form `YYYY-MM-DDTHH-MM-SS`.
pub open spec fn datetime_shape(s: Seq<char>, at: int) -> bool {
    &&& is_digit_char(s[at + 0])
    &&& is_digit_char(s[at + 1])
    &&& is_digit_char(s[at + 2])
    &&& is_digit_char(s[at + 3])
    &&& s[at + 4] == '-'
    &&& is_digit_char(s[at + 5])
    &&& is_digit_char(s[at + 6])
    &&& s[at + 7] == '-'
    &&& is_digit_char(s[at + 8])
    &&& is_digit_char(s[at + 9])
    &&& s[at + 10] == 'T'
    &&& is_digit_char(s[at + 11])
    &&& is_digit_char(s[at + 12])
    &&& s[at + 13] == '-'
    &&& is_digit_char(s[at + 14])
    &&& is_digit_char(s[at + 15])
    &&& s[at + 16] == '-'
    &&& is_digit_char(s[at + 17])
    &&& is_digit_char(s[at + 18])
}

/// Whether the stem splits at `p`: a non-empty label before `p`, a dash,
/// the 19-character timestamp, a dash, and a non-empty uuid tail.
pub open spec fn split_ok(s: Seq<char>, p: int) -> bool {
    &&& 1 <= p
    &&& p + 22 <= s.len()
    &&& s[p] == '-'
    &&& datetime_shape(s, p + 1)
    &&& s[p + 20] == '-'
    &&& forall|i: int| p + 21 <= i < s.len() ==> is_uuid_char(#[trigger] s[i])
}

/// The earliest split position at or after `p`, if any.
pub open spec fn split_from(s: Seq<char>, p: int) -> Option<int>
    decreases s.len() - p,
{
    if p < 1 || p + 22 > s.len() {
        None
    } else if split_ok(s, p) {
        Some(p)
    } else {
        split_from(s, p + 1)
    }
}

/// The earliest split position of the stem, if any.
pub open spec fn first_split(s: Seq<char>) -> Option<int> {
    split_from(s, 1)
}

/// The label: the text before the split, dashes shown as spaces.
pub open spec fn label_spec(s: Seq<char>, p: int) -> Seq<char> {
    Seq::new(p as nat, |i: int| if s[i] == '-' {
        ' '
    } else {
        s[i]
    })
}

/// The two-digit number at `at`.
pub open spec fn num2(s: Seq<char>, at: int) -> int {
    10 * digit_val(s[at]) + digit_val(s[at + 1])
}

/// The four-digit number at `at`.
pub open spec fn num4(s: Seq<char>, at: int) -> int {
    1000 * digit_val(s[at]) + 100 * digit_val(s[at + 1]) + 10 * digit_val(s[at + 2]) + digit_val(
        s[at + 3],
    )
}

/// The timestamp components `(year, month, day, hour, minute, second)`
/// encoded at split position `p`.
pub open spec fn stamp_spec(s: Seq<char>, p: int) -> (int, int, int, int, int, int) {
    (
        num4(s, p + 1),
        num2(s, p + 6),
        num2(s, p + 9),
        num2(s, p + 12),
        num2(s, p + 15),
        num2(s, p + 18),
    )
}

/// Checks the timestamp shape at offset `at`.
fn check_datetime(s: &Vec<char>, at: usize) -> (r: bool)
    requires
        at + 19 <= s@.len(),
    ensures
        r == datetime_shape(s@, at as int),
{
    let n = s.len();
    proof {
        assert(at + 19 <= n);
    }
    is_digit(s[at]) && is_digit(s[at + 1]) && is_digit(s[at + 2]) && is_digit(s[at + 3])
        && s[at + 4] == '-' && is_digit(s[at + 5]) && is_digit(s[at + 6]) && s[at + 7] == '-'
        && is_digit(s[at + 8]) && is_digit(s[at + 9]) && s[at + 10] == 'T' && is_digit(
        s[at + 11],
    ) && is_digit(s[at + 12]) && s[at + 13] == '-' && is_digit(s[at + 14]) && is_digit(
        s[at + 15],
    ) && s[at + 16] == '-' && is_digit(s[at + 17]) && is_digit(s[at + 18])
}

/// Checks for a decimal digit.
fn is_digit(c: char) -> (r: bool)
    ensures
        r == is_digit_char(c),
{
    let u = c as u32;
    0x30 <= u && u <= 0x39
}

/// Checks for a uuid character.
fn is_uuid(c: char) -> (r: bool)
    ensures
        r == is_uuid_char(c),
{
    let u = c as u32;
    (0x30 <= u && u <= 0x39) || (0x41 <= u && u <= 0x46) || (0x61 <= u && u <= 0x66) || u == 0x2d
}

/// Checks whether the stem splits at `p`.
fn check_split(s: &Vec<char>, p: usize) -> (r: bool)
    requires
        1 <= p,
        p + 22 <= s@.len(),
    ensures
        r == split_ok(s@, p as int),
{
    let n = s.len();
    if s[p] != '-' {
        return false;
    }
    if !check_datetime(s, p + 1) {
        return false;
    }
    if s[p + 20] != '-' {
        return false;
    }
    let mut i = p + 21;
    while i < n
        invariant
            p + 21 <= i <= n == s@.len(),
            forall|j: int| p + 21 <= j < i ==> is_uuid_char(#[trigger] s@[j]),
        decreases n - i,
    {
        if !is_uuid(s[i]) {
            return false;
        }
        i += 1;
    }
    true
}

/// The numeric value of the digit at `at`.
fn digit_at(s: &Vec<char>, at: usize) -> (r: u32)
    requires
        at < s@.len(),
        is_digit_char(s@[at as int]),
    ensures
        r == digit_val(s@[at as int]),
        r <= 9,
{
    (s[at] as u32) - 0x30
}

/// Reads the two-digit number at `at`.
fn read2(s: &Vec<char>, at: usize) -> (r: u32)
    requires
        at + 2 <= s@.len(),
        is_digit_char(s@[at as int]),
        is_digit_char(s@[at + 1]),
    ensures
        r == num2(s@, at as int),
        r <= 99,
{
    let n = s.len();
    proof {
        assert(at + 2 <= n);
    }
    10 * digit_at(s, at) + digit_at(s, at + 1)
}

/// Reads the four-digit number at `at`.
fn read4(s: &Vec<char>, at: usize) -> (r: u32)
    requires
        at + 4 <= s@.len(),
        is_digit_char(s@[at as int]),
        is_digit_char(s@[at + 1]),
        is_digit_char(s@[at + 2]),
        is_digit_char(s@[at + 3]),
    ensures
        r == num4(s@, at as int),
        r <= 9999,
{
    let n = s.len();
    proof {
        assert(at + 4 <= n);
    }
    1000 * digit_at(s, at) + 100 * digit_at(s, at + 1) + 10 * digit_at(s, at + 2) + digit_at(
        s,
        at + 3,
    )
}

/// Parses a session file stem into its label, timestamp components and
/// uuid.  A stem without the recognized shape is returned whole as both
/// label and uuid, with no timestamp.
pub fn parse_from_filename(stem: &str) -> (r: (String, Option<(u32, u32, u32, u32, u32, u32)>, String))
    ensures
        ({
            match first_split(stem@) {
                Some(p) => {
                    &&& r.0@ == label_spec(stem@, p)
                    &&& (match r.1 {
                        Some(c) => (
                            c.0 as int,
                            c.1 as int,
                            c.2 as int,
                            c.3 as int,
                            c.4 as int,
                            c.5 as int,
                        ) == stamp_spec(stem@, p),
                        None => false,
                    })
                    &&& r.2@ == stem@.skip(p + 21)
                },
                None => r.0@ == stem@ && r.1 is None && r.2@ == stem@,
            }
        }),
{
    let cs = chars_vec(stem);
    let n = cs.len();
    if n < 23 {
        proof {
            assert(first_split(stem@) is None);
        }
        return (stem.to_owned(), None, stem.to_owned());
    }
    let mut p: usize = 1;
    while p <= n - 22
        invariant
            23 <= n == cs@.len(),
            cs@ == stem@,
            1 <= p <= n - 21,
            first_split(stem@) == split_from(stem@, p as int),
        decreases n - p,
    {
        if check_split(&cs, p) {
            let mut label: Vec<char> = Vec::new();
            for i in 0..p
                invariant
                    p + 22 <= n == cs@.len(),
                    cs@ == stem@,
                    label@ =~= label_spec(stem@, p as int).take(i as int),
            {
                let c = cs[i];
                if c == '-' {
                    label.push(' ');
                } else {
                    label.push(c);
                }
                proof {
                    assert(label_spec(stem@, p as int).take(i + 1) =~= label_spec(
                        stem@,
                        p as int,
                    ).take(i as int).push(label_spec(stem@, p as int)[i as int]));
                }
            }
            proof {
                assert(label_spec(stem@, p as int).take(p as int) =~= label_spec(
                    stem@,
                    p as int,
                ));
            }
            let y = read4(&cs, p + 1);
            let mo = read2(&cs, p + 6);
            let d = read2(&cs, p + 9);
            let h = read2(&cs, p + 12);
            let mi = read2(&cs, p + 15);
            let sec = read2(&cs, p + 18);
            let uuid = crate::text::slice_chars(&cs, p + 21, n);
            proof {
                assert(uuid@ =~= stem@.skip(p + 21));
            }
            return (
                string_from_chars(&label),
                Some((y, mo, d, h, mi, sec)),
                string_from_chars(&uuid),
            );
        }
        p += 1;
    }
    (stem.to_owned(), None, stem.to_owned())
}

} // verus!
