//! Display helpers: decimal rendering of integers, relative-age text
//! ("3h 5m ago"), and civil date/time formatting.  The only unverified step
//! is reading the machine's local offset; everything that turns numbers
//! into text is specified digit by digit.

use vstd::prelude::*;

use crate::shim::string_from_chars;

verus! {

/// The decimal digit character for `d`.
pub open spec fn digit_char(d: nat) -> char {
    if d == 0 {
        '0'
    } else if d == 1 {
        '1'
    } else if d == 2 {
        '2'
    } else if d == 3 {
        '3'
    } else if d == 4 {
        '4'
    } else if d == 5 {
        '5'
    } else if d == 6 {
        '6'
    } else if d == 7 {
        '7'
    } else if d == 8 {
        '8'
    } else {
        '9'
    }
}

/// The decimal rendering of `n`, most significant digit first.
pub open spec fn dec_digits(n: nat) -> Seq<char>
    decreases n,
{
    if n < 10 {
        seq![digit_char(n)]
    } else {
        dec_digits(n / 10).push(digit_char(n % 10))
    }
}

/// Renders one digit.
fn digit_of(d: u64) -> (r: char)
    requires
        d < 10,
    ensures
        r == digit_char(d as nat),
{
    if d == 0 {
        '0'
    } else if d == 1 {
        '1'
    } else if d == 2 {
        '2'
    } else if d == 3 {
        '3'
    } else if d == 4 {
        '4'
    } else if d == 5 {
        '5'
    } else if d == 6 {
        '6'
    } else if d == 7 {
        '7'
    } else if d == 8 {
        '8'
    } else {
        '9'
    }
}

/// Renders `n` in decimal.
pub fn u64_digits(n: u64) -> (r: Vec<char>)
    ensures
        r@ == dec_digits(n as nat),
{
    let mut acc: Vec<char> = Vec::new();
    let mut cur = n;
    proof {
        assert(dec_digits(n as nat) =~= dec_digits(n as nat) + acc@.reverse());
    }
    loop
        invariant_except_break
            dec_digits(n as nat) == dec_digits(cur as nat) + acc@.reverse(),
        ensures
            dec_digits(n as nat) == acc@.reverse(),
        decreases cur,
    {
        let d = cur % 10;
        let ghost pre = acc@;
        acc.push(digit_of(d));
        proof {
            assert(acc@.reverse() =~= seq![digit_char((cur % 10) as nat)] + pre.reverse());
        }
        if cur < 10 {
            proof {
                assert(dec_digits(cur as nat) == seq![digit_char(cur as nat)]);
                assert(dec_digits(n as nat) =~= acc@.reverse());
            }
            break;
        }
        proof {
            assert(dec_digits(cur as nat) == dec_digits((cur / 10) as nat).push(
                digit_char((cur % 10) as nat),
            ));
            assert(dec_digits((cur / 10) as nat).push(digit_char((cur % 10) as nat))
                + pre.reverse() =~= dec_digits((cur / 10) as nat) + acc@.reverse());
        }
        cur = cur / 10;
    }
    let mut out: Vec<char> = Vec::new();
    let m = acc.len();
    for i in 0..m
        invariant
            m == acc.len(),
            out@ =~= acc@.reverse().take(i as int),
    {
        out.push(acc[m - 1 - i]);
        proof {
            assert(acc@.reverse().take(i + 1) =~= acc@.reverse().take(i as int).push(
                acc@[m - 1 - i],
            ));
        }
    }
    proof {
        assert(acc@.reverse().take(m as int) =~= acc@.reverse());
    }
    out
}

/// The relative-age text of a record at `dt` seen from `reference`, both
/// Unix seconds: "just now" for the future or the same second, then the
/// age in seconds, minutes, hours (with leftover minutes) or days (with
/// leftover hours).
pub open spec fn format_relative_spec(dt: i64, reference: i64) -> Seq<char> {
    let secs = reference - dt;
    if secs <= 0 {
        seq!['j', 'u', 's', 't', ' ', 'n', 'o', 'w']
    } else {
        let minutes = secs / 60;
        let hours = minutes / 60;
        let days = hours / 24;
        if minutes == 0 {
            dec_digits(secs as nat) + seq!['s', ' ', 'a', 'g', 'o']
        } else if hours == 0 {
            dec_digits(minutes as nat) + seq!['m', ' ', 'a', 'g', 'o']
        } else if days == 0 {
            let rem_minutes = minutes % 60;
            if rem_minutes == 0 {
                dec_digits(hours as nat) + seq!['h', ' ', 'a', 'g', 'o']
            } else {
                dec_digits(hours as nat) + seq!['h', ' '] + dec_digits(rem_minutes as nat)
                    + seq!['m', ' ', 'a', 'g', 'o']
            }
        } else {
            let rem_hours = hours % 24;
            if rem_hours == 0 {
                dec_digits(days as nat) + seq!['d', ' ', 'a', 'g', 'o']
            } else {
                dec_digits(days as nat) + seq!['d', ' '] + dec_digits(rem_hours as nat)
                    + seq!['h', ' ', 'a', 'g', 'o']
            }
        }
    }
}

/// Renders how long before `reference` the time `dt` lies.
pub fn format_relative(dt: i64, reference: i64) -> (r: String)
    requires
        reference - dt <= i64::MAX,
    ensures
        r@ == format_relative_spec(dt, reference),
{
    proof {
        reveal_strlit("just now");
        assert("just now"@ =~= seq!['j', 'u', 's', 't', ' ', 'n', 'o', 'w']);
    }
    if reference <= dt {
        return "just now".to_owned();
    }
    let secs_i = match reference.checked_sub(dt) {
        Some(d) => d,
        None => 0,
    };
    let secs = secs_i as u64;
    let minutes = secs / 60;
    let hours = minutes / 60;
    let days = hours / 24;
    let mut out: Vec<char> = Vec::new();
    if minutes == 0 {
        let mut v = u64_digits(secs);
        v.push('s');
        append_ago(&mut v);
        proof {
            assert(v@ =~= format_relative_spec(dt, reference));
        }
        return string_from_chars(&v);
    }
    if hours == 0 {
        let mut v = u64_digits(minutes);
        v.push('m');
        append_ago(&mut v);
        proof {
            assert(v@ =~= format_relative_spec(dt, reference));
        }
        return string_from_chars(&v);
    }
    if days == 0 {
        let rem_minutes = minutes % 60;
        if rem_minutes == 0 {
            let mut v = u64_digits(hours);
            v.push('h');
            append_ago(&mut v);
            proof {
                assert(v@ =~= format_relative_spec(dt, reference));
            }
            return string_from_chars(&v);
        }
        let mut v = u64_digits(hours);
        v.push('h');
        v.push(' ');
        let mid = u64_digits(rem_minutes);
        let mut k: usize = 0;
        while k < mid.len()
            invariant
                k <= mid.len(),
                v@ == dec_digits(hours as nat) + seq!['h', ' '] + mid@.take(k as int),
            decreases mid.len() - k,
        {
            v.push(mid[k]);
            proof {
                assert(mid@.take(k + 1) =~= mid@.take(k as int).push(mid@[k as int]));
                assert(v@ =~= dec_digits(hours as nat) + seq!['h', ' '] + mid@.take(k + 1));
            }
            k += 1;
        }
        proof {
            assert(mid@.take(mid@.len() as int) =~= mid@);
        }
        v.push('m');
        append_ago(&mut v);
        proof {
            assert(v@ =~= format_relative_spec(dt, reference));
        }
        return string_from_chars(&v);
    }
    let rem_hours = hours % 24;
    if rem_hours == 0 {
        let mut v = u64_digits(days);
        v.push('d');
        append_ago(&mut v);
        proof {
            assert(v@ =~= format_relative_spec(dt, reference));
        }
        return string_from_chars(&v);
    }
    let mut v = u64_digits(days);
    v.push('d');
    v.push(' ');
    let mid = u64_digits(rem_hours);
    let mut k: usize = 0;
    while k < mid.len()
        invariant
            k <= mid.len(),
            v@ == dec_digits(days as nat) + seq!['d', ' '] + mid@.take(k as int),
        decreases mid.len() - k,
    {
        v.push(mid[k]);
        proof {
            assert(mid@.take(k + 1) =~= mid@.take(k as int).push(mid@[k as int]));
            assert(v@ =~= dec_digits(days as nat) + seq!['d', ' '] + mid@.take(k + 1));
        }
        k += 1;
    }
    proof {
        assert(mid@.take(mid@.len() as int) =~= mid@);
    }
    v.push('h');
    append_ago(&mut v);
    proof {
        assert(v@ =~= format_relative_spec(dt, reference));
    }
    string_from_chars(&v)
}

/// `n` in decimal, left-padded with zeros to two digits.
pub open spec fn pad2(n: nat) -> Seq<char> {
    if n < 10 {
        seq!['0'] + dec_digits(n)
    } else {
        dec_digits(n)
    }
}

/// `n` in decimal, left-padded with zeros to four digits.
pub open spec fn pad4(n: nat) -> Seq<char> {
    if n < 10 {
        seq!['0', '0', '0'] + dec_digits(n)
    } else if n < 100 {
        seq!['0', '0'] + dec_digits(n)
    } else if n < 1000 {
        seq!['0'] + dec_digits(n)
    } else {
        dec_digits(n)
    }
}

/// Appends `n` zero-padded to two digits.
fn push_pad2(v: &mut Vec<char>, n: u64)
    requires
        n < 100,
    ensures
        final(v)@ == old(v)@ + pad2(n as nat),
{
    if n < 10 {
        v.push('0');
    }
    let d = u64_digits(n);
    extend_chars(v, &d);
    proof {
        assert(v@ =~= old(v)@ + pad2(n as nat));
    }
}

/// Appends `n` zero-padded to four digits.
fn push_pad4(v: &mut Vec<char>, n: u64)
    requires
        n < 10000,
    ensures
        final(v)@ == old(v)@ + pad4(n as nat),
{
    if n < 10 {
        v.push('0');
        v.push('0');
        v.push('0');
    } else if n < 100 {
        v.push('0');
        v.push('0');
    } else if n < 1000 {
        v.push('0');
    }
    let d = u64_digits(n);
    extend_chars(v, &d);
    proof {
        assert(v@ =~= old(v)@ + pad4(n as nat));
    }
}

/// The display form of a civil timestamp: zero-padded
/// `year-month-day hour:minute`, with a sign for years before our era.
pub open spec fn format_civil_spec(y: int, mo: nat, d: nat, h: nat, mi: nat) -> Seq<char> {
    let sign: Seq<char> = if y < 0 {
        seq!['-']
    } else {
        Seq::empty()
    };
    let ya: nat = if y < 0 {
        (-y) as nat
    } else {
        y as nat
    };
    sign + pad4(ya) + seq!['-'] + pad2(mo) + seq!['-'] + pad2(d) + seq![' '] + pad2(h) + seq![':']
        + pad2(mi)
}

/// Renders civil date and time components for display.
pub fn format_civil(y: i32, mo: u8, d: u8, h: u8, mi: u8) -> (r: String)
    requires
        -9999 <= y <= 9999,
        mo < 100,
        d < 100,
        h < 100,
        mi < 100,
    ensures
        r@ == format_civil_spec(y as int, mo as nat, d as nat, h as nat, mi as nat),
{
    let mut v: Vec<char> = Vec::new();
    let ya: u64 = if y < 0 {
        (-(y as i64)) as u64
    } else {
        y as u64
    };
    if y < 0 {
        v.push('-');
    }
    push_pad4(&mut v, ya);
    v.push('-');
    push_pad2(&mut v, mo as u64);
    v.push('-');
    push_pad2(&mut v, d as u64);
    v.push(' ');
    push_pad2(&mut v, h as u64);
    v.push(':');
    push_pad2(&mut v, mi as u64);
    proof {
        assert(v@ =~= format_civil_spec(y as int, mo as nat, d as nat, h as nat, mi as nat));
    }
    string_from_chars(&v)
}

/// The display form of a time of day: zero-padded `hour:minute`.
pub open spec fn format_hm_spec(h: nat, mi: nat) -> Seq<char> {
    pad2(h) + seq![':'] + pad2(mi)
}

/// Renders a time of day for display.
pub fn format_hm(h: u8, mi: u8) -> (r: String)
    requires
        h < 100,
        mi < 100,
    ensures
        r@ == format_hm_spec(h as nat, mi as nat),
{
    let mut v: Vec<char> = Vec::new();
    push_pad2(&mut v, h as u64);
    v.push(':');
    push_pad2(&mut v, mi as u64);
    proof {
        assert(v@ =~= format_hm_spec(h as nat, mi as nat));
    }
    string_from_chars(&v)
}

/// Renders `dt` (Unix seconds) as a local civil timestamp; a timestamp
/// outside the convertible range falls back to its raw seconds.
pub fn format_timestamp(dt: i64) -> (r: String)
    ensures
        (-crate::shim::CIVIL_RANGE <= dt <= crate::shim::CIVIL_RANGE) ==> exists|y: int, mo: nat, d: nat, h: nat, mi: nat|
            {
                &&& -9999 <= y <= 9999
                &&& 1 <= mo <= 12
                &&& 1 <= d <= 31
                &&& h < 24
                &&& mi < 60
                &&& r@ == #[trigger] format_civil_spec(y, mo, d, h, mi)
            },
{
    if -crate::shim::CIVIL_RANGE <= dt && dt <= crate::shim::CIVIL_RANGE {
        let (y, mo, d, h, mi) = crate::shim::civil_local(dt);
        format_civil(y, mo, d, h, mi)
    } else {
        raw_seconds(dt)
    }
}

/// Renders `dt` (Unix seconds) as a local time of day; a timestamp outside
/// the convertible range falls back to its raw seconds.
pub fn format_time_of_day(dt: i64) -> (r: String)
    ensures
        (-crate::shim::CIVIL_RANGE <= dt <= crate::shim::CIVIL_RANGE) ==> exists|h: nat, mi: nat|
            h < 24 && mi < 60 && r@ == #[trigger] format_hm_spec(h, mi),
{
    if -crate::shim::CIVIL_RANGE <= dt && dt <= crate::shim::CIVIL_RANGE {
        let (_, _, _, h, mi) = crate::shim::civil_local(dt);
        format_hm(h, mi)
    } else {
        raw_seconds(dt)
    }
}

/// Renders a signed number of seconds in decimal.
fn raw_seconds(dt: i64) -> (r: String)
    ensures
        r@ == (if dt < 0 {
            seq!['-'] + dec_digits((-(dt as int)) as nat)
        } else {
            dec_digits(dt as nat)
        }),
{
    let mut v: Vec<char> = Vec::new();
    if dt < 0 {
        v.push('-');
        let m: u64 = if dt == i64::MIN {
            9223372036854775808u64
        } else {
            (-dt) as u64
        };
        let d = u64_digits(m);
        extend_chars(&mut v, &d);
        proof {
            assert(v@ =~= seq!['-'] + dec_digits((-(dt as int)) as nat));
        }
    } else {
        let d = u64_digits(dt as u64);
        extend_chars(&mut v, &d);
        proof {
            assert(v@ =~= dec_digits(dt as nat));
        }
    }
    string_from_chars(&v)
}

/// Appends all of `w`.
fn extend_chars(v: &mut Vec<char>, w: &Vec<char>)
    ensures
        final(v)@ == old(v)@ + w@,
{
    let n = w.len();
    for i in 0..n
        invariant
            n == w.len(),
            v@ == old(v)@ + w@.take(i as int),
    {
        v.push(w[i]);
        proof {
            assert(old(v)@ + w@.take(i + 1) =~= (old(v)@ + w@.take(i as int)).push(
                w@[i as int],
            ));
        }
    }
    proof {
        assert(old(v)@ + w@.take(n as int) =~= old(v)@ + w@);
    }
}

/// Whether `base` is a whole-component prefix of path `p`: either the two
/// are equal, or `p` continues past `base` at a component boundary.
pub open spec fn path_prefix_spec(base: Seq<char>, p: Seq<char>) -> bool {
    ||| base == p
    ||| (base.len() < p.len() && crate::text::is_prefix_spec(base, p) && (base.len() == 0
        || p[base.len() as int] == '/' || base.last() == '/'))
}

/// Whether one path lies under the other (in either direction), at
/// component granularity.
pub open spec fn paths_related_spec(a: Seq<char>, b: Seq<char>) -> bool {
    path_prefix_spec(b, a) || path_prefix_spec(a, b)
}

/// Component-boundary prefix test on paths.
fn path_prefix(base: &Vec<char>, p: &Vec<char>) -> (r: bool)
    ensures
        r == path_prefix_spec(base@, p@),
{
    let bn = base.len();
    let pn = p.len();
    if !crate::text::is_prefix_chars(base, p) {
        proof {
            if base@ == p@ {
                assert(p@.take(bn as int) =~= base@);
            }
        }
        return false;
    }
    if bn == pn {
        proof {
            assert(p@.take(bn as int) =~= p@);
        }
        return true;
    }
    bn == 0 || p[bn] == '/' || base[bn - 1] == '/'
}

/// Whether one path lies under the other, as the session filter uses it.
pub fn paths_related(a: &str, b: &str) -> (r: bool)
    ensures
        r == paths_related_spec(a@, b@),
{
    let ac = crate::text::chars_vec(a);
    let bc = crate::text::chars_vec(b);
    path_prefix(&bc, &ac) || path_prefix(&ac, &bc)
}

/// The sessions whose recorded working directory lies under `cwd` (or
/// contains it); sessions without one are dropped.
pub open spec fn filter_cwd_spec(
    ss: Seq<crate::session::SessionView>,
    cwd: Seq<char>,
) -> Seq<crate::session::SessionView>
    decreases ss.len(),
{
    if ss.len() == 0 {
        Seq::empty()
    } else {
        let rest = filter_cwd_spec(ss.drop_last(), cwd);
        match ss.last().cwd {
            Some(c) => if paths_related_spec(c, cwd) {
                rest + seq![ss.last()]
            } else {
                rest
            },
            None => rest,
        }
    }
}

/// Restricts sessions to those tied to the given working directory.
pub fn filter_sessions_by_cwd(sessions: Vec<crate::session::Session>, cwd: &str) -> (r: Vec<
    crate::session::Session,
>)
    ensures
        crate::rank::session_views(r@) == filter_cwd_spec(
            crate::rank::session_views(sessions@),
            cwd@,
        ),
{
    let mut out: Vec<crate::session::Session> = Vec::new();
    let n = sessions.len();
    for i in 0..n
        invariant
            n == sessions.len(),
            crate::rank::session_views(out@) == filter_cwd_spec(
                crate::rank::session_views(sessions@).take(i as int),
                cwd@,
            ),
    {
        proof {
            assert(crate::rank::session_views(sessions@).take(i + 1).drop_last()
                =~= crate::rank::session_views(sessions@).take(i as int));
            assert(crate::rank::session_views(sessions@).take(i + 1).last() == sessions@[
                i as int]@);
        }
        let ghost pre = crate::rank::session_views(out@);
        let keep = match &sessions[i].cwd {
            Some(c) => paths_related(c.as_str(), cwd),
            None => false,
        };
        if keep {
            out.push(sessions[i].clone());
            proof {
                assert(crate::rank::session_views(out@) =~= pre + seq![sessions@[i as int]@]);
            }
        }
    }
    proof {
        assert(crate::rank::session_views(sessions@).take(n as int) =~= crate::rank::session_views(
            sessions@,
        ));
    }
    out
}

/// Appends the " ago" suffix.
fn append_ago(v: &mut Vec<char>)
    ensures
        final(v)@ == old(v)@ + seq![' ', 'a', 'g', 'o'],
{
    v.push(' ');
    v.push('a');
    v.push('g');
    v.push('o');
    proof {
        assert(v@ =~= old(v)@ + seq![' ', 'a', 'g', 'o']);
    }
}

} // verus!
