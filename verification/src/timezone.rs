//! The application's time zone: a named IANA zone or a fixed UTC offset.
use vstd::prelude::*;
use chrono::TimeZone;
use crate::clock::{strftime_text, format_instant};
use crate::text::{
    all_digits, chars_of, digits_value, is_ascii_digit, parse_i32, parse_i32_spec, split_once_chars,
    split_once_spec, starts_with, starts_with_chars, string_from_chars, trim, trim_chars, trim_str,
};

verus! {

/// An IANA time zone, by its name (such as `Asia/Taipei`).
pub struct NamedZone {
    name: String,
}

impl View for NamedZone {
    type V = Seq<char>;

    closed spec fn view(&self) -> Seq<char> {
        self.name@
    }
}

impl NamedZone {
    /// The zone's IANA name.
    pub fn name(&self) -> (r: &str)
        ensures
            r@ == self@,
    {
        self.name.as_str()
    }
}

/// The time zone the bot reads and writes local times in.
pub enum AppTimeZone {
    /// A named zone of the IANA database.
    Named(NamedZone),
    /// A fixed offset east of UTC, in seconds.
    Fixed(i32),
}

/// How a local wall-clock time maps to UTC in a zone: not at all (a gap),
/// once, or twice (an overlap, earliest first). Times are seconds since the epoch.
#[derive(PartialEq, Eq, Structural, Clone, Copy)]
pub enum LocalResultSecs {
    Gap,
    Single(i64),
    Ambiguous(i64, i64),
}

/// Whether chrono-tz knows a zone of this name.
pub uninterp spec fn is_zone_name(s: Seq<char>) -> bool;

/// What chrono-tz's `from_local_datetime` gives in the named zone for a wall-clock
/// time (seconds since the epoch read as UTC); `None` where chrono cannot hold the time.
pub uninterp spec fn zone_local_result(name: Seq<char>, naive: i64) -> Option<LocalResultSecs>;

/// What chrono's `from_local_datetime` gives for a fixed offset (seconds east of UTC).
pub uninterp spec fn fixed_local_result(offset: i32, naive: i64) -> Option<LocalResultSecs>;

/// The offset east of UTC, in seconds, of the named zone at a UTC instant.
pub uninterp spec fn zone_offset_at(name: Seq<char>, utc: i64) -> Option<i32>;

/// `str::parse::<chrono_tz::Tz>` succeeds.
#[verifier::external_body]
fn zone_exists(name: &str) -> (r: bool)
    ensures
        r == is_zone_name(name@),
{
    name.parse::<chrono_tz::Tz>().is_ok()
}

/// chrono-tz: `Tz::from_local_datetime` for a zone known by name (`None` for
/// an unknown name).
#[verifier::external_body]
fn zone_local(name: &str, naive: i64) -> (r: Option<LocalResultSecs>)
    ensures
        r == zone_local_result(name@, naive),
{
    let tz: chrono_tz::Tz = name.parse().ok()?;
    let local = chrono::DateTime::from_timestamp(naive, 0)?.naive_utc();
    Some(match tz.from_local_datetime(&local) {
        chrono::LocalResult::Single(dt) => LocalResultSecs::Single(dt.timestamp()),
        chrono::LocalResult::Ambiguous(a, b) => LocalResultSecs::Ambiguous(a.timestamp(), b.timestamp()),
        chrono::LocalResult::None => LocalResultSecs::Gap,
    })
}

/// chrono: `FixedOffset::from_local_datetime`.
#[verifier::external_body]
fn fixed_local(offset: i32, naive: i64) -> (r: Option<LocalResultSecs>)
    ensures
        r == fixed_local_result(offset, naive),
{
    let off = chrono::FixedOffset::east_opt(offset)?;
    let local = chrono::DateTime::from_timestamp(naive, 0)?.naive_utc();
    Some(match off.from_local_datetime(&local) {
        chrono::LocalResult::Single(dt) => LocalResultSecs::Single(dt.timestamp()),
        chrono::LocalResult::Ambiguous(a, b) => LocalResultSecs::Ambiguous(a.timestamp(), b.timestamp()),
        chrono::LocalResult::None => LocalResultSecs::Gap,
    })
}

/// chrono-tz: the fixed offset of `DateTime::with_timezone(&tz).fixed_offset()`
/// (`None` for an unknown name).
#[verifier::external_body]
fn zone_offset(name: &str, utc: i64) -> (r: Option<i32>)
    ensures
        r == zone_offset_at(name@, utc),
{
    let tz: chrono_tz::Tz = name.parse().ok()?;
    let dt = chrono::DateTime::from_timestamp(utc, 0)?.with_timezone(&tz).fixed_offset();
    Some(dt.offset().local_minus_utc())
}

/// The earliest UTC time a local time maps to, if any.
pub open spec fn choose_local_spec(r: LocalResultSecs) -> Option<i64> {
    match r {
        LocalResultSecs::Single(t) => Some(t),
        LocalResultSecs::Ambiguous(early, _) => Some(early),
        LocalResultSecs::Gap => None,
    }
}

pub fn choose_local(r: LocalResultSecs) -> (o: Option<i64>)
    ensures
        o == choose_local_spec(r),
{
    match r {
        LocalResultSecs::Single(t) => Some(t),
        LocalResultSecs::Ambiguous(early, _) => Some(early),
        LocalResultSecs::Gap => None,
    }
}

impl AppTimeZone {
    /// The UTC time of a local wall-clock time (seconds since the epoch, read as UTC).
    pub open spec fn local_to_utc_spec(&self, naive: i64) -> Option<i64> {
        let r = match self {
            AppTimeZone::Named(z) => zone_local_result(z@, naive),
            AppTimeZone::Fixed(off) => fixed_local_result(*off, naive),
        };
        match r {
            Some(lr) => choose_local_spec(lr),
            None => None,
        }
    }

    /// The offset east of UTC, in seconds, that applies at a UTC instant.
    pub open spec fn offset_at_spec(&self, utc: i64) -> Option<i32> {
        match self {
            AppTimeZone::Named(z) => zone_offset_at(z@, utc),
            AppTimeZone::Fixed(off) => Some(*off),
        }
    }

    /// Converts a local wall-clock time to UTC; in an overlap the earlier time.
    pub fn naive_local_to_utc(&self, naive: i64) -> (r: Option<i64>)
        ensures
            r == self.local_to_utc_spec(naive),
    {
        let lr = match self {
            AppTimeZone::Named(z) => zone_local(z.name.as_str(), naive),
            AppTimeZone::Fixed(off) => fixed_local(*off, naive),
        };
        match lr {
            Some(x) => choose_local(x),
            None => None,
        }
    }

    /// The offset from UTC of the local time of a UTC instant (the offset of
    /// `utc_to_fixed_local`).
    pub fn utc_to_fixed_local(&self, utc: i64) -> (r: Option<i32>)
        ensures
            r == self.offset_at_spec(utc),
    {
        match self {
            AppTimeZone::Named(z) => zone_offset(z.name.as_str(), utc),
            AppTimeZone::Fixed(off) => Some(*off),
        }
    }

    /// The local date (`YYYY-MM-DD`) of a UTC instant in seconds: `today_str`
    /// for the present instant.
    pub fn date_text(&self, utc: i64) -> (r: Option<String>)
        ensures
            match self.offset_at_spec(utc) {
                Some(off) => match strftime_text(utc, 0, off, "%Y-%m-%d"@) {
                    Some(t) => r matches Some(s) && s@ == t,
                    None => r is None,
                },
                None => r is None,
            },
    {
        match self.utc_to_fixed_local(utc) {
            Some(off) => format_instant(utc, 0, off, "%Y-%m-%d"),
            None => None,
        }
    }
}

// ---------------------------------------------------------------------------
// Reading a time zone setting
// ---------------------------------------------------------------------------

/// `UTC`, `utc`, `GMT` or `gmt` taken off the front, the first that matches.
pub open spec fn strip_utc_prefix(t: Seq<char>) -> Seq<char> {
    if starts_with(t, seq!['U', 'T', 'C']) || starts_with(t, seq!['u', 't', 'c']) || starts_with(
        t,
        seq!['G', 'M', 'T'],
    ) || starts_with(t, seq!['g', 'm', 't']) {
        t.skip(3)
    } else {
        t
    }
}

/// A sign in front stays; bare digits (or nothing) get a `+`.
pub open spec fn normalize_sign(v: Seq<char>) -> Seq<char> {
    if v.len() > 0 && (v[0] == '+' || v[0] == '-') {
        v
    } else if all_digits(v) {
        seq!['+'] + v
    } else {
        v
    }
}

/// `trim_start_matches(c)`: every leading `c` removed.
pub open spec fn trim_start_char(s: Seq<char>, c: char) -> Seq<char>
    decreases s.len(),
{
    if s.len() > 0 && s[0] == c {
        trim_start_char(s.drop_first(), c)
    } else {
        s
    }
}

/// The sign, hours and minutes a fixed-offset setting such as `UTC+8`,
/// `+05:30` or `-0800` reads as.
pub open spec fn offset_parts(raw: Seq<char>) -> Option<(int, int, int)> {
    let n = normalize_sign(strip_utc_prefix(trim(raw)));
    let sign: int = if n.len() > 0 && n[0] == '-' {
        -1
    } else {
        1
    };
    let body = trim(trim_start_char(trim_start_char(n, '+'), '-'));
    match split_once_spec(body, ':') {
        Some((h, m)) => match (parse_i32_spec(trim(h)), parse_i32_spec(trim(m))) {
            (Some(hh), Some(mm)) => Some((sign, hh as int, mm as int)),
            _ => None,
        },
        None => if body.len() == 4 && all_digits(body) {
            Some((sign, digits_value(body.take(2)) as int, digits_value(body.skip(2)) as int))
        } else {
            match parse_i32_spec(body) {
                Some(hh) => Some((sign, hh as int, 0)),
                None => None,
            }
        },
    }
}

pub open spec fn fits_i32(x: int) -> bool {
    i32::MIN <= x <= i32::MAX
}

/// The offset arithmetic `sign * (hours * 3600 + minutes * 60)` leaves `i32`.
pub open spec fn offset_overflows(raw: Seq<char>) -> bool {
    match offset_parts(raw) {
        Some((s, h, m)) => !fits_i32(h * 3600) || !fits_i32(m * 60) || !fits_i32(h * 3600 + m * 60)
            || !fits_i32(s * (h * 3600 + m * 60)),
        None => false,
    }
}

/// The offset in seconds east of UTC that a setting stands for, when it is
/// strictly within one day.
pub open spec fn fixed_offset_spec(raw: Seq<char>) -> Option<i32> {
    match offset_parts(raw) {
        Some((s, h, m)) => {
            let total = s * (h * 3600 + m * 60);
            if -86400 < total < 86400 {
                Some(total as i32)
            } else {
                None
            }
        },
        None => None,
    }
}

fn strip_utc_prefix_exec(t: &[char]) -> (r: Vec<char>)
    ensures
        r@ == strip_utc_prefix(t@),
{
    let a: [char; 3] = ['U', 'T', 'C'];
    let b: [char; 3] = ['u', 't', 'c'];
    let c: [char; 3] = ['G', 'M', 'T'];
    let d: [char; 3] = ['g', 'm', 't'];
    assert(a@ =~= seq!['U', 'T', 'C']);
    assert(b@ =~= seq!['u', 't', 'c']);
    assert(c@ =~= seq!['G', 'M', 'T']);
    assert(d@ =~= seq!['g', 'm', 't']);
    if starts_with_chars(t, &a) || starts_with_chars(t, &b) || starts_with_chars(t, &c)
        || starts_with_chars(t, &d) {
        let rest = vstd::slice::slice_subrange(t, 3, t.len());
        assert(rest@ == t@.skip(3));
        vstd::slice::slice_to_vec(rest)
    } else {
        vstd::slice::slice_to_vec(t)
    }
}

fn all_ascii_digits(s: &[char]) -> (r: bool)
    ensures
        r == all_digits(s@),
{
    let mut i: usize = 0;
    while i < s.len()
        invariant
            i <= s@.len(),
            all_digits(s@.take(i as int)),
        decreases s@.len() - i,
    {
        if !is_ascii_digit(s[i]) {
            return false;
        }
        assert(all_digits(s@.take(i + 1))) by {
            assert forall|k: int| 0 <= k < i + 1 implies crate::text::is_digit(
                #[trigger] s@.take(i + 1)[k],
            ) by {
                if k < i {
                    assert(s@.take(i + 1)[k] == s@.take(i as int)[k]);
                }
            }
        }
        i = i + 1;
    }
    assert(s@.take(i as int) == s@);
    true
}

fn trim_start_char_exec(s: &[char], c: char) -> (r: Vec<char>)
    ensures
        r@ == trim_start_char(s@, c),
{
    let mut i: usize = 0;
    assert(s@.skip(0) == s@);
    while i < s.len() && s[i] == c
        invariant
            i <= s@.len(),
            trim_start_char(s@, c) == trim_start_char(s@.skip(i as int), c),
        decreases s@.len() - i,
    {
        assert(s@.skip(i as int).drop_first() == s@.skip(i + 1));
        i = i + 1;
    }
    let rest = vstd::slice::slice_subrange(s, i, s.len());
    assert(rest@ == s@.skip(i as int));
    vstd::slice::slice_to_vec(rest)
}

/// The sign, hours and minutes of a fixed-offset setting.
fn offset_parts_exec(raw: &str) -> (r: Option<(i32, i32, i32)>)
    ensures
        match r {
            Some((s, h, m)) => offset_parts(raw@) == Some((s as int, h as int, m as int)) && (s == 1
                || s == -1),
            None => offset_parts(raw@) is None,
        },
{
    let rc = chars_of(raw);
    let t = trim_chars(rc.as_slice());
    let value = strip_utc_prefix_exec(t.as_slice());
    let n: Vec<char> = if value.len() > 0 && (value[0] == '+' || value[0] == '-') {
        value
    } else if all_ascii_digits(value.as_slice()) {
        let mut v: Vec<char> = Vec::new();
        v.push('+');
        crate::text::extend_chars(&mut v, value.as_slice());
        assert(v@ =~= seq!['+'] + value@);
        v
    } else {
        value
    };
    assert(n@ == normalize_sign(strip_utc_prefix(trim(raw@))));
    let sign: i32 = if n.len() > 0 && n[0] == '-' {
        -1
    } else {
        1
    };
    let b1 = trim_start_char_exec(n.as_slice(), '+');
    let b2 = trim_start_char_exec(b1.as_slice(), '-');
    let body = trim_chars(b2.as_slice());
    match split_once_chars(body.as_slice(), ':') {
        Some((h, m)) => {
            let ht = trim_chars(h.as_slice());
            let mt = trim_chars(m.as_slice());
            match (parse_i32(ht.as_slice()), parse_i32(mt.as_slice())) {
                (Some(hh), Some(mm)) => Some((sign, hh, mm)),
                _ => None,
            }
        },
        None => {
            if body.len() == 4 && all_ascii_digits(body.as_slice()) {
                let hs = vstd::slice::slice_subrange(body.as_slice(), 0, 2);
                let ms = vstd::slice::slice_subrange(body.as_slice(), 2, 4);
                assert(hs@ == body@.take(2));
                assert(ms@ == body@.skip(2));
                let hh = parse_i32(hs);
                let mm = parse_i32(ms);
                proof {
                    assert(all_digits(hs@)) by {
                        assert forall|k: int| 0 <= k < hs@.len() implies crate::text::is_digit(
                            #[trigger] hs@[k],
                        ) by {
                            assert(hs@[k] == body@[k]);
                        }
                    }
                    assert(all_digits(ms@)) by {
                        assert forall|k: int| 0 <= k < ms@.len() implies crate::text::is_digit(
                            #[trigger] ms@[k],
                        ) by {
                            assert(ms@[k] == body@[k + 2]);
                        }
                    }
                    assert(hs@[0] != '+' && hs@[0] != '-');
                    assert(ms@[0] != '+' && ms@[0] != '-');
                    lemma_two_digits(hs@);
                    lemma_two_digits(ms@);
                }
                match (hh, mm) {
                    (Some(x), Some(y)) => Some((sign, x, y)),
                    _ => None,
                }
            } else {
                match parse_i32(body.as_slice()) {
                    Some(hh) => Some((sign, hh, 0)),
                    None => None,
                }
            }
        },
    }
}

proof fn lemma_two_digits(s: Seq<char>)
    requires
        s.len() == 2,
        all_digits(s),
    ensures
        digits_value(s) <= 99,
{
    assert(crate::text::is_digit(s[0]));
    assert(crate::text::is_digit(s[1]));
    let p = s.drop_last();
    assert(p.drop_last() =~= Seq::<char>::empty());
    assert(p.last() == s[0]);
    assert(digits_value(p.drop_last()) == 0);
    assert(digits_value(p) == digits_value(p.drop_last()) * 10 + crate::text::digit_val(p.last()));
    assert(digits_value(p) <= 9);
    assert(digits_value(s) == digits_value(p) * 10 + crate::text::digit_val(s.last()));
}

/// Whether the offset arithmetic of a setting leaves `i32`.
pub fn fixed_offset_overflows(raw: &str) -> (r: bool)
    ensures
        r == offset_overflows(raw@),
{
    match offset_parts_exec(raw) {
        Some((s, h, m)) => {
            let a = (h as i64) * 3600;
            let b = (m as i64) * 60;
            let lo = -2147483648i64;
            let hi = 2147483647i64;
            let c = a + b;
            let d = if s < 0 {
                -c
            } else {
                c
            };
            assert(d == s as int * c);
            a < lo || a > hi || b < lo || b > hi || c < lo || c > hi || d < lo || d > hi
        },
        None => false,
    }
}

/// Reads a fixed UTC offset such as `UTC+8`, `GMT-03:30`, `+0530` or `9`.
pub fn parse_fixed_offset(raw: &str) -> (r: Option<i32>)
    requires
        !offset_overflows(raw@),
    ensures
        r == fixed_offset_spec(raw@),
{
    match offset_parts_exec(raw) {
        Some((s, h, m)) => {
            let total = s * (h * 3600 + m * 60);
            if total < -86400 || total > 86400 {
                return None;
            }
            if -86400 < total && total < 86400 {
                Some(total)
            } else {
                None
            }
        },
        None => None,
    }
}

/// Reads a time zone setting: an IANA name (`Asia/Taipei`) or a fixed offset.
pub fn parse_timezone(raw: &str) -> (r: Option<AppTimeZone>)
    requires
        !offset_overflows(raw@),
    ensures
        match r {
            Some(AppTimeZone::Named(z)) => is_zone_name(raw@) && z@ == raw@,
            Some(AppTimeZone::Fixed(off)) => !is_zone_name(raw@) && fixed_offset_spec(raw@) == Some(
                off,
            ),
            None => !is_zone_name(raw@) && fixed_offset_spec(raw@) is None,
        },
{
    if zone_exists(raw) {
        let rc = chars_of(raw);
        return Some(AppTimeZone::Named(NamedZone { name: string_from_chars(rc.as_slice()) }));
    }
    match parse_fixed_offset(raw) {
        Some(off) => Some(AppTimeZone::Fixed(off)),
        None => None,
    }
}

/// The zone used when no setting is given or it cannot be read: `Asia/Taipei`.
pub fn default_timezone() -> (r: AppTimeZone)
    ensures
        r matches AppTimeZone::Named(z) && z@ == "Asia/Taipei"@,
{
    let s = String::from_str("Asia/Taipei");
    AppTimeZone::Named(NamedZone { name: s })
}

} // verus!

verus! {

/// The application's time zone from its setting (the `TZ` variable): the
/// trimmed text read by [`parse_timezone`], or `Asia/Taipei` when the setting
/// is missing, empty or unreadable.
pub fn timezone_from_setting(raw: Option<&str>) -> (r: AppTimeZone)
    requires
        raw matches Some(s) ==> !offset_overflows(trim(s@)),
    ensures
        match raw {
            Some(s) if trim(s@).len() > 0 && is_zone_name(trim(s@)) => r matches AppTimeZone::Named(
                z,
            ) && z@ == trim(s@),
            Some(s) if trim(s@).len() > 0 && fixed_offset_spec(trim(s@)) is Some => r
                == AppTimeZone::Fixed(fixed_offset_spec(trim(s@)).unwrap()),
            _ => r matches AppTimeZone::Named(z) && z@ == "Asia/Taipei"@,
        },
{
    match raw {
        Some(s) => {
            let t = trim_str(s);
            if t.as_str().is_empty() {
                return default_timezone();
            }
            match parse_timezone(t.as_str()) {
                Some(z) => z,
                None => default_timezone(),
            }
        },
        None => default_timezone(),
    }
}

} // verus!
