//! Reading dates and fields of crawled pages.
use vstd::prelude::*;
use crate::clock::{midnight, midnight_spec, naive_date_parse, naive_datetime_parse, parse_naive_date, parse_naive_datetime};
use crate::text::{
    digit_char,
    chars_of, collapse_whitespace, collapse_ws, replace_all, replace_chars, starts_with,
    starts_with_chars, string_from_chars, trim, trim_chars,
};
use crate::timezone::AppTimeZone;

verus! {

/// The prefix "written on" that some pages put before a date.
pub open spec fn written_on() -> Seq<char> {
    "寫於"@
}

/// Weekday words removed from a date text.
pub open spec fn weekday_words() -> Seq<Seq<char>> {
    seq![
        "週一,"@,
        "週二,"@,
        "週三,"@,
        "週四,"@,
        "週五,"@,
        "週六,"@,
        "週日,"@,
        "星期一,"@,
        "星期二,"@,
        "星期三,"@,
        "星期四,"@,
        "星期五,"@,
        "星期六,"@,
        "星期日,"@,
    ]
}

/// Month names and the numbers they are replaced by, in this order.
pub open spec fn month_words() -> Seq<(Seq<char>, Seq<char>)> {
    seq![
        ("十二月"@, "12"@),
        ("十一月"@, "11"@),
        ("十月"@, "10"@),
        ("九月"@, "09"@),
        ("八月"@, "08"@),
        ("七月"@, "07"@),
        ("六月"@, "06"@),
        ("五月"@, "05"@),
        ("四月"@, "04"@),
        ("三月"@, "03"@),
        ("二月"@, "02"@),
        ("一月"@, "01"@),
    ]
}

/// The date patterns tried, in this order.
pub open spec fn date_formats() -> Seq<Seq<char>> {
    seq![
        "%Y-%m-%d %H:%M:%S"@,
        "%Y/%m/%d %H:%M:%S"@,
        "%Y-%m-%d %H:%M"@,
        "%Y/%m/%d %H:%M"@,
        "%Y-%m-%d"@,
        "%Y/%m/%d"@,
        "%m %d, %Y"@,
        "%m %e, %Y"@,
        "%m %d %Y"@,
        "%m %e %Y"@,
        "%b %d, %Y"@,
        "%b %e, %Y"@,
        "%B %d, %Y"@,
        "%B %e, %Y"@,
        "%b %d %Y"@,
        "%b %e %Y"@,
        "%B %d %Y"@,
        "%B %e %Y"@,
        "%d %m %Y %H:%M"@,
        "%d %m %Y"@,
    ]
}

/// Every word of the list removed, in order.
pub open spec fn remove_each(s: Seq<char>, words: Seq<Seq<char>>) -> Seq<char>
    decreases words.len(),
{
    if words.len() == 0 {
        s
    } else {
        remove_each(replace_all(s, words[0], seq![]), words.drop_first())
    }
}

/// Every pair of the list applied as a replacement, in order.
pub open spec fn replace_each(s: Seq<char>, pairs: Seq<(Seq<char>, Seq<char>)>) -> Seq<char>
    decreases pairs.len(),
{
    if pairs.len() == 0 {
        s
    } else {
        replace_each(replace_all(s, pairs[0].0, pairs[0].1), pairs.drop_first())
    }
}

/// The date text after clean-up: trimmed, without "written on", weekday words
/// and month names, with ideographic spaces as spaces and whitespace collapsed.
pub open spec fn normalize_date_text(s: Seq<char>) -> Seq<char> {
    let t = trim(s);
    let t1 = if starts_with(t, written_on()) {
        trim(t.skip(2))
    } else {
        t
    };
    let t2 = remove_each(t1, weekday_words());
    let t3 = replace_each(t2, month_words());
    collapse_ws(replace_all(t3, "　"@, " "@))
}

/// The first pattern (a date with time, then a date alone at midnight) that
/// reads the text as a local time that exists in the zone, as UTC seconds.
pub open spec fn read_with_formats(s: Seq<char>, tz: AppTimeZone, fmts: Seq<Seq<char>>) -> Option<
    i64,
>
    decreases fmts.len(),
{
    if fmts.len() == 0 {
        None
    } else {
        let a = match naive_datetime_parse(s, fmts[0]) {
            Some(t) => tz.local_to_utc_spec(t),
            None => None,
        };
        if a is Some {
            a
        } else {
            let b = match naive_date_parse(s, fmts[0]) {
                Some(d) => tz.local_to_utc_spec(midnight_spec(d) as i64),
                None => None,
            };
            if b is Some {
                b
            } else {
                read_with_formats(s, tz, fmts.drop_first())
            }
        }
    }
}

/// The UTC time a posted-date text stands for in the zone.
pub open spec fn parse_time_spec(s: Seq<char>, tz: AppTimeZone) -> Option<i64> {
    read_with_formats(normalize_date_text(s), tz, date_formats())
}

// ---------------------------------------------------------------------------
// Month names
// ---------------------------------------------------------------------------

/// The Chinese numeral word for 1 to 10.
pub open spec fn numeral_digit(n: int) -> char {
    if n == 1 {
        '一'
    } else if n == 2 {
        '二'
    } else if n == 3 {
        '三'
    } else if n == 4 {
        '四'
    } else if n == 5 {
        '五'
    } else if n == 6 {
        '六'
    } else if n == 7 {
        '七'
    } else if n == 8 {
        '八'
    } else if n == 9 {
        '九'
    } else {
        '十'
    }
}

/// The name of month `k` (1 to 12): its numeral (十一 for 11, 十二 for 12)
/// followed by 月.
pub open spec fn month_name(k: int) -> Seq<char> {
    if k <= 10 {
        seq![numeral_digit(k), '月']
    } else {
        seq!['十', numeral_digit(k - 10), '月']
    }
}

/// Month `k` written with two digits.
pub open spec fn month_digits(k: int) -> Seq<char> {
    seq![digit_char((k / 10) as nat), digit_char((k % 10) as nat)]
}

pub open spec fn has_no_month_mark(s: Seq<char>) -> bool {
    forall|j: int| 0 <= j < s.len() ==> #[trigger] s[j] != '月'
}

proof fn lemma_month_words_table()
    ensures
        month_words().len() == 12,
        forall|i: int|
            0 <= i < 12 ==> #[trigger] month_words()[i] == (month_name(12 - i), month_digits(12 - i)),
{
    reveal_strlit("十二月");
    reveal_strlit("十一月");
    reveal_strlit("十月");
    reveal_strlit("九月");
    reveal_strlit("八月");
    reveal_strlit("七月");
    reveal_strlit("六月");
    reveal_strlit("五月");
    reveal_strlit("四月");
    reveal_strlit("三月");
    reveal_strlit("二月");
    reveal_strlit("一月");
    reveal_strlit("12");
    reveal_strlit("11");
    reveal_strlit("10");
    reveal_strlit("09");
    reveal_strlit("08");
    reveal_strlit("07");
    reveal_strlit("06");
    reveal_strlit("05");
    reveal_strlit("04");
    reveal_strlit("03");
    reveal_strlit("02");
    reveal_strlit("01");
    let w = month_words();
    assert(w[0] == (month_name(12), month_digits(12)));
    assert(w[1] == (month_name(11), month_digits(11)));
    assert(w[2] == (month_name(10), month_digits(10)));
    assert(w[3] == (month_name(9), month_digits(9)));
    assert(w[4] == (month_name(8), month_digits(8)));
    assert(w[5] == (month_name(7), month_digits(7)));
    assert(w[6] == (month_name(6), month_digits(6)));
    assert(w[7] == (month_name(5), month_digits(5)));
    assert(w[8] == (month_name(4), month_digits(4)));
    assert(w[9] == (month_name(3), month_digits(3)));
    assert(w[10] == (month_name(2), month_digits(2)));
    assert(w[11] == (month_name(1), month_digits(1)));
}

proof fn lemma_replace_nowhere(s: Seq<char>, p: Seq<char>, t: Seq<char>)
    requires
        p.len() > 0,
        forall|i: int| 0 <= i < s.len() ==> !starts_with(#[trigger] s.skip(i), p),
    ensures
        replace_all(s, p, t) == s,
    decreases s.len(),
{
    if s.len() > 0 {
        assert(s.skip(0) =~= s);
        assert forall|i: int| 0 <= i < s.drop_first().len() implies !starts_with(
            #[trigger] s.drop_first().skip(i),
            p,
        ) by {
            assert(s.drop_first().skip(i) =~= s.skip(i + 1));
        }
        lemma_replace_nowhere(s.drop_first(), p, t);
        assert(seq![s[0]] + s.drop_first() =~= s);
    }
}

proof fn lemma_no_mark_no_match(s: Seq<char>, p: Seq<char>)
    requires
        has_no_month_mark(s),
        p.len() > 0,
        p[p.len() - 1] == '月',
    ensures
        forall|i: int| 0 <= i < s.len() ==> !starts_with(#[trigger] s.skip(i), p),
{
    assert forall|i: int| 0 <= i < s.len() implies !starts_with(#[trigger] s.skip(i), p) by {
        if starts_with(s.skip(i), p) {
            assert(s.skip(i).take(p.len() as int)[p.len() - 1] == p[p.len() - 1]);
            assert(s[i + p.len() - 1] == '月');
        }
    }
}

/// A month name followed by text without 月 holds a longer or different
/// month name nowhere.
proof fn lemma_other_month_absent(x: Seq<char>, b: Seq<char>, p: Seq<char>)
    requires
        x.len() >= 2,
        x[x.len() - 1] == '月',
        forall|j: int| 0 <= j < x.len() - 1 ==> #[trigger] x[j] != '月',
        has_no_month_mark(b),
        p.len() >= 2,
        p[p.len() - 1] == '月',
        p.len() > x.len() || (p.len() == x.len() && p[p.len() - 2] != x[x.len() - 2]),
    ensures
        forall|i: int| 0 <= i < (x + b).len() ==> !starts_with(#[trigger] (x + b).skip(i), p),
{
    let s = x + b;
    assert forall|i: int| 0 <= i < s.len() implies !starts_with(#[trigger] s.skip(i), p) by {
        if starts_with(s.skip(i), p) {
            let e = i + p.len() - 1;
            assert(s.skip(i).take(p.len() as int)[p.len() - 1] == p[p.len() - 1]);
            assert(s[e] == '月');
            if e >= x.len() {
                assert(s[e] == b[e - x.len()]);
            } else if e < x.len() - 1 {
                assert(s[e] == x[e]);
            } else {
                assert(s.skip(i).take(p.len() as int)[p.len() - 2] == p[p.len() - 2]);
                assert(s[e - 1] == x[x.len() - 2]);
            }
        }
    }
}

proof fn lemma_month_name_shape(k: int)
    requires
        1 <= k <= 12,
    ensures
        month_name(k).len() >= 2,
        month_name(k)[month_name(k).len() - 1] == '月',
        forall|j: int| 0 <= j < month_name(k).len() - 1 ==> #[trigger] month_name(k)[j] != '月',
        has_no_month_mark(month_digits(k)),
{
}

/// Replacing the month names one after another in the table's order leaves
/// text without 月 as it is.
proof fn lemma_months_leave_plain(s: Seq<char>, j: int)
    requires
        0 <= j <= 12,
        has_no_month_mark(s),
    ensures
        replace_each(s, month_words().skip(j)) == s,
    decreases 12 - j,
{
    lemma_month_words_table();
    if j < 12 {
        let ps = month_words().skip(j);
        assert(ps[0] == month_words()[j]);
        assert(ps.drop_first() =~= month_words().skip(j + 1));
        lemma_month_name_shape(12 - j);
        lemma_no_mark_no_match(s, ps[0].0);
        lemma_replace_nowhere(s, ps[0].0, ps[0].1);
        lemma_months_leave_plain(s, j + 1);
    } else {
        assert(month_words().skip(j).len() == 0);
    }
}

proof fn lemma_months_from(k: int, b: Seq<char>, j: int)
    requires
        1 <= k <= 12,
        0 <= j <= 12 - k,
        has_no_month_mark(b),
    ensures
        replace_each(month_name(k) + b, month_words().skip(j)) == month_digits(k) + b,
    decreases 12 - j,
{
    lemma_month_words_table();
    let ps = month_words().skip(j);
    let x = month_name(k);
    assert(ps[0] == month_words()[j]);
    assert(ps.drop_first() =~= month_words().skip(j + 1));
    lemma_month_name_shape(k);
    lemma_month_name_shape(12 - j);
    if j < 12 - k {
        let p = month_name(12 - j);
        assert(p.len() > x.len() || (p.len() == x.len() && p[p.len() - 2] != x[x.len() - 2]));
        lemma_other_month_absent(x, b, p);
        lemma_replace_nowhere(x + b, p, ps[0].1);
        lemma_months_from(k, b, j + 1);
    } else {
        let d = month_digits(k);
        assert(starts_with(x + b, x)) by {
            assert((x + b).take(x.len() as int) =~= x);
        }
        assert((x + b).skip(x.len() as int) =~= b);
        lemma_no_mark_no_match(b, x);
        lemma_replace_nowhere(b, x, d);
        assert(replace_all(x + b, x, d) == d + b);
        assert(has_no_month_mark(d + b));
        lemma_months_leave_plain(d + b, j + 1);
    }
}

/// A Chinese month name is read as its month: month `k` written 一月 … 十二月
/// at the start of a date text (followed by text without 月) becomes the two
/// digits of `k`, and the rest of the text is kept.
pub proof fn law_month_names_read_as_numbers(k: int, rest: Seq<char>)
    requires
        1 <= k <= 12,
        forall|j: int| 0 <= j < rest.len() ==> rest[j] != '月',
    ensures
        replace_each(month_name(k) + rest, month_words()) == month_digits(k) + rest,
{
    assert(month_words().skip(0) =~= month_words());
    lemma_months_from(k, rest, 0);
}

fn remove_words(s: Vec<char>, words: &[&str]) -> (r: Vec<char>)
    requires
        forall|i: int| 0 <= i < words@.len() ==> (#[trigger] words@[i])@.len() > 0,
    ensures
        r@ == remove_each(s@, words@.map_values(|w: &str| w@)),
{
    let ghost ws = words@.map_values(|w: &str| w@);
    let mut cur = s;
    let mut i: usize = 0;
    assert(ws.skip(0) == ws);
    while i < words.len()
        invariant
            i <= words@.len(),
            ws == words@.map_values(|w: &str| w@),
            forall|k: int| 0 <= k < words@.len() ==> (#[trigger] words@[k])@.len() > 0,
            remove_each(s@, ws) == remove_each(cur@, ws.skip(i as int)),
        decreases words@.len() - i,
    {
        assert(ws.skip(i as int)[0] == words@[i as int]@);
        assert(ws.skip(i as int).drop_first() == ws.skip(i + 1));
        let w = chars_of(words[i]);
        let empty: [char; 0] = [];
        assert(empty@ =~= Seq::<char>::empty());
        cur = replace_chars(cur.as_slice(), w.as_slice(), &empty);
        i = i + 1;
    }
    assert(ws.skip(i as int) =~= Seq::<Seq<char>>::empty());
    cur
}

fn replace_pairs(s: Vec<char>, pairs: &[(&str, &str)]) -> (r: Vec<char>)
    requires
        forall|i: int| 0 <= i < pairs@.len() ==> (#[trigger] pairs@[i]).0@.len() > 0,
    ensures
        r@ == replace_each(s@, pairs@.map_values(|p: (&str, &str)| (p.0@, p.1@))),
{
    let ghost ps = pairs@.map_values(|p: (&str, &str)| (p.0@, p.1@));
    let mut cur = s;
    let mut i: usize = 0;
    assert(ps.skip(0) == ps);
    while i < pairs.len()
        invariant
            i <= pairs@.len(),
            ps == pairs@.map_values(|p: (&str, &str)| (p.0@, p.1@)),
            forall|k: int| 0 <= k < pairs@.len() ==> (#[trigger] pairs@[k]).0@.len() > 0,
            replace_each(s@, ps) == replace_each(cur@, ps.skip(i as int)),
        decreases pairs@.len() - i,
    {
        assert(ps.skip(i as int)[0] == (pairs@[i as int].0@, pairs@[i as int].1@));
        assert(ps.skip(i as int).drop_first() == ps.skip(i + 1));
        let a = chars_of(pairs[i].0);
        let b = chars_of(pairs[i].1);
        cur = replace_chars(cur.as_slice(), a.as_slice(), b.as_slice());
        i = i + 1;
    }
    assert(ps.skip(i as int) =~= Seq::<(Seq<char>, Seq<char>)>::empty());
    cur
}

/// Cleans up a posted-date text (see [`normalize_date_text`]).
pub fn normalize_date(time_str: &str) -> (r: Vec<char>)
    ensures
        r@ == normalize_date_text(time_str@),
{
    let sc = chars_of(time_str);
    let t = trim_chars(sc.as_slice());
    let w: [char; 2] = ['寫', '於'];
    proof {
        reveal_strlit("寫於");
    }
    assert(w@ =~= written_on());
    let t1 = if starts_with_chars(t.as_slice(), &w) {
        let rest = vstd::slice::slice_subrange(t.as_slice(), 2, t.len());
        assert(rest@ == t@.skip(2));
        trim_chars(rest)
    } else {
        t
    };
    let weekdays: [&str; 14] = [
        "週一,",
        "週二,",
        "週三,",
        "週四,",
        "週五,",
        "週六,",
        "週日,",
        "星期一,",
        "星期二,",
        "星期三,",
        "星期四,",
        "星期五,",
        "星期六,",
        "星期日,",
    ];
    proof {
        reveal_strlit("週一,");
        reveal_strlit("週二,");
        reveal_strlit("週三,");
        reveal_strlit("週四,");
        reveal_strlit("週五,");
        reveal_strlit("週六,");
        reveal_strlit("週日,");
        reveal_strlit("星期一,");
        reveal_strlit("星期二,");
        reveal_strlit("星期三,");
        reveal_strlit("星期四,");
        reveal_strlit("星期五,");
        reveal_strlit("星期六,");
        reveal_strlit("星期日,");
        assert(weekdays@.map_values(|x: &str| x@) =~= weekday_words());
    }
    let t2 = remove_words(t1, &weekdays);
    let months: [(&str, &str); 12] = [
        ("十二月", "12"),
        ("十一月", "11"),
        ("十月", "10"),
        ("九月", "09"),
        ("八月", "08"),
        ("七月", "07"),
        ("六月", "06"),
        ("五月", "05"),
        ("四月", "04"),
        ("三月", "03"),
        ("二月", "02"),
        ("一月", "01"),
    ];
    proof {
        reveal_strlit("十二月");
        reveal_strlit("十一月");
        reveal_strlit("十月");
        reveal_strlit("九月");
        reveal_strlit("八月");
        reveal_strlit("七月");
        reveal_strlit("六月");
        reveal_strlit("五月");
        reveal_strlit("四月");
        reveal_strlit("三月");
        reveal_strlit("二月");
        reveal_strlit("一月");
        assert(months@.map_values(|p: (&str, &str)| (p.0@, p.1@)) =~= month_words());
    }
    let t3 = replace_pairs(t2, &months);
    let ideo = chars_of("　");
    let sp = chars_of(" ");
    proof {
        reveal_strlit("　");
    }
    let t4 = replace_chars(t3.as_slice(), ideo.as_slice(), sp.as_slice());
    collapse_whitespace(t4.as_slice())
}

/// Reads a posted-date text as a local time in the zone, trying the known
/// patterns in order; the UTC time in seconds, or the text itself as the error.
pub fn parse_time_string(time_str: &str, tz: &AppTimeZone) -> (r: Result<i64, String>)
    ensures
        match r {
            Ok(t) => parse_time_spec(time_str@, *tz) == Some(t),
            Err(e) => parse_time_spec(time_str@, *tz) is None && e@ == time_str@,
        },
{
    let n = normalize_date(time_str);
    let ns = string_from_chars(n.as_slice());
    let formats: [&str; 20] = [
        "%Y-%m-%d %H:%M:%S",
        "%Y/%m/%d %H:%M:%S",
        "%Y-%m-%d %H:%M",
        "%Y/%m/%d %H:%M",
        "%Y-%m-%d",
        "%Y/%m/%d",
        "%m %d, %Y",
        "%m %e, %Y",
        "%m %d %Y",
        "%m %e %Y",
        "%b %d, %Y",
        "%b %e, %Y",
        "%B %d, %Y",
        "%B %e, %Y",
        "%b %d %Y",
        "%b %e %Y",
        "%B %d %Y",
        "%B %e %Y",
        "%d %m %Y %H:%M",
        "%d %m %Y",
    ];
    let ghost fs = formats@.map_values(|x: &str| x@);
    assert(fs =~= date_formats());
    let mut i: usize = 0;
    assert(fs.skip(0) == fs);
    while i < formats.len()
        invariant
            i <= formats@.len(),
            fs == formats@.map_values(|x: &str| x@),
            fs.len() == formats@.len(),
            ns@ == normalize_date_text(time_str@),
            parse_time_spec(time_str@, *tz) == read_with_formats(ns@, *tz, fs.skip(i as int)),
        decreases formats@.len() - i,
    {
        let f = formats[i];
        assert(fs.skip(i as int)[0] == f@);
        assert(fs.skip(i as int).drop_first() == fs.skip(i + 1));
        if let Some(t) = parse_naive_datetime(ns.as_str(), f) {
            if let Some(u) = tz.naive_local_to_utc(t) {
                return Ok(u);
            }
        }
        if let Some(d) = parse_naive_date(ns.as_str(), f) {
            let m = midnight(d);
            if let Some(u) = tz.naive_local_to_utc(m) {
                return Ok(u);
            }
        }
        i = i + 1;
    }
    Err(String::from_str(time_str))
}

} // verus!
