//! Bringing a configuration file up to date: the values a user wrote are laid
//! over the current defaults, so that settings added since the file was
//! written appear with their default values and nothing the user set is lost.
use vstd::prelude::*;
use crate::text::{trim, trim_str};

verus! {

/// A TOML value. Strings, numbers, booleans, dates and lists that hold no
/// table are carried as their TOML text: merging never looks inside them. A
/// list is an `Array` when it is empty or holds a table.
pub enum TomlValue {
    Scalar(String),
    Array(Vec<TomlValue>),
    Table(Vec<(String, TomlValue)>),
}

/// The mathematical form of a [`TomlValue`].
pub enum SpecToml {
    Scalar(Seq<char>),
    Array(Seq<SpecToml>),
    Table(Seq<(Seq<char>, SpecToml)>),
}

pub open spec fn toml_view(v: TomlValue) -> SpecToml
    decreases v,
{
    match v {
        TomlValue::Scalar(s) => SpecToml::Scalar(s@),
        TomlValue::Array(a) => SpecToml::Array(tomls_view(a@)),
        TomlValue::Table(t) => SpecToml::Table(toml_entries_view(t@)),
    }
}

pub open spec fn tomls_view(s: Seq<TomlValue>) -> Seq<SpecToml>
    decreases s,
{
    if s.len() == 0 {
        seq![]
    } else {
        tomls_view(s.drop_last()).push(toml_view(s.last()))
    }
}

pub open spec fn toml_entries_view(s: Seq<(String, TomlValue)>) -> Seq<(Seq<char>, SpecToml)>
    decreases s,
{
    if s.len() == 0 {
        seq![]
    } else {
        toml_entries_view(s.drop_last()).push((s.last().0@, toml_view(s.last().1)))
    }
}

impl View for TomlValue {
    type V = SpecToml;

    open spec fn view(&self) -> SpecToml {
        toml_view(*self)
    }
}

pub proof fn lemma_tomls_view(s: Seq<TomlValue>)
    ensures
        tomls_view(s).len() == s.len(),
        forall|i: int| 0 <= i < s.len() ==> #[trigger] tomls_view(s)[i] == toml_view(s[i]),
    decreases s.len(),
{
    if s.len() > 0 {
        lemma_tomls_view(s.drop_last());
    }
}

pub proof fn lemma_toml_entries_view(s: Seq<(String, TomlValue)>)
    ensures
        toml_entries_view(s).len() == s.len(),
        forall|i: int|
            0 <= i < s.len() ==> #[trigger] toml_entries_view(s)[i] == (s[i].0@, toml_view(
                s[i].1,
            )),
    decreases s.len(),
{
    if s.len() > 0 {
        lemma_toml_entries_view(s.drop_last());
    }
}

// ---------------------------------------------------------------------------
// The meaning of a merge
// ---------------------------------------------------------------------------

/// The first position of `k` among the keys of a table.
pub open spec fn key_position(s: Seq<(Seq<char>, SpecToml)>, k: Seq<char>) -> Option<int>
    decreases s.len(),
{
    if s.len() == 0 {
        None
    } else if s[0].0 == k {
        Some(0)
    } else {
        match key_position(s.drop_first(), k) {
            Some(i) => Some(i + 1),
            None => None,
        }
    }
}

/// The value stored under `k` in a table.
pub open spec fn entry_of(s: Seq<(Seq<char>, SpecToml)>, k: Seq<char>) -> Option<SpecToml> {
    match key_position(s, k) {
        Some(i) => Some(s[i].1),
        None => None,
    }
}

/// No key occurs twice.
pub open spec fn distinct_keys(s: Seq<(Seq<char>, SpecToml)>) -> bool {
    forall|i: int, j: int| 0 <= i < j < s.len() ==> s[i].0 != s[j].0
}

/// Every item is a table (true of an empty list).
pub open spec fn all_tables(s: Seq<SpecToml>) -> bool {
    forall|i: int| 0 <= i < s.len() ==> s[i] is Table
}

pub open spec fn first_item(s: Seq<SpecToml>) -> Option<SpecToml> {
    if s.len() > 0 {
        Some(s[0])
    } else {
        None
    }
}

/// `existing` laid over `defaults`: tables merge key by key, a list of
/// tables takes each of its items over the first default item, and anything
/// else is the existing value.
pub open spec fn merge_spec(defaults: SpecToml, existing: SpecToml) -> SpecToml
    decreases existing,
{
    match existing {
        SpecToml::Table(et) => match defaults {
            SpecToml::Table(dt) => SpecToml::Table(merge_entries(dt, et)),
            _ => existing,
        },
        SpecToml::Array(ea) => match defaults {
            SpecToml::Array(da) => if all_tables(da) && all_tables(ea) {
                SpecToml::Array(merge_items(first_item(da), ea))
            } else {
                existing
            },
            _ => existing,
        },
        _ => existing,
    }
}

/// The entries of `et`, taken in order, laid over the table `dt`.
pub open spec fn merge_entries(
    dt: Seq<(Seq<char>, SpecToml)>,
    et: Seq<(Seq<char>, SpecToml)>,
) -> Seq<(Seq<char>, SpecToml)>
    decreases et,
{
    if et.len() == 0 {
        dt
    } else {
        let acc = merge_entries(dt, et.drop_last());
        let k = et.last().0;
        match key_position(acc, k) {
            Some(i) => acc.update(i, (k, merge_spec(acc[i].1, et.last().1))),
            None => acc.push(et.last()),
        }
    }
}

/// Each item laid over the template (over a copy of itself when there is
/// no template).
pub open spec fn merge_items(template: Option<SpecToml>, ea: Seq<SpecToml>) -> Seq<SpecToml>
    decreases ea,
{
    if ea.len() == 0 {
        seq![]
    } else {
        let base = match template {
            Some(t) => t,
            None => ea.last(),
        };
        merge_items(template, ea.drop_last()).push(merge_spec(base, ea.last()))
    }
}

/// What a key position tells of a table's keys.
pub proof fn lemma_key_position(s: Seq<(Seq<char>, SpecToml)>, k: Seq<char>)
    ensures
        match key_position(s, k) {
            Some(i) => 0 <= i < s.len() && s[i].0 == k && forall|j: int|
                0 <= j < i ==> s[j].0 != k,
            None => forall|j: int| 0 <= j < s.len() ==> s[j].0 != k,
        },
    decreases s.len(),
{
    if s.len() > 0 && s[0].0 != k {
        lemma_key_position(s.drop_first(), k);
        match key_position(s.drop_first(), k) {
            Some(i) => {
                assert forall|j: int| 0 <= j < i + 1 implies s[j].0 != k by {
                    if j > 0 {
                        assert(s[j] == s.drop_first()[j - 1]);
                    }
                }
            },
            None => {
                assert forall|j: int| 0 <= j < s.len() implies s[j].0 != k by {
                    if j > 0 {
                        assert(s[j] == s.drop_first()[j - 1]);
                    }
                }
            },
        }
    }
}

/// A table whose first occurrence of `k` is at `i` has `key_position` `i`.
pub proof fn lemma_key_position_at(s: Seq<(Seq<char>, SpecToml)>, k: Seq<char>, i: int)
    requires
        0 <= i < s.len(),
        s[i].0 == k,
        forall|j: int| 0 <= j < i ==> s[j].0 != k,
    ensures
        key_position(s, k) == Some(i),
{
    lemma_key_position(s, k);
}

/// A table where `k` does not occur has no position for it.
pub proof fn lemma_key_position_none(s: Seq<(Seq<char>, SpecToml)>, k: Seq<char>)
    requires
        forall|j: int| 0 <= j < s.len() ==> s[j].0 != k,
    ensures
        key_position(s, k) is None,
{
    lemma_key_position(s, k);
}

/// One step of [`merge_entries`] changes the entry of its own key only.
proof fn lemma_step_entries(
    acc: Seq<(Seq<char>, SpecToml)>,
    e: (Seq<char>, SpecToml),
    k: Seq<char>,
    next: Seq<(Seq<char>, SpecToml)>,
)
    requires
        next == (match key_position(acc, e.0) {
            Some(i) => acc.update(i, (e.0, merge_spec(acc[i].1, e.1))),
            None => acc.push(e),
        }),
    ensures
        k != e.0 ==> entry_of(next, k) == entry_of(acc, k),
        k == e.0 ==> entry_of(next, k) == Some(
            match entry_of(acc, k) {
                Some(dv) => merge_spec(dv, e.1),
                None => e.1,
            },
        ),
        distinct_keys(acc) ==> distinct_keys(next),
{
    lemma_key_position(acc, e.0);
    lemma_key_position(acc, k);
    match key_position(acc, e.0) {
        Some(i) => {
            if k == e.0 {
                lemma_key_position_at(next, k, i);
            } else {
                match key_position(acc, k) {
                    Some(p) => {
                        lemma_key_position_at(next, k, p);
                    },
                    None => {
                        lemma_key_position_none(next, k);
                    },
                }
            }
        },
        None => {
            if k == e.0 {
                lemma_key_position_at(next, k, acc.len() as int);
            } else {
                match key_position(acc, k) {
                    Some(p) => {
                        lemma_key_position_at(next, k, p);
                    },
                    None => {
                        lemma_key_position_none(next, k);
                    },
                }
            }
        },
    }
}

/// The entry of every key after a merge of tables.
proof fn lemma_merge_entries(
    dt: Seq<(Seq<char>, SpecToml)>,
    et: Seq<(Seq<char>, SpecToml)>,
    k: Seq<char>,
)
    requires
        distinct_keys(et),
    ensures
        entry_of(merge_entries(dt, et), k) == (match entry_of(et, k) {
            Some(ev) => Some(
                match entry_of(dt, k) {
                    Some(dv) => merge_spec(dv, ev),
                    None => ev,
                },
            ),
            None => entry_of(dt, k),
        }),
        distinct_keys(dt) ==> distinct_keys(merge_entries(dt, et)),
    decreases et.len(),
{
    if et.len() > 0 {
        let prev = et.drop_last();
        assert(distinct_keys(prev));
        lemma_merge_entries(dt, prev, k);
        lemma_merge_entries(dt, prev, et.last().0);
        let acc = merge_entries(dt, prev);
        lemma_step_entries(acc, et.last(), k, merge_entries(dt, et));
        lemma_key_position(et, k);
        lemma_key_position(prev, k);
        if k == et.last().0 {
            lemma_key_position_none(prev, k);
            lemma_key_position_at(et, k, et.len() - 1);
        } else {
            match key_position(prev, k) {
                Some(p) => {
                    lemma_key_position_at(et, k, p);
                },
                None => {
                    assert forall|j: int| 0 <= j < et.len() implies et[j].0 != k by {
                        if j < et.len() - 1 {
                            assert(et[j] == prev[j]);
                        }
                    }
                    lemma_key_position_none(et, k);
                },
            }
        }
    }
}

// ---------------------------------------------------------------------------
// Laws
// ---------------------------------------------------------------------------

/// A setting the user wrote in a table stays in the merged table: laid over
/// its default where the defaults have one, as written where they do not.
pub proof fn law_user_settings_kept(defaults: SpecToml, existing: SpecToml, k: Seq<char>)
    requires
        defaults is Table,
        existing is Table,
        distinct_keys(existing->Table_0),
        entry_of(existing->Table_0, k) is Some,
    ensures
        merge_spec(defaults, existing) is Table,
        entry_of(merge_spec(defaults, existing)->Table_0, k) == Some(
            match entry_of(defaults->Table_0, k) {
                Some(dv) => merge_spec(dv, entry_of(existing->Table_0, k).unwrap()),
                None => entry_of(existing->Table_0, k).unwrap(),
            },
        ),
{
    lemma_merge_entries(defaults->Table_0, existing->Table_0, k);
}

/// A default setting the user did not write appears with its default value.
pub proof fn law_new_defaults_added(defaults: SpecToml, existing: SpecToml, k: Seq<char>)
    requires
        defaults is Table,
        existing is Table,
        distinct_keys(existing->Table_0),
        entry_of(existing->Table_0, k) is None,
    ensures
        entry_of(merge_spec(defaults, existing)->Table_0, k) == entry_of(defaults->Table_0, k),
{
    lemma_merge_entries(defaults->Table_0, existing->Table_0, k);
}

/// A merged table holds no key twice when the default table holds none twice.
pub proof fn law_merged_keys_distinct(defaults: SpecToml, existing: SpecToml)
    requires
        defaults is Table,
        existing is Table,
        distinct_keys(defaults->Table_0),
        distinct_keys(existing->Table_0),
    ensures
        distinct_keys(merge_spec(defaults, existing)->Table_0),
{
    lemma_merge_entries(defaults->Table_0, existing->Table_0, Seq::empty());
}

/// A value that is not a table or a list of tables replaces the default
/// outright.
pub proof fn law_existing_scalar_wins(defaults: SpecToml, s: Seq<char>)
    ensures
        merge_spec(defaults, SpecToml::Scalar(s)) == SpecToml::Scalar(s),
{
}

// ---------------------------------------------------------------------------
// The code
// ---------------------------------------------------------------------------

/// A deep copy.
pub fn clone_toml(v: &TomlValue) -> (r: TomlValue)
    ensures
        r@ == v@,
    decreases v,
{
    match v {
        TomlValue::Scalar(s) => TomlValue::Scalar(s.clone()),
        TomlValue::Array(a) => {
            assert(decreases_to!(*v => a));
            TomlValue::Array(clone_list(a))
        },
        TomlValue::Table(t) => {
            assert(decreases_to!(*v => t));
            TomlValue::Table(clone_entries(t))
        },
    }
}

fn clone_list(a: &Vec<TomlValue>) -> (r: Vec<TomlValue>)
    ensures
        tomls_view(r@) == tomls_view(a@),
    decreases a,
{
    proof {
        lemma_tomls_view(a@);
    }
    let mut out: Vec<TomlValue> = Vec::new();
    let mut i: usize = 0;
    while i < a.len()
        invariant
            i <= a@.len(),
            out@.len() == i,
            forall|j: int| 0 <= j < i ==> #[trigger] toml_view(out@[j]) == toml_view(a@[j]),
        decreases a@.len() - i,
    {
        assert(decreases_to!(a@ => a@[i as int]));
        let c = clone_toml(&a[i]);
        out.push(c);
        i = i + 1;
    }
    proof {
        lemma_tomls_view(out@);
        assert(tomls_view(out@) =~= tomls_view(a@));
    }
    out
}

fn clone_entries(t: &Vec<(String, TomlValue)>) -> (r: Vec<(String, TomlValue)>)
    ensures
        toml_entries_view(r@) == toml_entries_view(t@),
    decreases t,
{
    proof {
        lemma_toml_entries_view(t@);
    }
    let mut out: Vec<(String, TomlValue)> = Vec::new();
    let mut i: usize = 0;
    while i < t.len()
        invariant
            i <= t@.len(),
            out@.len() == i,
            forall|j: int|
                0 <= j < i ==> (#[trigger] out@[j]).0@ == t@[j].0@ && toml_view(out@[j].1)
                    == toml_view(t@[j].1),
        decreases t@.len() - i,
    {
        assert(decreases_to!(t@ => t@[i as int].1));
        let c = clone_toml(&t[i].1);
        out.push((t[i].0.clone(), c));
        i = i + 1;
    }
    proof {
        lemma_toml_entries_view(out@);
        assert(toml_entries_view(out@) =~= toml_entries_view(t@));
    }
    out
}

fn find_key(acc: &Vec<(String, TomlValue)>, k: &String) -> (r: Option<usize>)
    ensures
        match r {
            Some(i) => key_position(toml_entries_view(acc@), k@) == Some(i as int),
            None => key_position(toml_entries_view(acc@), k@) is None,
        },
{
    proof {
        lemma_toml_entries_view(acc@);
    }
    let ghost s = toml_entries_view(acc@);
    let mut i: usize = 0;
    while i < acc.len()
        invariant
            i <= acc@.len(),
            s == toml_entries_view(acc@),
            s.len() == acc@.len(),
            forall|j: int| 0 <= j < acc@.len() ==> #[trigger] s[j] == (acc@[j].0@, toml_view(acc@[j].1)),
            forall|j: int| 0 <= j < i ==> s[j].0 != k@,
        decreases acc@.len() - i,
    {
        if acc[i].0 == *k {
            proof {
                lemma_key_position_at(s, k@, i as int);
            }
            return Some(i);
        }
        i = i + 1;
    }
    proof {
        lemma_key_position_none(s, k@);
    }
    None
}

fn is_table_list(a: &Vec<TomlValue>) -> (r: bool)
    ensures
        r == all_tables(tomls_view(a@)),
{
    proof {
        lemma_tomls_view(a@);
    }
    let mut i: usize = 0;
    while i < a.len()
        invariant
            i <= a@.len(),
            tomls_view(a@).len() == a@.len(),
            forall|j: int| 0 <= j < a@.len() ==> #[trigger] tomls_view(a@)[j] == toml_view(a@[j]),
            forall|j: int| 0 <= j < i ==> tomls_view(a@)[j] is Table,
        decreases a@.len() - i,
    {
        match &a[i] {
            TomlValue::Table(_) => {},
            _ => {
                assert(!(tomls_view(a@)[i as int] is Table));
                return false;
            },
        }
        i = i + 1;
    }
    true
}

fn merge_value(defaults: TomlValue, existing: &TomlValue) -> (r: TomlValue)
    ensures
        r@ == merge_spec(defaults@, existing@),
    decreases existing,
{
    match existing {
        TomlValue::Table(et) => match defaults {
            TomlValue::Table(dt) => {
                assert(decreases_to!(*existing => et));
                TomlValue::Table(merge_tables(dt, et))
            },
            _ => clone_toml(existing),
        },
        TomlValue::Array(ea) => match defaults {
            TomlValue::Array(da) => {
                if is_table_list(&da) && is_table_list(ea) {
                    assert(decreases_to!(*existing => ea));
                    TomlValue::Array(merge_list(&da, ea))
                } else {
                    clone_toml(existing)
                }
            },
            _ => clone_toml(existing),
        },
        TomlValue::Scalar(_) => clone_toml(existing),
    }
}

fn merge_tables(dt: Vec<(String, TomlValue)>, et: &Vec<(String, TomlValue)>) -> (r: Vec<
    (String, TomlValue),
>)
    ensures
        toml_entries_view(r@) == merge_entries(toml_entries_view(dt@), toml_entries_view(et@)),
    decreases et,
{
    proof {
        lemma_toml_entries_view(et@);
    }
    let ghost ds = toml_entries_view(dt@);
    let ghost es = toml_entries_view(et@);
    let mut acc = dt;
    let mut i: usize = 0;
    assert(es.take(0).len() == 0);
    while i < et.len()
        invariant
            i <= et@.len(),
            es == toml_entries_view(et@),
            es.len() == et@.len(),
            forall|j: int| 0 <= j < et@.len() ==> #[trigger] es[j] == (et@[j].0@, toml_view(et@[j].1)),
            toml_entries_view(acc@) == merge_entries(ds, es.take(i as int)),
        decreases et@.len() - i,
    {
        let ghost before = toml_entries_view(acc@);
        proof {
            lemma_toml_entries_view(acc@);
            assert(es.take(i + 1).drop_last() =~= es.take(i as int));
            assert(es.take(i + 1).last() == es[i as int]);
        }
        let found = find_key(&acc, &et[i].0);
        proof {
            lemma_key_position(before, es[i as int].0);
        }
        match found {
            Some(p) => {
                let (key, old) = acc.remove(p);
                assert(decreases_to!(et@ => et@[i as int].1));
                let m = merge_value(old, &et[i].1);
                acc.insert(p, (key, m));
                proof {
                    lemma_toml_entries_view(acc@);
                    assert(toml_entries_view(acc@) =~= before.update(
                        p as int,
                        (es[i as int].0, merge_spec(before[p as int].1, es[i as int].1)),
                    ));
                }
            },
            None => {
                let c = clone_toml(&et[i].1);
                acc.push((et[i].0.clone(), c));
                proof {
                    lemma_toml_entries_view(acc@);
                    assert(toml_entries_view(acc@) =~= before.push(es[i as int]));
                }
            },
        }
        i = i + 1;
    }
    assert(es.take(et@.len() as int) =~= es);
    acc
}

fn merge_list(da: &Vec<TomlValue>, ea: &Vec<TomlValue>) -> (r: Vec<TomlValue>)
    ensures
        tomls_view(r@) == merge_items(first_item(tomls_view(da@)), tomls_view(ea@)),
    decreases ea,
{
    proof {
        lemma_tomls_view(da@);
        lemma_tomls_view(ea@);
    }
    let ghost tpl = first_item(tomls_view(da@));
    let ghost es = tomls_view(ea@);
    let mut out: Vec<TomlValue> = Vec::new();
    let mut i: usize = 0;
    assert(es.take(0).len() == 0);
    while i < ea.len()
        invariant
            i <= ea@.len(),
            tpl == first_item(tomls_view(da@)),
            tomls_view(da@).len() == da@.len(),
            forall|j: int| 0 <= j < da@.len() ==> #[trigger] tomls_view(da@)[j] == toml_view(da@[j]),
            es == tomls_view(ea@),
            es.len() == ea@.len(),
            forall|j: int| 0 <= j < ea@.len() ==> #[trigger] es[j] == toml_view(ea@[j]),
            tomls_view(out@) == merge_items(tpl, es.take(i as int)),
        decreases ea@.len() - i,
    {
        proof {
            assert(es.take(i + 1).drop_last() =~= es.take(i as int));
            assert(es.take(i + 1).last() == es[i as int]);
        }
        let base = if da.len() > 0 {
            clone_toml(&da[0])
        } else {
            clone_toml(&ea[i])
        };
        assert(decreases_to!(ea@ => ea@[i as int]));
        let m = merge_value(base, &ea[i]);
        let ghost prev = out@;
        out.push(m);
        proof {
            assert(out@.drop_last() =~= prev);
        }
        i = i + 1;
    }
    assert(es.take(ea@.len() as int) =~= es);
    out
}

/// Lays the values of an existing file over the defaults, in place.
pub fn merge_toml_values(defaults: &mut TomlValue, existing: &TomlValue)
    ensures
        final(defaults)@ == merge_spec(old(defaults)@, existing@),
{
    let mut d = TomlValue::Scalar(String::new());
    std::mem::swap(&mut d, defaults);
    *defaults = merge_value(d, existing);
}

/// Whether a configuration file must be written again: its text and the
/// merged text differ once surrounding whitespace is set aside.
pub fn config_file_outdated(existing_raw: &str, merged_content: &str) -> (r: bool)
    ensures
        r == (trim(existing_raw@) != trim(merged_content@)),
{
    let a = trim_str(existing_raw);
    let b = trim_str(merged_content);
    !(a == b)
}

} // verus!
