//! Configuration files as they are written: TOML with the description of
//! each setting as a comment above it. Keys come in sorted order, plain
//! settings before tables, and lists of tables as `[[...]]` sections.
use vstd::prelude::*;
use crate::text::{
    trim, trim_chars, chars_of, push_str, string_from_chars, extend_chars, join, join_strings,
    replace_all, replace_chars, string_views, views, str_eq, trim_str, clone_strings,
};
use crate::toml_doc::{read_toml, toml_read};
use crate::toml_merge::{merge_spec, merge_toml_values, clone_toml, config_file_outdated, 
    TomlValue, SpecToml, toml_view, tomls_view, toml_entries_view, lemma_tomls_view,
    lemma_toml_entries_view,
};

verus! {

// ---------------------------------------------------------------------------
// Descriptions
// ---------------------------------------------------------------------------

/// The descriptions of a configuration type: a plain setting has its text;
/// a table has its text and its settings' descriptions, in declaration order.
pub enum DocNode {
    Leaf(String),
    Node(String, Vec<(String, DocNode)>),
}

/// The mathematical form of a [`DocNode`].
pub enum SpecDoc {
    Leaf(Seq<char>),
    Node(Seq<char>, Seq<(Seq<char>, SpecDoc)>),
}

pub open spec fn doc_view(d: DocNode) -> SpecDoc
    decreases d,
{
    match d {
        DocNode::Leaf(t) => SpecDoc::Leaf(t@),
        DocNode::Node(t, c) => SpecDoc::Node(t@, doc_entries_view(c@)),
    }
}

pub open spec fn doc_entries_view(s: Seq<(String, DocNode)>) -> Seq<(Seq<char>, SpecDoc)>
    decreases s,
{
    if s.len() == 0 {
        seq![]
    } else {
        doc_entries_view(s.drop_last()).push((s.last().0@, doc_view(s.last().1)))
    }
}

impl View for DocNode {
    type V = SpecDoc;

    open spec fn view(&self) -> SpecDoc {
        doc_view(*self)
    }
}

pub proof fn lemma_doc_entries_view(s: Seq<(String, DocNode)>)
    ensures
        doc_entries_view(s).len() == s.len(),
        forall|i: int|
            0 <= i < s.len() ==> #[trigger] doc_entries_view(s)[i] == (s[i].0@, doc_view(s[i].1)),
    decreases s.len(),
{
    if s.len() > 0 {
        lemma_doc_entries_view(s.drop_last());
    }
}

/// The text of a description.
pub open spec fn doc_text(d: SpecDoc) -> Seq<char> {
    match d {
        SpecDoc::Leaf(t) => t,
        SpecDoc::Node(t, _) => t,
    }
}

/// The description of a setting (the first entry for its key).
pub open spec fn child_doc(children: Seq<(Seq<char>, SpecDoc)>, key: Seq<char>) -> Option<SpecDoc>
    decreases children.len(),
{
    if children.len() == 0 {
        None
    } else if children[0].0 == key {
        Some(children[0].1)
    } else {
        child_doc(children.drop_first(), key)
    }
}

/// The text of a setting's description; empty when it has none.
pub open spec fn field_doc(children: Seq<(Seq<char>, SpecDoc)>, key: Seq<char>) -> Seq<char> {
    match child_doc(children, key) {
        Some(d) => doc_text(d),
        None => seq![],
    }
}

/// Whether some setting of a table is plain.
pub open spec fn has_leaf_child(children: Seq<(Seq<char>, SpecDoc)>) -> bool {
    exists|i: int| 0 <= i < children.len() && children[i].1 is Leaf
}

/// The description in a run of doc-comment lines: the lines joined by
/// newlines, surrounding whitespace taken off.
pub fn extract_docs(lines: &Vec<String>) -> (r: String)
    ensures
        r@ == trim(join(string_views(lines@), "\n"@)),
{
    let joined = join_strings(lines, "\n");
    trim_str(joined.as_str())
}

// ---------------------------------------------------------------------------
// Keys
// ---------------------------------------------------------------------------

pub open spec fn bare_key_char(c: char) -> bool {
    ('a' <= c && c <= 'z') || ('A' <= c && c <= 'Z') || ('0' <= c && c <= '9') || c == '-' || c
        == '_'
}

/// A key as written: bare when it is ASCII letters, digits, `-` and `_`;
/// else quoted, with `"` escaped.
pub open spec fn escape_key_spec(k: Seq<char>) -> Seq<char> {
    if k.len() > 0 && forall|i: int| 0 <= i < k.len() ==> bare_key_char(#[trigger] k[i]) {
        k
    } else {
        seq!['"'] + replace_all(k, seq!['"'], seq!['\\', '"']) + seq!['"']
    }
}

pub fn escape_toml_key(key: &str) -> (r: String)
    ensures
        r@ == escape_key_spec(key@),
{
    let chars = chars_of(key);
    let mut bare = chars.len() > 0;
    let mut i: usize = 0;
    while i < chars.len()
        invariant
            chars@ == key@,
            i <= chars@.len(),
            bare == (chars@.len() > 0 && forall|j: int| 0 <= j < i ==> bare_key_char(#[trigger] chars@[j])),
        decreases chars@.len() - i,
    {
        let c = chars[i];
        let ok = ('a' <= c && c <= 'z') || ('A' <= c && c <= 'Z') || ('0' <= c && c <= '9') || c
            == '-' || c == '_';
        if !ok {
            assert(!bare_key_char(chars@[i as int]));
        }
        bare = bare && ok;
        i = i + 1;
    }
    if bare {
        return key.to_owned();
    }
    let quote: Vec<char> = vec!['"'];
    let escaped: Vec<char> = vec!['\\', '"'];
    assert(quote@ == seq!['"']);
    assert(escaped@ == seq!['\\', '"']);
    let body = replace_chars(chars.as_slice(), quote.as_slice(), escaped.as_slice());
    let mut out: Vec<char> = Vec::new();
    out.push('"');
    extend_chars(&mut out, body.as_slice());
    out.push('"');
    assert(body@ == replace_all(key@, seq!['"'], seq!['\\', '"']));
    assert(out@ =~= seq!['"'] + replace_all(key@, seq!['"'], seq!['\\', '"']) + seq!['"']);
    string_from_chars(out.as_slice())
}

// ---------------------------------------------------------------------------
// Order
// ---------------------------------------------------------------------------

/// `a <= b` in the order of `String` (by characters, a prefix first).
pub open spec fn key_le(a: Seq<char>, b: Seq<char>) -> bool
    decreases a.len(),
{
    if a.len() == 0 {
        true
    } else if b.len() == 0 {
        false
    } else if a[0] != b[0] {
        a[0] < b[0]
    } else {
        key_le(a.drop_first(), b.drop_first())
    }
}

/// Where entry `j` goes among the entries already ordered: before the first
/// one with a greater key.
pub open spec fn insert_position(keys: Seq<Seq<char>>, o: Seq<int>, j: int) -> int
    decreases o.len(),
{
    if o.len() == 0 {
        0
    } else if !key_le(keys[o[0]], keys[j]) {
        0
    } else {
        1 + insert_position(keys, o.drop_first(), j)
    }
}

/// The first `n` entries in key order, equal keys in the order they came in.
pub open spec fn sort_order(keys: Seq<Seq<char>>, n: nat) -> Seq<int>
    decreases n,
{
    if n == 0 {
        seq![]
    } else {
        let o = sort_order(keys, (n - 1) as nat);
        o.insert(insert_position(keys, o, n - 1), n - 1)
    }
}

pub open spec fn keys_of(map: Seq<(Seq<char>, SpecToml)>) -> Seq<Seq<char>> {
    map.map_values(|e: (Seq<char>, SpecToml)| e.0)
}

proof fn lemma_insert_position(keys: Seq<Seq<char>>, o: Seq<int>, j: int)
    ensures
        0 <= insert_position(keys, o, j) <= o.len(),
    decreases o.len(),
{
    if o.len() > 0 && key_le(keys[o[0]], keys[j]) {
        lemma_insert_position(keys, o.drop_first(), j);
    }
}

proof fn lemma_sort_order(keys: Seq<Seq<char>>, n: nat)
    ensures
        sort_order(keys, n).len() == n,
        forall|k: int| 0 <= k < n ==> 0 <= #[trigger] sort_order(keys, n)[k] < n,
    decreases n,
{
    if n > 0 {
        let o = sort_order(keys, (n - 1) as nat);
        lemma_sort_order(keys, (n - 1) as nat);
        lemma_insert_position(keys, o, n - 1);
        let p = insert_position(keys, o, n - 1);
        assert forall|k: int| 0 <= k < n implies 0 <= #[trigger] sort_order(keys, n)[k] < n by {
            if k < p {
                assert(sort_order(keys, n)[k] == o[k]);
            } else if k > p {
                assert(sort_order(keys, n)[k] == o[k - 1]);
            }
        }
    }
}

proof fn lemma_key_le_refl(a: Seq<char>)
    ensures
        key_le(a, a),
    decreases a.len(),
{
    if a.len() > 0 {
        lemma_key_le_refl(a.drop_first());
    }
}

proof fn lemma_key_le_total(a: Seq<char>, b: Seq<char>)
    ensures
        key_le(a, b) || key_le(b, a),
    decreases a.len(),
{
    if a.len() > 0 && b.len() > 0 && a[0] == b[0] {
        lemma_key_le_total(a.drop_first(), b.drop_first());
    }
}

proof fn lemma_key_le_trans(a: Seq<char>, b: Seq<char>, c: Seq<char>)
    requires
        key_le(a, b),
        key_le(b, c),
    ensures
        key_le(a, c),
    decreases a.len(),
{
    if a.len() > 0 && b.len() > 0 && c.len() > 0 && a[0] == b[0] && b[0] == c[0] {
        lemma_key_le_trans(a.drop_first(), b.drop_first(), c.drop_first());
    }
}

/// Whether `o` lists the positions `0..n` once each, with their keys in
/// order and equal keys in the order they came in.
pub open spec fn sorted_permutation(keys: Seq<Seq<char>>, o: Seq<int>, n: int) -> bool {
    &&& o.len() == n
    &&& forall|t: int| 0 <= t < n ==> 0 <= #[trigger] o[t] < n
    &&& forall|a: int, b: int| 0 <= a < b < n ==> #[trigger] o[a] != #[trigger] o[b]
    &&& forall|a: int, b: int|
        0 <= a < b < n ==> key_le(keys[#[trigger] o[a]], keys[#[trigger] o[b]])
    &&& forall|a: int, b: int|
        0 <= a < b < n && keys[o[a]] == keys[o[b]] ==> #[trigger] o[a] < #[trigger] o[b]
}

proof fn lemma_insert_position_bounds(keys: Seq<Seq<char>>, o: Seq<int>, j: int)
    requires
        forall|a: int, b: int|
            0 <= a < b < o.len() ==> key_le(keys[#[trigger] o[a]], keys[#[trigger] o[b]]),
    ensures
        forall|t: int|
            0 <= t < insert_position(keys, o, j) ==> key_le(keys[#[trigger] o[t]], keys[j]),
        forall|t: int|
            insert_position(keys, o, j) <= t < o.len() ==> !key_le(keys[#[trigger] o[t]], keys[j]),
    decreases o.len(),
{
    lemma_insert_position(keys, o, j);
    if o.len() > 0 {
        let p = insert_position(keys, o, j);
        if !key_le(keys[o[0]], keys[j]) {
            assert forall|t: int| 0 <= t < o.len() implies !key_le(keys[#[trigger] o[t]], keys[j]) by {
                if t > 0 && key_le(keys[o[t]], keys[j]) {
                    assert(key_le(keys[o[0]], keys[o[t]]));
                    lemma_key_le_trans(keys[o[0]], keys[o[t]], keys[j]);
                }
            }
        } else {
            let r = o.drop_first();
            assert forall|a: int, b: int| 0 <= a < b < r.len() implies key_le(
                keys[#[trigger] r[a]],
                keys[#[trigger] r[b]],
            ) by {
                assert(r[a] == o[a + 1] && r[b] == o[b + 1]);
            }
            lemma_insert_position_bounds(keys, r, j);
            assert forall|t: int| 0 <= t < p implies key_le(keys[#[trigger] o[t]], keys[j]) by {
                if t > 0 {
                    assert(o[t] == r[t - 1]);
                }
            }
            assert forall|t: int| p <= t < o.len() implies !key_le(keys[#[trigger] o[t]], keys[j]) by {
                assert(o[t] == r[t - 1]);
            }
        }
    }
}

/// Ordering the entries lists each of them once, by key, and keeps entries
/// with equal keys in the order they came in.
pub proof fn law_sort_order_sorted(keys: Seq<Seq<char>>, n: nat)
    requires
        n <= keys.len(),
    ensures
        sorted_permutation(keys, sort_order(keys, n), n as int),
    decreases n,
{
    if n > 0 {
        let m = (n - 1) as nat;
        let o = sort_order(keys, m);
        let j = m as int;
        law_sort_order_sorted(keys, m);
        lemma_insert_position_bounds(keys, o, j);
        lemma_insert_position(keys, o, j);
        let p = insert_position(keys, o, j);
        let q = o.insert(p, j);
        assert(sort_order(keys, n) == q);
        assert forall|t: int| 0 <= t < n implies 0 <= #[trigger] q[t] < n by {
            if t < p {
                assert(q[t] == o[t]);
            } else if t > p {
                assert(q[t] == o[t - 1]);
            }
        }
        assert forall|a: int, b: int| 0 <= a < b < n implies #[trigger] q[a] != #[trigger] q[b] by {
            if a < p && b < p {
                assert(q[a] == o[a] && q[b] == o[b]);
            } else if a < p && b > p {
                assert(q[a] == o[a] && q[b] == o[b - 1]);
            } else if a > p {
                assert(q[a] == o[a - 1] && q[b] == o[b - 1]);
            } else if a == p {
                assert(q[b] == o[b - 1]);
            } else {
                assert(q[a] == o[a]);
            }
        }
        assert forall|a: int, b: int| 0 <= a < b < n implies key_le(
            keys[#[trigger] q[a]],
            keys[#[trigger] q[b]],
        ) by {
            if a < p && b < p {
                assert(q[a] == o[a] && q[b] == o[b]);
            } else if a < p && b == p {
                assert(q[a] == o[a]);
            } else if a < p && b > p {
                assert(q[a] == o[a] && q[b] == o[b - 1]);
                assert(key_le(keys[o[a]], keys[j]));
                assert(!key_le(keys[o[b - 1]], keys[j]));
                lemma_key_le_total(keys[o[b - 1]], keys[j]);
                lemma_key_le_trans(keys[o[a]], keys[j], keys[o[b - 1]]);
            } else if a == p {
                assert(q[b] == o[b - 1]);
                assert(!key_le(keys[o[b - 1]], keys[j]));
                lemma_key_le_total(keys[o[b - 1]], keys[j]);
            } else {
                assert(q[a] == o[a - 1] && q[b] == o[b - 1]);
            }
        }
        assert forall|a: int, b: int|
            0 <= a < b < n && keys[q[a]] == keys[q[b]] implies #[trigger] q[a] < #[trigger] q[b] by {
            if a < p && b < p {
                assert(q[a] == o[a] && q[b] == o[b]);
            } else if a < p && b == p {
                assert(q[a] == o[a]);
            } else if a < p && b > p {
                assert(q[a] == o[a] && q[b] == o[b - 1]);
                assert(key_le(keys[o[a]], keys[j]));
                assert(!key_le(keys[o[b - 1]], keys[j]));
                assert(key_le(keys[o[a]], keys[o[b - 1]]));
                lemma_key_le_trans(keys[o[b - 1]], keys[o[a]], keys[j]);
                lemma_key_le_refl(keys[o[a]]);
            } else if a == p {
                assert(q[b] == o[b - 1]);
                assert(!key_le(keys[o[b - 1]], keys[j]));
                lemma_key_le_refl(keys[j]);
            } else {
                assert(q[a] == o[a - 1] && q[b] == o[b - 1]);
            }
        }
    }
}

/// `a <= b` on character vectors, by [`key_le`].
fn key_le_chars(a: &Vec<char>, b: &Vec<char>) -> (r: bool)
    ensures
        r == key_le(a@, b@),
{
    let mut i: usize = 0;
    assert(a@.skip(0) =~= a@);
    assert(b@.skip(0) =~= b@);
    while i < a.len() && i < b.len() && a[i] == b[i]
        invariant
            i <= a@.len(),
            i <= b@.len(),
            key_le(a@, b@) == key_le(a@.skip(i as int), b@.skip(i as int)),
        decreases a@.len() - i,
    {
        assert(a@.skip(i as int).drop_first() =~= a@.skip(i + 1));
        assert(b@.skip(i as int).drop_first() =~= b@.skip(i + 1));
        i = i + 1;
    }
    if i == a.len() {
        true
    } else if i == b.len() {
        false
    } else {
        a[i] < b[i]
    }
}

pub open spec fn index_view(o: Seq<usize>) -> Seq<int> {
    o.map_values(|x: usize| x as int)
}

/// The characters of each key of a table.
fn entry_keys(map: &Vec<(String, TomlValue)>) -> (keys: Vec<Vec<char>>)
    ensures
        views(keys@) == keys_of(toml_entries_view(map@)),
{
    proof {
        lemma_toml_entries_view(map@);
    }
    let mut keys: Vec<Vec<char>> = Vec::new();
    let mut i: usize = 0;
    while i < map.len()
        invariant
            i <= map@.len(),
            keys@.len() == i,
            forall|t: int| 0 <= t < i ==> #[trigger] keys@[t]@ == map@[t].0@,
        decreases map@.len() - i,
    {
        keys.push(chars_of(map[i].0.as_str()));
        i = i + 1;
    }
    assert(views(keys@) =~= keys_of(toml_entries_view(map@)));
    keys
}

/// The positions of the keys in key order, equal keys in the order they
/// came in ([`sort_order`]).
fn sorted_order(keys: &Vec<Vec<char>>) -> (order: Vec<usize>)
    ensures
        index_view(order@) == sort_order(views(keys@), keys@.len() as nat),
{
    let ghost ks = views(keys@);
    let mut order: Vec<usize> = Vec::new();
    let mut j: usize = 0;
    while j < keys.len()
        invariant
            ks == views(keys@),
            j <= keys@.len(),
            index_view(order@) == sort_order(ks, j as nat),
            order@.len() == j,
            forall|t: int| 0 <= t < j ==> #[trigger] order@[t] < j,
        decreases keys@.len() - j,
    {
        let ghost o = index_view(order@);
        let mut p: usize = 0;
        let mut go = true;
        assert(o.skip(0) =~= o);
        while go && p < order.len()
            invariant
                ks == views(keys@),
                j < keys@.len(),
                o == index_view(order@),
                order@.len() == j,
                forall|t: int| 0 <= t < j ==> #[trigger] order@[t] < j,
                p <= order@.len(),
                go ==> insert_position(ks, o, j as int) == p + insert_position(
                    ks,
                    o.skip(p as int),
                    j as int,
                ),
                !go ==> insert_position(ks, o, j as int) == p,
            decreases order@.len() - p + (if go { 1int } else { 0int }),
        {
            let le = key_le_chars(&keys[order[p]], &keys[j]);
            assert(o.skip(p as int)[0] == order@[p as int] as int);
            if le {
                assert(o.skip(p as int).drop_first() =~= o.skip(p + 1));
                p = p + 1;
            } else {
                go = false;
            }
        }
        proof {
            lemma_insert_position(ks, o, j as int);
            lemma_sort_order(ks, j as nat);
        }
        let ghost before = order@;
        order.insert(p, j);
        assert(index_view(order@) =~= o.insert(p as int, j as int));
        assert forall|t: int| 0 <= t < j + 1 implies #[trigger] order@[t] < j + 1 by {
            if t < p {
                assert(order@[t] == before[t]);
            } else if t > p {
                assert(order@[t] == before[t - 1]);
            }
        }
        j = j + 1;
    }
    order
}

/// The description of a setting: the first entry for its key.
fn find_child<'a>(children: &'a Vec<(String, DocNode)>, key: &str) -> (r: Option<&'a DocNode>)
    ensures
        match r {
            Some(n) => child_doc(doc_entries_view(children@), key@) == Some(n@),
            None => child_doc(doc_entries_view(children@), key@) is None,
        },
{
    let ghost es = doc_entries_view(children@);
    proof {
        lemma_doc_entries_view(children@);
    }
    assert(es.skip(0) =~= es);
    let mut i: usize = 0;
    while i < children.len()
        invariant
            i <= children@.len(),
            es == doc_entries_view(children@),
            es.len() == children@.len(),
            forall|t: int|
                0 <= t < es.len() ==> #[trigger] es[t] == (children@[t].0@, doc_view(children@[t].1)),
            child_doc(es, key@) == child_doc(es.skip(i as int), key@),
        decreases children@.len() - i,
    {
        let entry = &children[i];
        assert(es.skip(i as int)[0] == es[i as int]);
        if str_eq(entry.0.as_str(), key) {
            return Some(&entry.1);
        }
        assert(es.skip(i as int).drop_first() =~= es.skip(i + 1));
        i = i + 1;
    }
    None
}

fn doc_text_of(n: &DocNode) -> (r: &String)
    ensures
        r@ == doc_text(n@),
{
    match n {
        DocNode::Leaf(t) => t,
        DocNode::Node(t, _) => t,
    }
}

fn field_doc_of(children: &Vec<(String, DocNode)>, key: &str) -> (r: String)
    ensures
        r@ == field_doc(doc_entries_view(children@), key@),
{
    match find_child(children, key) {
        Some(n) => doc_text_of(n).clone(),
        None => String::new(),
    }
}

fn any_leaf_child(children: &Vec<(String, DocNode)>) -> (r: bool)
    ensures
        r == has_leaf_child(doc_entries_view(children@)),
{
    let ghost es = doc_entries_view(children@);
    proof {
        lemma_doc_entries_view(children@);
    }
    let mut i: usize = 0;
    while i < children.len()
        invariant
            i <= children@.len(),
            es == doc_entries_view(children@),
            es.len() == children@.len(),
            forall|t: int|
                0 <= t < es.len() ==> #[trigger] es[t] == (children@[t].0@, doc_view(children@[t].1)),
            forall|t: int| 0 <= t < i ==> !(#[trigger] es[t].1 is Leaf),
        decreases children@.len() - i,
    {
        if matches!(children[i].1, DocNode::Leaf(_)) {
            assert(es[i as int].1 is Leaf);
            return true;
        }
        i = i + 1;
    }
    false
}

fn is_complex_value(v: &TomlValue) -> (r: bool)
    ensures
        r == is_complex(v@),
{
    match v {
        TomlValue::Table(_) => true,
        TomlValue::Scalar(_) => false,
        TomlValue::Array(a) => {
            let ghost av = tomls_view(a@);
            proof {
                lemma_tomls_view(a@);
            }
            assert(v@ == SpecToml::Array(av));
            let mut i: usize = 0;
            while i < a.len()
                invariant
                    i <= a@.len(),
                    v@ == SpecToml::Array(av),
                    av == tomls_view(a@),
                    av.len() == a@.len(),
                    forall|t: int| 0 <= t < av.len() ==> #[trigger] av[t] == toml_view(a@[t]),
                    forall|t: int| 0 <= t < i ==> !(#[trigger] av[t] is Table),
                decreases a@.len() - i,
            {
                if matches!(a[i], TomlValue::Table(_)) {
                    assert(av[i as int] is Table);
                    return true;
                }
                i = i + 1;
            }
            false
        },
    }
}

fn leaf_text_of(v: &TomlValue) -> (r: String)
    ensures
        r@ == leaf_text(v@),
{
    match v {
        TomlValue::Scalar(s) => trim_str(s.as_str()),
        _ => "[]".to_string(),
    }
}

fn push_doc_line(out: &mut Vec<char>, d: &str)
    ensures
        final(out)@ == old(out)@ + doc_line(d@),
{
    let c = chars_of(d);
    if c.len() > 0 {
        push_str(out, "# ");
        extend_chars(out, c.as_slice());
        push_str(out, "\n");
        assert(final(out)@ =~= old(out)@ + doc_line(d@));
    } else {
        assert(old(out)@ + doc_line(d@) =~= old(out)@);
    }
}

// ---------------------------------------------------------------------------
// The text of a file
// ---------------------------------------------------------------------------

/// Whether a value is written as a section: a table, or a list holding a table.
pub open spec fn is_complex(v: SpecToml) -> bool {
    match v {
        SpecToml::Table(_) => true,
        SpecToml::Array(a) => exists|i: int| 0 <= i < a.len() && a[i] is Table,
        SpecToml::Scalar(_) => false,
    }
}

/// The text of a plain value: its TOML text, trimmed (an empty list is `[]`).
pub open spec fn leaf_text(v: SpecToml) -> Seq<char> {
    match v {
        SpecToml::Scalar(s) => trim(s),
        _ => "[]"@,
    }
}

/// A description as a comment line; nothing for an empty description.
pub open spec fn doc_line(d: Seq<char>) -> Seq<char> {
    if d.len() == 0 {
        seq![]
    } else {
        "# "@ + d + "\n"@
    }
}

/// The head of the file: the description of the whole configuration, then
/// an empty line (marked `#` when it has no plain settings).
pub open spec fn header_text(
    path: Seq<Seq<char>>,
    doc: Seq<char>,
    children: Seq<(Seq<char>, SpecDoc)>,
) -> Seq<char> {
    if path.len() == 0 && doc.len() > 0 {
        "# "@ + doc + "\n"@ + (if has_leaf_child(children) {
            seq![]
        } else {
            "#"@
        }) + "\n"@
    } else {
        seq![]
    }
}

/// The plain settings of a table from the `k`-th in key order: each with
/// its description and `key = value`.
pub open spec fn leaves_text(
    children: Seq<(Seq<char>, SpecDoc)>,
    map: Seq<(Seq<char>, SpecToml)>,
    order: Seq<int>,
    k: int,
) -> Seq<char>
    decreases order.len() - k,
{
    if k < 0 || k >= order.len() {
        seq![]
    } else {
        let j = order[k];
        let rest = leaves_text(children, map, order, k + 1);
        if 0 <= j < map.len() && !is_complex(map[j].1) {
            doc_line(field_doc(children, map[j].0)) + escape_key_spec(map[j].0) + " = "@ + leaf_text(
                map[j].1,
            ) + "\n"@ + rest
        } else {
            rest
        }
    }
}

/// The text of a table (given its description) at a path of escaped keys.
pub open spec fn toml_text(node: SpecDoc, value: SpecToml, path: Seq<Seq<char>>) -> Seq<char>
    decreases value, 0nat,
{
    match value {
        SpecToml::Table(map) => match node {
            SpecDoc::Node(doc, children) => {
                let order = sort_order(keys_of(map), map.len());
                header_text(path, doc, children) + leaves_text(children, map, order, 0)
                    + complex_text(children, map, order, 0, path)
            },
            SpecDoc::Leaf(_) => seq![],
        },
        _ => seq![],
    }
}

/// The sections of a table from the `k`-th entry in key order.
pub open spec fn complex_text(
    children: Seq<(Seq<char>, SpecDoc)>,
    map: Seq<(Seq<char>, SpecToml)>,
    order: Seq<int>,
    k: int,
    path: Seq<Seq<char>>,
) -> Seq<char>
    decreases map, order.len() - k,
{
    if k < 0 || k >= order.len() {
        seq![]
    } else {
        let j = order[k];
        let rest = complex_text(children, map, order, k + 1, path);
        if 0 <= j < map.len() && is_complex(map[j].1) {
            proof {
                assert(decreases_to!(map => map[j].1));
            }
            entry_text(children, map[j].0, map[j].1, path) + rest
        } else {
            rest
        }
    }
}

/// The section of one setting: each table of a list under `[[path]]`, a
/// table under `[path]`, an empty list as `key = []`.
pub open spec fn entry_text(
    children: Seq<(Seq<char>, SpecDoc)>,
    key: Seq<char>,
    val: SpecToml,
    path: Seq<Seq<char>>,
) -> Seq<char>
    decreases val, 1nat,
{
    let esc = escape_key_spec(key);
    let next = path.push(esc);
    let full = join(next, "."@);
    let fd = field_doc(children, key);
    let child = child_doc(children, key);
    match val {
        SpecToml::Array(arr) => if arr.len() == 0 {
            doc_line(fd) + esc + " = []\n"@
        } else {
            items_text(child, arr, 0, fd, full, next)
        },
        SpecToml::Table(inner) => "\n"@ + doc_line(fd) + "["@ + full + "]\n"@ + if inner.len() == 0 {
            seq![]
        } else {
            match child {
                Some(n) => toml_text(n, val, next),
                None => seq![],
            }
        },
        SpecToml::Scalar(_) => seq![],
    }
}

/// The tables of a list from the `i`-th, each under `[[full]]`.
pub open spec fn items_text(
    child: Option<SpecDoc>,
    arr: Seq<SpecToml>,
    i: int,
    fd: Seq<char>,
    full: Seq<char>,
    next: Seq<Seq<char>>,
) -> Seq<char>
    decreases arr, arr.len() - i,
{
    if i < 0 || i >= arr.len() {
        seq![]
    } else {
        "\n"@ + (if i == 0 {
            doc_line(fd)
        } else {
            seq![]
        }) + "[["@ + full + "]]\n"@ + (match child {
            Some(n) => toml_text(n, arr[i], next),
            None => seq![],
        }) + items_text(child, arr, i + 1, fd, full, next)
    }
}


// ---------------------------------------------------------------------------
// Writing
// ---------------------------------------------------------------------------

/// Appends the text of a table, with the descriptions of `node`, at `path`.
fn write_table(node: &DocNode, value: &TomlValue, path: &Vec<String>, out: &mut Vec<char>)
    ensures
        final(out)@ == old(out)@ + toml_text(node@, value@, string_views(path@)),
    decreases value@, 0nat,
{
    match value {
        TomlValue::Table(map) => match node {
            DocNode::Node(doc, children) => {
                let ghost ch = doc_entries_view(children@);
                let ghost m = toml_entries_view(map@);
                let ghost pv = string_views(path@);
                proof {
                    lemma_toml_entries_view(map@);
                    lemma_doc_entries_view(children@);
                }
                assert(value@ == SpecToml::Table(m));
                assert(node@ == SpecDoc::Node(doc@, ch));
                let keys = entry_keys(map);
                let order = sorted_order(&keys);
                let ghost o = index_view(order@);
                assert(views(keys@).len() == keys@.len());
                assert(keys_of(m).len() == m.len());
                assert(o == sort_order(keys_of(m), m.len()));
                proof {
                    lemma_sort_order(keys_of(m), m.len());
                }
                // the head of the file
                let ghost start = out@;
                let dc = chars_of(doc.as_str());
                assert(pv.len() == path@.len());
                if path.len() == 0 && dc.len() > 0 {
                    push_str(out, "# ");
                    extend_chars(out, dc.as_slice());
                    push_str(out, "\n");
                    let leafy = any_leaf_child(children);
                    if !leafy {
                        push_str(out, "#");
                    }
                    push_str(out, "\n");
                    assert(out@ =~= start + header_text(pv, doc@, ch));
                } else {
                    assert(out@ =~= start + header_text(pv, doc@, ch));
                }
                // plain settings
                let ghost base1 = out@;
                let mut k: usize = 0;
                while k < order.len()
                    invariant
                        k <= order@.len(),
                        order@.len() == m.len(),
                        o == index_view(order@),
                        m == toml_entries_view(map@),
                        ch == doc_entries_view(children@),
                        m.len() == map@.len(),
                        forall|t: int|
                            0 <= t < m.len() ==> #[trigger] m[t] == (map@[t].0@, toml_view(map@[t].1)),
                        forall|t: int| 0 <= t < o.len() ==> 0 <= #[trigger] o[t] < m.len(),
                        out@ + leaves_text(ch, m, o, k as int) == base1 + leaves_text(ch, m, o, 0),
                    decreases order@.len() - k,
                {
                    let j = order[k];
                    assert(o[k as int] == j as int);
                    let entry = &map[j];
                    let ghost before = out@;
                    if !is_complex_value(&entry.1) {
                        let fd = field_doc_of(children, entry.0.as_str());
                        push_doc_line(out, fd.as_str());
                        let esc = escape_toml_key(entry.0.as_str());
                        push_str(out, esc.as_str());
                        push_str(out, " = ");
                        let lt = leaf_text_of(&entry.1);
                        push_str(out, lt.as_str());
                        push_str(out, "\n");
                        let ghost piece = doc_line(field_doc(ch, m[j as int].0)) + escape_key_spec(
                            m[j as int].0,
                        ) + " = "@ + leaf_text(m[j as int].1) + "\n"@;
                        assert(out@ =~= before + piece);
                        assert(leaves_text(ch, m, o, k as int) == piece + leaves_text(
                            ch,
                            m,
                            o,
                            k + 1,
                        ));
                        assert(out@ + leaves_text(ch, m, o, k + 1) =~= before + leaves_text(
                            ch,
                            m,
                            o,
                            k as int,
                        ));
                    } else {
                        assert(leaves_text(ch, m, o, k as int) == leaves_text(ch, m, o, k + 1));
                    }
                    k = k + 1;
                }
                assert(leaves_text(ch, m, o, order@.len() as int) =~= Seq::<char>::empty());
                assert(out@ =~= base1 + leaves_text(ch, m, o, 0));
                // tables and lists of tables
                let ghost base2 = out@;
                let mut k: usize = 0;
                while k < order.len()
                    invariant
                        k <= order@.len(),
                        order@.len() == m.len(),
                        o == index_view(order@),
                        m == toml_entries_view(map@),
                        ch == doc_entries_view(children@),
                        pv == string_views(path@),
                        value@ == SpecToml::Table(m),
                        m.len() == map@.len(),
                        forall|t: int|
                            0 <= t < m.len() ==> #[trigger] m[t] == (map@[t].0@, toml_view(map@[t].1)),
                        forall|t: int| 0 <= t < o.len() ==> 0 <= #[trigger] o[t] < m.len(),
                        out@ + complex_text(ch, m, o, k as int, pv) == base2 + complex_text(
                            ch,
                            m,
                            o,
                            0,
                            pv,
                        ),
                    decreases order@.len() - k,
                {
                    let j = order[k];
                    assert(o[k as int] == j as int);
                    let entry = &map[j];
                    let ghost before = out@;
                    if is_complex_value(&entry.1) {
                        assert(value@->Table_0 == m);
                        assert(decreases_to!(value@ => value@->Table_0));
                        assert(decreases_to!(m => m[j as int]));
                        assert(decreases_to!(m[j as int] => m[j as int].1));
                        write_entry(children, &entry.0, &entry.1, path, out);
                        let ghost piece = entry_text(ch, m[j as int].0, m[j as int].1, pv);
                        assert(complex_text(ch, m, o, k as int, pv) == piece + complex_text(
                            ch,
                            m,
                            o,
                            k + 1,
                            pv,
                        ));
                        assert(out@ + complex_text(ch, m, o, k + 1, pv) =~= before + complex_text(
                            ch,
                            m,
                            o,
                            k as int,
                            pv,
                        ));
                    } else {
                        assert(complex_text(ch, m, o, k as int, pv) == complex_text(
                            ch,
                            m,
                            o,
                            k + 1,
                            pv,
                        ));
                    }
                    k = k + 1;
                }
                assert(complex_text(ch, m, o, order@.len() as int, pv) =~= Seq::<char>::empty());
                assert(out@ =~= base2 + complex_text(ch, m, o, 0, pv));
                assert(toml_text(node@, value@, pv) == header_text(pv, doc@, ch) + leaves_text(
                    ch,
                    m,
                    o,
                    0,
                ) + complex_text(ch, m, o, 0, pv));
                assert(out@ =~= start + toml_text(node@, value@, pv));
            },
            DocNode::Leaf(_) => {},
        },
        _ => {},
    }
}

/// Appends the section of one setting of a table.
fn write_entry(
    children: &Vec<(String, DocNode)>,
    key: &String,
    val: &TomlValue,
    path: &Vec<String>,
    out: &mut Vec<char>,
)
    ensures
        final(out)@ == old(out)@ + entry_text(
            doc_entries_view(children@),
            key@,
            val@,
            string_views(path@),
        ),
    decreases val@, 1nat,
{
    let ghost ch = doc_entries_view(children@);
    let ghost pv = string_views(path@);
    let esc = escape_toml_key(key.as_str());
    let mut next = clone_strings(path);
    next.push(esc.clone());
    let ghost nv = string_views(next@);
    assert(nv =~= pv.push(esc@));
    let full = join_strings(&next, ".");
    let fd = field_doc_of(children, key.as_str());
    let child = find_child(children, key.as_str());
    let ghost cv = child_doc(ch, key@);
    let ghost start = out@;
    match val {
        TomlValue::Array(arr) => {
            let ghost av = tomls_view(arr@);
            proof {
                lemma_tomls_view(arr@);
            }
            assert(val@ == SpecToml::Array(av));
            if arr.len() == 0 {
                push_doc_line(out, fd.as_str());
                push_str(out, esc.as_str());
                push_str(out, " = []\n");
                assert(out@ =~= start + entry_text(ch, key@, val@, pv));
            } else {
                let mut i: usize = 0;
                while i < arr.len()
                    invariant
                        i <= arr@.len(),
                        av == tomls_view(arr@),
                        av.len() == arr@.len(),
                        forall|t: int| 0 <= t < av.len() ==> #[trigger] av[t] == toml_view(arr@[t]),
                        val@ == SpecToml::Array(av),
                        nv == string_views(next@),
                        match child {
                            Some(n) => cv == Some(n@),
                            None => cv is None,
                        },
                        out@ + items_text(cv, av, i as int, fd@, full@, nv) == start + items_text(
                            cv,
                            av,
                            0,
                            fd@,
                            full@,
                            nv,
                        ),
                    decreases arr@.len() - i,
                {
                    let ghost before = out@;
                    push_str(out, "\n");
                    if i == 0 {
                        push_doc_line(out, fd.as_str());
                    }
                    push_str(out, "[[");
                    push_str(out, full.as_str());
                    push_str(out, "]]\n");
                    let ghost head = "\n"@ + (if i == 0 {
                        doc_line(fd@)
                    } else {
                        seq![]
                    }) + "[["@ + full@ + "]]\n"@;
                    assert(out@ =~= before + head);
                    let ghost mid = out@;
                    match child {
                        Some(n) => {
                            assert(val@->Array_0 == av);
                            assert(decreases_to!(val@ => val@->Array_0));
                            assert(decreases_to!(av => av[i as int]));
                            write_table(n, &arr[i], &next, out);
                        },
                        None => {},
                    }
                    let ghost body = match cv {
                        Some(n) => toml_text(n, av[i as int], nv),
                        None => seq![],
                    };
                    assert(out@ =~= mid + body);
                    assert(items_text(cv, av, i as int, fd@, full@, nv) == head + body + items_text(
                        cv,
                        av,
                        i + 1,
                        fd@,
                        full@,
                        nv,
                    ));
                    assert(out@ + items_text(cv, av, i + 1, fd@, full@, nv) =~= before + items_text(
                        cv,
                        av,
                        i as int,
                        fd@,
                        full@,
                        nv,
                    ));
                    i = i + 1;
                }
                assert(items_text(cv, av, arr@.len() as int, fd@, full@, nv) =~= Seq::<
                    char,
                >::empty());
                assert(out@ =~= start + entry_text(ch, key@, val@, pv));
            }
        },
        TomlValue::Table(inner) => {
            proof {
                lemma_toml_entries_view(inner@);
            }
            push_str(out, "\n");
            push_doc_line(out, fd.as_str());
            push_str(out, "[");
            push_str(out, full.as_str());
            push_str(out, "]\n");
            let ghost mid = out@;
            assert(mid =~= start + ("\n"@ + doc_line(fd@) + "["@ + full@ + "]\n"@));
            if inner.len() == 0 {
            } else {
                match child {
                    Some(n) => write_table(n, val, &next, out),
                    None => {},
                }
            }
            assert(out@ =~= start + entry_text(ch, key@, val@, pv));
        },
        TomlValue::Scalar(_) => {},
    }
}

/// The text of a configuration file for `value`, with the descriptions in
/// `docs` written as comments above the settings.
pub fn generate_toml_with_comments(docs: &DocNode, value: &TomlValue) -> (r: String)
    ensures
        r@ == toml_text(docs@, value@, seq![]),
{
    let path: Vec<String> = Vec::new();
    let mut out: Vec<char> = Vec::new();
    write_table(docs, value, &path, &mut out);
    assert(string_views(path@) =~= Seq::<Seq<char>>::empty());
    string_from_chars(out.as_slice())
}

} // verus!

verus! {

/// The text a configuration file is brought to: the user's values laid over
/// the defaults, written with the descriptions.
pub open spec fn updated_text(existing: SpecToml, defaults: SpecToml, docs: SpecDoc) -> Seq<char> {
    toml_text(docs, merge_spec(defaults, existing), seq![])
}

/// Brings a configuration file up to date: reads the user's text, lays its
/// values over the defaults and writes the result with the descriptions. The
/// new text is handed back where it differs from the file once surrounding
/// whitespace is set aside; `None` where the file is already up to date; an
/// error where the file is not TOML.
pub fn config_update(existing_raw: &str, defaults: &TomlValue, docs: &DocNode) -> (r: Result<
    Option<String>,
    (),
>)
    ensures
        match toml_read(existing_raw@) {
            None => r is Err,
            Some(ev) => r matches Ok(o) && (o is None <==> trim(existing_raw@) == trim(
                updated_text(ev, defaults@, docs@),
            )) && (o matches Some(t) ==> t@ == updated_text(ev, defaults@, docs@)),
        },
{
    match read_toml(existing_raw) {
        None => Err(()),
        Some(existing) => {
            let mut merged = clone_toml(defaults);
            merge_toml_values(&mut merged, &existing);
            let content = generate_toml_with_comments(docs, &merged);
            if config_file_outdated(existing_raw, content.as_str()) {
                Ok(Some(content))
            } else {
                Ok(None)
            }
        },
    }
}

} // verus!
