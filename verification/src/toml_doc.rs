//! Reading a TOML document into the values the merge works on. The `toml`
//! crate parses the text; its tree comes back as a list of nodes in document
//! order, which is rebuilt here into a [`TomlValue`]: tables stay tables, a
//! list is a list when it is empty or holds a table, and everything else is
//! carried as its TOML text.
use vstd::prelude::*;
use toml::Value;
use crate::toml_doc::RawKind::{List, Plain, Table};
use crate::toml_merge::{
    TomlValue, SpecToml, toml_view, tomls_view, toml_entries_view, lemma_tomls_view,
    lemma_toml_entries_view, clone_toml,
};

verus! {

/// What kind of TOML value a node is.
#[derive(PartialEq, Eq, Structural, Clone, Copy)]
pub enum RawKind {
    /// A table: its entries follow it.
    Table,
    /// A list: its items follow it.
    List,
    /// Anything else: a string, number, boolean or date.
    Plain,
}

/// One value of a parsed document: its key in the table holding it (empty
/// for list items and for the document), its kind, how many entries or items
/// it has, and its TOML text.
pub struct RawNode(pub String, pub RawKind, pub usize, pub String);

pub type RawView = (Seq<char>, RawKind, nat, Seq<char>);

pub open spec fn raw_view(n: RawNode) -> RawView {
    (n.0@, n.1, n.2 as nat, n.3@)
}

pub open spec fn raws_view(s: Seq<RawNode>) -> Seq<RawView> {
    s.map_values(|n: RawNode| raw_view(n))
}

/// What `toml::from_str::<toml::Value>` gives for a text, written as its
/// values one after another: each value, then the subtrees of its entries
/// or items from the last to the first; each value with the text `toml`
/// writes for it. `None` where the text is not TOML.
pub uninterp spec fn toml_document(text: Seq<char>) -> Option<Seq<RawView>>;

/// `toml::from_str::<toml::Value>`; the tree is walked depth first and each
/// value is written with `toml::to_string`, or `to_string` where that
/// refuses it, the way a setting's value is written into a file.
#[verifier::external_body]
pub fn parse_toml_nodes(text: &str) -> (r: Option<Vec<RawNode>>)
    ensures
        match r {
            Some(ns) => toml_document(text@) == Some(raws_view(ns@)),
            None => toml_document(text@) is None,
        },
{
    let root: Value = toml::from_str(text).ok()?;
    let none = String::new();
    let (mut out, mut stack) = (vec![], vec![(&none, &root)]);
    while let Some((key, v)) = stack.pop() {
        let (kind, n) = match v {
            Value::Table(t) => { stack.extend(t); (Table, t.len()) }
            Value::Array(a) => { stack.extend(a.iter().map(|x| (&none, x))); (List, a.len()) }
            _ => (Plain, 0),
        };
        out.push(RawNode(key.clone(), kind, n, toml::to_string(v).unwrap_or(v.to_string())));
    }
    Some(out)
}

/// A list's value: a list when it is empty or holds a table, else its text.
pub open spec fn list_value(text: Seq<char>, items: Seq<SpecToml>) -> SpecToml {
    if items.len() == 0 || exists|i: int| 0 <= i < items.len() && items[i] is Table {
        SpecToml::Array(items)
    } else {
        SpecToml::Scalar(text)
    }
}

pub open spec fn entry_values(s: Seq<(Seq<char>, SpecToml)>) -> Seq<SpecToml> {
    s.map_values(|e: (Seq<char>, SpecToml)| e.1)
}

/// The value whose node stands at `pos`, and where the next value starts.
pub open spec fn decode_node(ns: Seq<RawView>, pos: int) -> Option<(SpecToml, int)>
    decreases ns.len() - pos, 0int,
{
    if pos < 0 || pos >= ns.len() {
        None
    } else {
        let node = ns[pos];
        match node.1 {
            RawKind::Plain => if node.2 == 0 {
                Some((SpecToml::Scalar(node.3), pos + 1))
            } else {
                None
            },
            RawKind::Table => match decode_children(ns, pos + 1, node.2) {
                Some((items, next)) => Some((SpecToml::Table(items), next)),
                None => None,
            },
            RawKind::List => match decode_children(ns, pos + 1, node.2) {
                Some((items, next)) => Some((list_value(node.3, entry_values(items)), next)),
                None => None,
            },
        }
    }
}

/// The `k` values from `pos` on, with their keys, put back in document
/// order (they come last first), and where the next value starts.
pub open spec fn decode_children(ns: Seq<RawView>, pos: int, k: nat) -> Option<
    (Seq<(Seq<char>, SpecToml)>, int),
>
    decreases ns.len() - pos, 1int,
{
    if k == 0 {
        Some((seq![], pos))
    } else if pos < 0 || pos >= ns.len() {
        None
    } else {
        match decode_node(ns, pos) {
            Some((v, next)) => if pos < next <= ns.len() {
                match decode_children(ns, next, (k - 1) as nat) {
                    Some((rest, end)) => Some((rest.push((ns[pos].0, v)), end)),
                    None => None,
                }
            } else {
                None
            },
            None => None,
        }
    }
}

/// The value of a whole document: its first node, with every node used.
pub open spec fn document_value(ns: Seq<RawView>) -> Option<SpecToml> {
    match decode_node(ns, 0) {
        Some((v, next)) => if next == ns.len() {
            Some(v)
        } else {
            None
        },
        None => None,
    }
}

/// What reading a TOML text gives: its value; `None` where it is not TOML.
pub open spec fn toml_read(text: Seq<char>) -> Option<SpecToml> {
    match toml_document(text) {
        Some(ns) => document_value(ns),
        None => None,
    }
}

proof fn lemma_raws_view(s: Seq<RawNode>)
    ensures
        raws_view(s).len() == s.len(),
        forall|i: int| 0 <= i < s.len() ==> #[trigger] raws_view(s)[i] == raw_view(s[i]),
{
}

fn decode_node_exec(ns: &Vec<RawNode>, pos: usize) -> (r: Option<(TomlValue, usize)>)
    ensures
        match r {
            Some((v, next)) => decode_node(raws_view(ns@), pos as int) == Some((v@, next as int)),
            None => decode_node(raws_view(ns@), pos as int) is None,
        },
    decreases ns@.len() - pos, 0int,
{
    let ghost nv = raws_view(ns@);
    proof {
        lemma_raws_view(ns@);
    }
    if pos >= ns.len() {
        return None;
    }
    let node = &ns[pos];
    assert(nv[pos as int] == raw_view(ns@[pos as int]));
    match node.1 {
        RawKind::Plain => {
            if node.2 == 0 {
                Some((TomlValue::Scalar(node.3.clone()), pos + 1))
            } else {
                None
            }
        },
        RawKind::Table => {
            match decode_children_exec(ns, pos + 1, node.2) {
                Some((items, next)) => {
                    let v = TomlValue::Table(items);
                    Some((v, next))
                },
                None => None,
            }
        },
        RawKind::List => {
            match decode_children_exec(ns, pos + 1, node.2) {
                Some((items, next)) => {
                    let ghost iv = toml_entries_view(items@);
                    let vals = entry_values_exec(&items);
                    assert(tomls_view(vals@) == entry_values(iv));
                    let mut any_table = false;
                    let mut i: usize = 0;
                    proof {
                        lemma_tomls_view(vals@);
                    }
                    while i < vals.len()
                        invariant
                            i <= vals@.len(),
                            tomls_view(vals@).len() == vals@.len(),
                            forall|t: int|
                                0 <= t < vals@.len() ==> #[trigger] tomls_view(vals@)[t] == toml_view(
                                    vals@[t],
                                ),
                            any_table == exists|t: int|
                                0 <= t < i && #[trigger] tomls_view(vals@)[t] is Table,
                        decreases vals@.len() - i,
                    {
                        if matches!(vals[i], TomlValue::Table(_)) {
                            assert(tomls_view(vals@)[i as int] is Table);
                            any_table = true;
                        }
                        i = i + 1;
                    }
                    let v = if vals.len() == 0 || any_table {
                        TomlValue::Array(vals)
                    } else {
                        TomlValue::Scalar(node.3.clone())
                    };
                    Some((v, next))
                },
                None => None,
            }
        },
    }
}

fn entry_values_exec(items: &Vec<(String, TomlValue)>) -> (r: Vec<TomlValue>)
    ensures
        tomls_view(r@) == entry_values(toml_entries_view(items@)),
{
    proof {
        lemma_toml_entries_view(items@);
    }
    let ghost iv = toml_entries_view(items@);
    let mut out: Vec<TomlValue> = Vec::new();
    let mut i: usize = 0;
    while i < items.len()
        invariant
            i <= items@.len(),
            out@.len() == i,
            iv == toml_entries_view(items@),
            iv.len() == items@.len(),
            forall|t: int|
                0 <= t < items@.len() ==> #[trigger] iv[t] == (items@[t].0@, toml_view(items@[t].1)),
            forall|t: int| 0 <= t < i ==> #[trigger] toml_view(out@[t]) == iv[t].1,
        decreases items@.len() - i,
    {
        out.push(clone_toml(&items[i].1));
        i = i + 1;
    }
    proof {
        lemma_tomls_view(out@);
    }
    assert(tomls_view(out@) =~= entry_values(iv));
    out
}

fn decode_children_exec(ns: &Vec<RawNode>, pos: usize, k: usize) -> (r: Option<
    (Vec<(String, TomlValue)>, usize),
>)
    ensures
        match r {
            Some((items, next)) => decode_children(raws_view(ns@), pos as int, k as nat) == Some(
                (toml_entries_view(items@), next as int),
            ),
            None => decode_children(raws_view(ns@), pos as int, k as nat) is None,
        },
    decreases ns@.len() - pos, 1int,
{
    let ghost nv = raws_view(ns@);
    proof {
        lemma_raws_view(ns@);
    }
    if k == 0 {
        let empty: Vec<(String, TomlValue)> = Vec::new();
        assert(toml_entries_view(empty@) =~= Seq::<(Seq<char>, SpecToml)>::empty());
        return Some((empty, pos));
    }
    if pos >= ns.len() {
        return None;
    }
    match decode_node_exec(ns, pos) {
        Some((v, next)) => {
            if pos < next && next <= ns.len() {
                match decode_children_exec(ns, next, k - 1) {
                    Some((rest, end)) => {
                        let mut items = rest;
                        items.push((ns[pos].0.clone(), v));
                        assert(nv[pos as int] == raw_view(ns@[pos as int]));
                        assert(items@.drop_last() == rest@);
                        Some((items, end))
                    },
                    None => None,
                }
            } else {
                None
            }
        },
        None => None,
    }
}

/// Reads a TOML text into a value (see [`toml_read`]).
pub fn read_toml(text: &str) -> (r: Option<TomlValue>)
    ensures
        match r {
            Some(v) => toml_read(text@) == Some(v@),
            None => toml_read(text@) is None,
        },
{
    match parse_toml_nodes(text) {
        Some(ns) => {
            proof {
                lemma_raws_view(ns@);
            }
            match decode_node_exec(&ns, 0) {
                Some((v, next)) => {
                    if next == ns.len() {
                        Some(v)
                    } else {
                        None
                    }
                },
                None => None,
            }
        },
        None => None,
    }
}

} // verus!
