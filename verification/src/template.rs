//! A small text template engine: `{name}`, `{a.b|upper}`, `{time:%Y-%m-%d}`,
//! `{#if flag}...{/if}` and `{#each list}...{/each}`; `{{` and `}}` stand for
//! literal braces.
use vstd::prelude::*;
use crate::text::{
    chars_eq, extend_chars, find_char, find_char_from, lemma_find_char_from, lemma_split_on_len,
    replace_all, replace_chars, split_chars, split_on, split_once_chars, split_once_spec,
    starts_with, starts_with_chars, string_from_chars, string_views, trim, trim_chars, views,
    chars_of, is_ws, uppercase_of, lowercase_of, to_uppercase, to_lowercase, int_text, decimal,
    i64_to_chars, u64_to_chars, join, join_chars,
};
use crate::clock::{rfc3339_instant, strftime_text, parse_rfc3339, format_instant};

verus! {

// ---------------------------------------------------------------------------
// Context values
// ---------------------------------------------------------------------------

/// A JSON-like value that a template is rendered against.
/// Numbers are integers.
pub enum Value {
    Null,
    Bool(bool),
    Number(i64),
    Str(String),
    Array(Vec<Value>),
    Object(Vec<(String, Value)>),
}

/// The mathematical form of a [`Value`].
pub enum SpecValue {
    Null,
    Bool(bool),
    Number(int),
    Text(Seq<char>),
    Array(Seq<SpecValue>),
    Object(Seq<(Seq<char>, SpecValue)>),
}

pub open spec fn value_view(v: Value) -> SpecValue
    decreases v,
{
    match v {
        Value::Null => SpecValue::Null,
        Value::Bool(b) => SpecValue::Bool(b),
        Value::Number(n) => SpecValue::Number(n as int),
        Value::Str(s) => SpecValue::Text(s@),
        Value::Array(a) => SpecValue::Array(values_view(a@)),
        Value::Object(o) => SpecValue::Object(entries_view(o@)),
    }
}

pub open spec fn values_view(s: Seq<Value>) -> Seq<SpecValue>
    decreases s,
{
    if s.len() == 0 {
        seq![]
    } else {
        values_view(s.drop_last()).push(value_view(s.last()))
    }
}

pub open spec fn entries_view(s: Seq<(String, Value)>) -> Seq<(Seq<char>, SpecValue)>
    decreases s,
{
    if s.len() == 0 {
        seq![]
    } else {
        entries_view(s.drop_last()).push((s.last().0@, value_view(s.last().1)))
    }
}

impl View for Value {
    type V = SpecValue;

    open spec fn view(&self) -> SpecValue {
        value_view(*self)
    }
}


// ---------------------------------------------------------------------------
// Template nodes
// ---------------------------------------------------------------------------

/// One piece of a compiled template.
pub enum Node {
    Literal(String),
    Variable { path: Vec<String>, fmt: Option<String>, filters: Vec<String> },
    IfBlock { path: Vec<String>, children: Vec<Node> },
    EachBlock { path: Vec<String>, children: Vec<Node> },
}

/// The mathematical form of a [`Node`].
pub enum SpecNode {
    Literal(Seq<char>),
    Variable { path: Seq<Seq<char>>, fmt: Option<Seq<char>>, filters: Seq<Seq<char>> },
    IfBlock { path: Seq<Seq<char>>, children: Seq<SpecNode> },
    EachBlock { path: Seq<Seq<char>>, children: Seq<SpecNode> },
}

pub open spec fn opt_view(o: Option<String>) -> Option<Seq<char>> {
    match o {
        Some(s) => Some(s@),
        None => None,
    }
}

pub open spec fn node_view(n: Node) -> SpecNode
    decreases n,
{
    match n {
        Node::Literal(s) => SpecNode::Literal(s@),
        Node::Variable { path, fmt, filters } => SpecNode::Variable {
            path: string_views(path@),
            fmt: opt_view(fmt),
            filters: string_views(filters@),
        },
        Node::IfBlock { path, children } => SpecNode::IfBlock {
            path: string_views(path@),
            children: nodes_view(children@),
        },
        Node::EachBlock { path, children } => SpecNode::EachBlock {
            path: string_views(path@),
            children: nodes_view(children@),
        },
    }
}

pub open spec fn nodes_view(s: Seq<Node>) -> Seq<SpecNode>
    decreases s,
{
    if s.len() == 0 {
        seq![]
    } else {
        nodes_view(s.drop_last()).push(node_view(s.last()))
    }
}

pub proof fn lemma_nodes_view_push(s: Seq<Node>, n: Node)
    ensures
        nodes_view(s.push(n)) == nodes_view(s).push(node_view(n)),
{
    assert(s.push(n).drop_last() == s);
}

// ---------------------------------------------------------------------------
// Parsing
// ---------------------------------------------------------------------------

pub open spec fn if_open() -> Seq<char> {
    seq!['#', 'i', 'f', ' ']
}

pub open spec fn if_close() -> Seq<char> {
    seq!['/', 'i', 'f']
}

pub open spec fn each_open() -> Seq<char> {
    seq!['#', 'e', 'a', 'c', 'h', ' ']
}

pub open spec fn each_close() -> Seq<char> {
    seq!['/', 'e', 'a', 'c', 'h']
}

/// Literal text: `{{` stands for `{` and `}}` for `}`.
pub open spec fn unescape(s: Seq<char>) -> Seq<char> {
    replace_all(replace_all(s, seq!['{', '{'], seq!['{']), seq!['}', '}'], seq!['}'])
}

pub open spec fn push_literal(acc: Seq<SpecNode>, t: Seq<char>, lit: int, i: int) -> Seq<
    SpecNode,
> {
    if lit < i {
        acc.push(SpecNode::Literal(unescape(t.subrange(lit, i))))
    } else {
        acc
    }
}

/// The dotted path after a block keyword of `n` characters.
pub open spec fn block_path(token: Seq<char>, n: int) -> Seq<Seq<char>> {
    split_on(trim(token.skip(n)), '.')
}

/// A `{path:fmt|filter|...}` token.
pub open spec fn variable_node(token: Seq<char>) -> SpecNode {
    let parts = split_on(token, '|');
    let main = trim(parts[0]);
    let filters = parts.skip(1).map_values(|p: Seq<char>| trim(p));
    match split_once_spec(main, ':') {
        Some((k, f)) => SpecNode::Variable {
            path: split_on(trim(k), '.'),
            fmt: Some(trim(f)),
            filters,
        },
        None => SpecNode::Variable { path: split_on(main, '.'), fmt: None, filters },
    }
}

/// Parsing from index `i`, with pending literal text starting at `lit` and
/// the nodes `acc` found so far. Returns the nodes and the index where this
/// level of the template ends (after a closing `{/if}` or `{/each}`, or at the end).
pub open spec fn parse_from(t: Seq<char>, i: int, lit: int, acc: Seq<SpecNode>) -> (Seq<SpecNode>, int)
    decreases t.len() - i,
{
    if i < 0 || i >= t.len() {
        (push_literal(acc, t, lit, t.len() as int), i)
    } else if t[i] != '{' {
        parse_from(t, i + 1, lit, acc)
    } else if i + 1 < t.len() && t[i + 1] == '{' {
        parse_from(t, i + 2, lit, acc)
    } else {
        let acc1 = push_literal(acc, t, lit, i);
        let k = find_char_from(t, '}', i + 1);
        if !(i < k < t.len()) {
            parse_from(t, i + 1, lit, acc1)
        } else {
            let token = trim(t.subrange(i + 1, k));
            if starts_with(token, if_open()) {
                let inner = parse_from(t, k + 1, k + 1, seq![]);
                if i < inner.1 <= t.len() {
                    parse_from(
                        t,
                        inner.1,
                        inner.1,
                        acc1.push(SpecNode::IfBlock { path: block_path(token, 4), children: inner.0 }),
                    )
                } else {
                    (acc1, i)
                }
            } else if token == if_close() {
                (acc1, k + 1)
            } else if starts_with(token, each_open()) {
                let inner = parse_from(t, k + 1, k + 1, seq![]);
                if i < inner.1 <= t.len() {
                    parse_from(
                        t,
                        inner.1,
                        inner.1,
                        acc1.push(
                            SpecNode::EachBlock { path: block_path(token, 6), children: inner.0 },
                        ),
                    )
                } else {
                    (acc1, i)
                }
            } else if token == each_close() {
                (acc1, k + 1)
            } else {
                parse_from(t, k + 1, k + 1, acc1.push(variable_node(token)))
            }
        }
    }
}

/// The nodes of a whole template.
pub open spec fn parse_template(t: Seq<char>) -> Seq<SpecNode> {
    parse_from(t, 0, 0, seq![]).0
}

fn literal_string(t: &[char], a: usize, b: usize) -> (r: String)
    requires
        a <= b <= t@.len(),
    ensures
        r@ == unescape(t@.subrange(a as int, b as int)),
{
    let piece = vstd::slice::slice_subrange(t, a, b);
    let open2: [char; 2] = ['{', '{'];
    let open1: [char; 1] = ['{'];
    let close2: [char; 2] = ['}', '}'];
    let close1: [char; 1] = ['}'];
    assert(open2@ =~= seq!['{', '{']);
    assert(open1@ =~= seq!['{']);
    assert(close2@ =~= seq!['}', '}']);
    assert(close1@ =~= seq!['}']);
    let x = replace_chars(piece, &open2, &open1);
    let y = replace_chars(x.as_slice(), &close2, &close1);
    string_from_chars(y.as_slice())
}

fn strings_of(v: &Vec<Vec<char>>) -> (r: Vec<String>)
    ensures
        string_views(r@) == views(v@),
{
    let mut out: Vec<String> = Vec::new();
    let mut i: usize = 0;
    while i < v.len()
        invariant
            i <= v@.len(),
            string_views(out@) == views(v@).take(i as int),
        decreases v@.len() - i,
    {
        let s = string_from_chars(v[i].as_slice());
        let ghost before = out@;
        out.push(s);
        assert(string_views(out@) =~= string_views(before).push(s@));
        assert(views(v@).take(i + 1) =~= views(v@).take(i as int).push(v@[i as int]@));
        i = i + 1;
    }
    assert(views(v@).take(v@.len() as int) == views(v@));
    out
}

fn variable_from_token(token: &[char]) -> (r: Node)
    ensures
        node_view(r) == variable_node(token@),
{
    let parts = split_chars(token, '|');
    proof {
        lemma_split_on_len(token@, '|');
    }
    assert(parts@.len() >= 1) by {
        assert(views(parts@).len() == parts@.len());
    }
    let main = trim_chars(parts[0].as_slice());
    assert(main@ == trim(split_on(token@, '|')[0])) by {
        assert(views(parts@)[0] == parts@[0]@);
    }
    let mut filters: Vec<String> = Vec::new();
    let mut j: usize = 1;
    let ghost fs = split_on(token@, '|').skip(1).map_values(|p: Seq<char>| trim(p));
    while j < parts.len()
        invariant
            1 <= j <= parts@.len(),
            views(parts@) == split_on(token@, '|'),
            fs == split_on(token@, '|').skip(1).map_values(|p: Seq<char>| trim(p)),
            string_views(filters@) == fs.take(j - 1),
        decreases parts@.len() - j,
    {
        let f = trim_chars(parts[j].as_slice());
        let fstr = string_from_chars(f.as_slice());
        let ghost before = filters@;
        filters.push(fstr);
        assert(views(parts@)[j as int] == parts@[j as int]@);
        assert(string_views(filters@) =~= string_views(before).push(fstr@));
        assert(fs.take(j as int) =~= fs.take(j - 1).push(fs[j - 1]));
        j = j + 1;
    }
    assert(fs.take(parts@.len() - 1) =~= fs);
    match split_once_chars(main.as_slice(), ':') {
        Some((k, f)) => {
            let kt = trim_chars(k.as_slice());
            let ft = trim_chars(f.as_slice());
            let pieces = split_chars(kt.as_slice(), '.');
            let path = strings_of(&pieces);
            let fmt = string_from_chars(ft.as_slice());
            Node::Variable { path, fmt: Some(fmt), filters }
        },
        None => {
            let pieces = split_chars(main.as_slice(), '.');
            let path = strings_of(&pieces);
            Node::Variable { path, fmt: None, filters }
        },
    }
}

fn block_path_of(token: &[char], n: usize) -> (r: Vec<String>)
    requires
        n <= token@.len(),
    ensures
        string_views(r@) == block_path(token@, n as int),
{
    let rest = vstd::slice::slice_subrange(token, n, token.len());
    assert(rest@ == token@.skip(n as int));
    let t = trim_chars(rest);
    let pieces = split_chars(t.as_slice(), '.');
    strings_of(&pieces)
}

proof fn lemma_parse_from_bounds(t: Seq<char>, i: int, lit: int, acc: Seq<SpecNode>)
    requires
        0 <= i <= t.len(),
    ensures
        i <= parse_from(t, i, lit, acc).1 <= t.len(),
    decreases t.len() - i,
{
    if i < t.len() {
        if t[i] != '{' {
            lemma_parse_from_bounds(t, i + 1, lit, acc);
        } else if i + 1 < t.len() && t[i + 1] == '{' {
            lemma_parse_from_bounds(t, i + 2, lit, acc);
        } else {
            let acc1 = push_literal(acc, t, lit, i);
            let k = find_char_from(t, '}', i + 1);
            if !(i < k < t.len()) {
                lemma_parse_from_bounds(t, i + 1, lit, acc1);
            } else {
                let token = trim(t.subrange(i + 1, k));
                if starts_with(token, if_open()) {
                    let inner = parse_from(t, k + 1, k + 1, seq![]);
                    if i < inner.1 <= t.len() {
                        lemma_parse_from_bounds(
                            t,
                            inner.1,
                            inner.1,
                            acc1.push(
                                SpecNode::IfBlock { path: block_path(token, 4), children: inner.0 },
                            ),
                        );
                    }
                } else if token == if_close() {
                } else if starts_with(token, each_open()) {
                    let inner = parse_from(t, k + 1, k + 1, seq![]);
                    if i < inner.1 <= t.len() {
                        lemma_parse_from_bounds(
                            t,
                            inner.1,
                            inner.1,
                            acc1.push(
                                SpecNode::EachBlock {
                                    path: block_path(token, 6),
                                    children: inner.0,
                                },
                            ),
                        );
                    }
                } else if token == each_close() {
                } else {
                    lemma_parse_from_bounds(t, k + 1, k + 1, acc1.push(variable_node(token)));
                }
            }
        }
    }
}

/// Parses one level of the template starting at `start`.
fn parse(t: &[char], start: usize) -> (r: (Vec<Node>, usize))
    requires
        start <= t@.len(),
    ensures
        nodes_view(r.0@) == parse_from(t@, start as int, start as int, seq![]).0,
        r.1 as int == parse_from(t@, start as int, start as int, seq![]).1,
        start <= r.1 <= t@.len(),
    decreases t@.len() - start,
{
    let n = t.len();
    let mut nodes: Vec<Node> = Vec::new();
    let mut i = start;
    let mut lit = start;
    let ghost goal = parse_from(t@, start as int, start as int, seq![]);
    proof {
        lemma_parse_from_bounds(t@, start as int, start as int, seq![]);
    }
    while i < n
        invariant
            n == t@.len(),
            start <= lit <= i <= n,
            goal == parse_from(t@, start as int, start as int, seq![]),
            goal == parse_from(t@, i as int, lit as int, nodes_view(nodes@)),
            start <= goal.1 <= n,
        decreases n - i,
    {
        if t[i] != '{' {
            i = i + 1;
            continue;
        }
        if i + 1 < n && t[i + 1] == '{' {
            i = i + 2;
            continue;
        }
        let ghost acc = nodes_view(nodes@);
        if lit < i {
            let s = literal_string(t, lit, i);
            proof {
                lemma_nodes_view_push(nodes@, Node::Literal(s));
            }
            nodes.push(Node::Literal(s));
        }
        assert(nodes_view(nodes@) == push_literal(acc, t@, lit as int, i as int));
        let found = find_char(t, '}', i + 1);
        proof {
            lemma_find_char_from(t@, '}', i + 1);
        }
        match found {
            None => {
                i = i + 1;
            },
            Some(k) => {
                let inner_chars = vstd::slice::slice_subrange(t, i + 1, k);
                let token = trim_chars(inner_chars);
                assert(token@ == trim(t@.subrange(i + 1, k as int)));
                if starts_with_chars(token.as_slice(), &['#', 'i', 'f', ' ']) {
                    assert(['#', 'i', 'f', ' ']@ == if_open());
                    let (children, new_i) = parse(t, k + 1);
                    let path = block_path_of(token.as_slice(), 4);
                    let node = Node::IfBlock { path, children };
                    proof {
                        lemma_nodes_view_push(nodes@, node);
                    }
                    nodes.push(node);
                    i = new_i;
                    lit = new_i;
                    continue;
                }
                assert(['#', 'i', 'f', ' ']@ == if_open());
                if chars_eq(token.as_slice(), &['/', 'i', 'f']) {
                    assert(['/', 'i', 'f']@ == if_close());
                    return (nodes, k + 1);
                }
                assert(['/', 'i', 'f']@ == if_close());
                if starts_with_chars(token.as_slice(), &['#', 'e', 'a', 'c', 'h', ' ']) {
                    assert(['#', 'e', 'a', 'c', 'h', ' ']@ == each_open());
                    let (children, new_i) = parse(t, k + 1);
                    let path = block_path_of(token.as_slice(), 6);
                    let node = Node::EachBlock { path, children };
                    proof {
                        lemma_nodes_view_push(nodes@, node);
                    }
                    nodes.push(node);
                    i = new_i;
                    lit = new_i;
                    continue;
                }
                assert(['#', 'e', 'a', 'c', 'h', ' ']@ == each_open());
                if chars_eq(token.as_slice(), &['/', 'e', 'a', 'c', 'h']) {
                    assert(['/', 'e', 'a', 'c', 'h']@ == each_close());
                    return (nodes, k + 1);
                }
                assert(['/', 'e', 'a', 'c', 'h']@ == each_close());
                let node = variable_from_token(token.as_slice());
                proof {
                    lemma_nodes_view_push(nodes@, node);
                }
                nodes.push(node);
                i = k + 1;
                lit = k + 1;
            },
        }
    }
    if lit < n {
        let s = literal_string(t, lit, n);
        proof {
            lemma_nodes_view_push(nodes@, Node::Literal(s));
        }
        nodes.push(Node::Literal(s));
    }
    (nodes, i)
}


// ---------------------------------------------------------------------------
// Rendering: the meaning
// ---------------------------------------------------------------------------

/// The value stored under `key` in a list of entries (the first such entry).
pub open spec fn lookup(entries: Seq<(Seq<char>, SpecValue)>, key: Seq<char>) -> Option<SpecValue>
    decreases entries.len(),
{
    if entries.len() == 0 {
        None
    } else if entries[0].0 == key {
        Some(entries[0].1)
    } else {
        lookup(entries.drop_first(), key)
    }
}

/// `value.get(key)`: only objects have keys.
pub open spec fn get_key(v: SpecValue, key: Seq<char>) -> Option<SpecValue> {
    match v {
        SpecValue::Object(entries) => lookup(entries, key),
        _ => None,
    }
}

/// Follows a dotted path from a value.
pub open spec fn resolve(v: SpecValue, path: Seq<Seq<char>>) -> Option<SpecValue>
    decreases path.len(),
{
    if path.len() == 0 {
        Some(v)
    } else {
        match get_key(v, path[0]) {
            Some(w) => resolve(w, path.drop_first()),
            None => None,
        }
    }
}

pub open spec fn bool_text(b: bool) -> Seq<char> {
    if b {
        seq!['t', 'r', 'u', 'e']
    } else {
        seq!['f', 'a', 'l', 's', 'e']
    }
}

/// The text of a string, number or boolean.
pub open spec fn scalar_text(v: SpecValue) -> Option<Seq<char>> {
    match v {
        SpecValue::Text(s) => Some(s),
        SpecValue::Number(n) => Some(int_text(n)),
        SpecValue::Bool(b) => Some(bool_text(b)),
        _ => None,
    }
}

/// The texts of the scalar items of a list, in order.
pub open spec fn scalar_texts(items: Seq<SpecValue>) -> Seq<Seq<char>>
    decreases items.len(),
{
    if items.len() == 0 {
        seq![]
    } else {
        let rest = scalar_texts(items.drop_last());
        match scalar_text(items.last()) {
            Some(t) => rest.push(t),
            None => rest,
        }
    }
}

pub open spec fn is_quote(c: char) -> bool {
    c == '\'' || c == '"'
}

pub open spec fn trim_quotes_start(s: Seq<char>) -> Seq<char>
    decreases s.len(),
{
    if s.len() > 0 && is_quote(s[0]) {
        trim_quotes_start(s.drop_first())
    } else {
        s
    }
}

pub open spec fn trim_quotes_end(s: Seq<char>) -> Seq<char>
    decreases s.len(),
{
    if s.len() > 0 && is_quote(s.last()) {
        trim_quotes_end(s.drop_last())
    } else {
        s
    }
}

/// `trim_matches` with single and double quotes.
pub open spec fn trim_quotes(s: Seq<char>) -> Seq<char> {
    trim_quotes_end(trim_quotes_start(s))
}

pub open spec fn join_word() -> Seq<char> {
    seq!['j', 'o', 'i', 'n']
}

/// The separator of a `join ...` filter: the rest, trimmed, without quotes.
pub open spec fn join_delimiter(cmd: Seq<char>) -> Seq<char> {
    trim_quotes(trim(cmd.skip(4)))
}

/// One filter applied to a value.
pub open spec fn apply_filter(v: SpecValue, filter: Seq<char>) -> SpecValue {
    let cmd = trim(filter);
    if starts_with(cmd, join_word()) && v is Array {
        SpecValue::Text(join(scalar_texts(v->Array_0), join_delimiter(cmd)))
    } else {
        match v {
            SpecValue::Text(s) => SpecValue::Text(
                if cmd == seq!['u', 'p', 'p', 'e', 'r'] {
                    uppercase_of(s)
                } else if cmd == seq!['l', 'o', 'w', 'e', 'r'] {
                    lowercase_of(s)
                } else if cmd == seq!['t', 'r', 'i', 'm'] {
                    trim(s)
                } else if cmd == seq!['l', 'e', 'n'] {
                    decimal((vstd::utf8::encode_utf8(s).len() as usize) as nat)
                } else {
                    s
                },
            ),
            _ => v,
        }
    }
}

/// The filters applied left to right.
pub open spec fn apply_filters(v: SpecValue, filters: Seq<Seq<char>>) -> SpecValue
    decreases filters.len(),
{
    if filters.len() == 0 {
        v
    } else {
        apply_filters(apply_filter(v, filters[0]), filters.drop_first())
    }
}

/// A `%` pattern on a text that reads as an RFC 3339 time, which the time
/// formatter refuses: the one case where rendering cannot go on.
pub open spec fn format_fault(v: SpecValue, fmt: Option<Seq<char>>) -> bool {
    match (v, fmt) {
        (SpecValue::Text(s), Some(f)) => starts_with(f, seq!['%']) && match rfc3339_instant(s) {
            Some(t) => strftime_text(t.0, t.1, t.2, f) is None,
            None => false,
        },
        _ => false,
    }
}

/// The text a value is written as; nothing for null, lists and objects.
pub open spec fn format_value(v: SpecValue, fmt: Option<Seq<char>>) -> Option<Seq<char>> {
    match v {
        SpecValue::Text(s) => match fmt {
            Some(f) => if starts_with(f, seq!['%']) && rfc3339_instant(s) is Some {
                let t = rfc3339_instant(s).unwrap();
                match strftime_text(t.0, t.1, t.2, f) {
                    Some(out) => Some(out),
                    None => Some(s),
                }
            } else {
                Some(s)
            },
            None => Some(s),
        },
        SpecValue::Number(n) => Some(int_text(n)),
        SpecValue::Bool(b) => Some(bool_text(b)),
        _ => None,
    }
}

/// Whether a value counts as true in `{#if}`.
pub open spec fn is_truthy(v: SpecValue) -> bool {
    match v {
        SpecValue::Bool(b) => b,
        SpecValue::Number(n) => n != 0,
        SpecValue::Text(s) => s.len() > 0,
        SpecValue::Array(a) => a.len() > 0,
        SpecValue::Null => false,
        SpecValue::Object(_) => true,
    }
}

/// The text of a list of nodes against a context.
pub open spec fn render_nodes_spec(nodes: Seq<SpecNode>, ctx: SpecValue) -> Seq<char>
    decreases nodes, 0nat,
{
    if nodes.len() == 0 {
        seq![]
    } else {
        render_nodes_spec(nodes.drop_last(), ctx) + render_node_spec(nodes.last(), ctx)
    }
}

/// The text of one node against a context.
pub open spec fn render_node_spec(n: SpecNode, ctx: SpecValue) -> Seq<char>
    decreases n, 0nat,
{
    match n {
        SpecNode::Literal(s) => s,
        SpecNode::Variable { path, fmt, filters } => match resolve(ctx, path) {
            Some(v) => match format_value(apply_filters(v, filters), fmt) {
                Some(s) => s,
                None => seq![],
            },
            None => seq![],
        },
        SpecNode::IfBlock { path, children } => match resolve(ctx, path) {
            Some(v) => if is_truthy(v) {
                render_nodes_spec(children, ctx)
            } else {
                seq![]
            },
            None => seq![],
        },
        SpecNode::EachBlock { path, children } => match resolve(ctx, path) {
            Some(SpecValue::Array(items)) => render_items_spec(children, items),
            _ => seq![],
        },
    }
}

/// The children rendered once per item, each item as the context.
pub open spec fn render_items_spec(children: Seq<SpecNode>, items: Seq<SpecValue>) -> Seq<char>
    decreases children, items.len(),
{
    if items.len() == 0 {
        seq![]
    } else {
        render_items_spec(children, items.drop_last()) + render_nodes_spec(children, items.last())
    }
}

/// Whether rendering the nodes reaches a [`format_fault`].
pub open spec fn nodes_fault(nodes: Seq<SpecNode>, ctx: SpecValue) -> bool
    decreases nodes, 0nat,
{
    if nodes.len() == 0 {
        false
    } else {
        nodes_fault(nodes.drop_last(), ctx) || node_fault(nodes.last(), ctx)
    }
}

pub open spec fn node_fault(n: SpecNode, ctx: SpecValue) -> bool
    decreases n, 0nat,
{
    match n {
        SpecNode::Literal(_) => false,
        SpecNode::Variable { path, fmt, filters } => match resolve(ctx, path) {
            Some(v) => format_fault(apply_filters(v, filters), fmt),
            None => false,
        },
        SpecNode::IfBlock { path, children } => match resolve(ctx, path) {
            Some(v) => is_truthy(v) && nodes_fault(children, ctx),
            None => false,
        },
        SpecNode::EachBlock { path, children } => match resolve(ctx, path) {
            Some(SpecValue::Array(items)) => items_fault(children, items),
            _ => false,
        },
    }
}

pub open spec fn items_fault(children: Seq<SpecNode>, items: Seq<SpecValue>) -> bool
    decreases children, items.len(),
{
    if items.len() == 0 {
        false
    } else {
        items_fault(children, items.drop_last()) || nodes_fault(children, items.last())
    }
}

/// The text of a whole template against a context.
pub open spec fn render_template(t: Seq<char>, ctx: SpecValue) -> Seq<char> {
    render_nodes_spec(parse_template(t), ctx)
}


// ---------------------------------------------------------------------------
// Laws
// ---------------------------------------------------------------------------

proof fn lemma_parse_plain(t: Seq<char>, i: int, lit: int, acc: Seq<SpecNode>)
    requires
        0 <= lit <= i <= t.len(),
        forall|j: int| 0 <= j < t.len() ==> t[j] != '{',
    ensures
        parse_from(t, i, lit, acc) == (push_literal(acc, t, lit, t.len() as int), t.len() as int),
    decreases t.len() - i,
{
    if i < t.len() {
        lemma_parse_plain(t, i + 1, lit, acc);
    }
}

proof fn lemma_replace_absent(s: Seq<char>)
    requires
        forall|j: int| 0 <= j < s.len() ==> s[j] != '{',
    ensures
        replace_all(s, seq!['{', '{'], seq!['{']) == s,
    decreases s.len(),
{
    if s.len() > 0 {
        assert(!starts_with(s, seq!['{', '{'])) by {
            if starts_with(s, seq!['{', '{']) {
                assert(s.take(2)[0] == s[0]);
            }
        }
        lemma_replace_absent(s.drop_first());
        assert(seq![s[0]] + s.drop_first() =~= s);
    }
}

/// Text without `{` renders as itself, with each `}}` written as `}`,
/// whatever the context.
pub proof fn law_plain_text_renders_itself(t: Seq<char>, ctx: SpecValue)
    requires
        forall|j: int| 0 <= j < t.len() ==> t[j] != '{',
    ensures
        render_template(t, ctx) == replace_all(t, seq!['}', '}'], seq!['}']),
{
    lemma_parse_plain(t, 0, 0, seq![]);
    lemma_replace_absent(t);
    let nodes = parse_template(t);
    if t.len() == 0 {
        assert(nodes.len() == 0);
    } else {
        assert(t.subrange(0, t.len() as int) =~= t);
        assert(nodes == seq![SpecNode::Literal(unescape(t))]);
        assert(nodes.drop_last() =~= Seq::<SpecNode>::empty());
        assert(render_nodes_spec(nodes.drop_last(), ctx) == Seq::<char>::empty());
        assert(nodes.last() == SpecNode::Literal(unescape(t)));
        assert(render_node_spec(nodes.last(), ctx) == unescape(t));
        assert(render_nodes_spec(nodes, ctx) =~= unescape(t));
    }
}

/// An `{#if path}` block shows its children exactly when the value at `path`
/// is present and not empty: `true`, a number other than zero, a non-empty
/// text or list, or an object. An empty text, `false`, zero, an empty list,
/// null or a missing value show nothing.
pub proof fn law_if_block_shows_present_values(
    path: Seq<Seq<char>>,
    children: Seq<SpecNode>,
    ctx: SpecValue,
)
    ensures
        ({
            let shown = render_nodes_spec(children, ctx);
            let out = render_node_spec(SpecNode::IfBlock { path, children }, ctx);
            match resolve(ctx, path) {
                None => out == Seq::<char>::empty(),
                Some(SpecValue::Null) => out == Seq::<char>::empty(),
                Some(SpecValue::Bool(b)) => out == if b { shown } else { seq![] },
                Some(SpecValue::Number(n)) => out == if n == 0 { seq![] } else { shown },
                Some(SpecValue::Text(t)) => out == if t.len() == 0 { seq![] } else { shown },
                Some(SpecValue::Array(a)) => out == if a.len() == 0 { seq![] } else { shown },
                Some(SpecValue::Object(_)) => out == shown,
            }
        }),
{
}

// ---------------------------------------------------------------------------
// Rendering: the code
// ---------------------------------------------------------------------------

pub proof fn lemma_values_view(s: Seq<Value>)
    ensures
        values_view(s).len() == s.len(),
        forall|i: int| 0 <= i < s.len() ==> #[trigger] values_view(s)[i] == value_view(s[i]),
    decreases s.len(),
{
    if s.len() > 0 {
        lemma_values_view(s.drop_last());
    }
}

pub proof fn lemma_entries_view(s: Seq<(String, Value)>)
    ensures
        entries_view(s).len() == s.len(),
        forall|i: int|
            0 <= i < s.len() ==> #[trigger] entries_view(s)[i] == (s[i].0@, value_view(s[i].1)),
    decreases s.len(),
{
    if s.len() > 0 {
        lemma_entries_view(s.drop_last());
    }
}

pub proof fn lemma_nodes_view(s: Seq<Node>)
    ensures
        nodes_view(s).len() == s.len(),
        forall|i: int| 0 <= i < s.len() ==> #[trigger] nodes_view(s)[i] == node_view(s[i]),
    decreases s.len(),
{
    if s.len() > 0 {
        lemma_nodes_view(s.drop_last());
    }
}

proof fn lemma_nodes_fault_prefix(s: Seq<SpecNode>, ctx: SpecValue, k: int)
    requires
        0 <= k <= s.len(),
        nodes_fault(s.take(k), ctx),
    ensures
        nodes_fault(s, ctx),
    decreases s.len() - k,
{
    if k < s.len() {
        assert(s.take(k + 1).drop_last() == s.take(k));
        lemma_nodes_fault_prefix(s, ctx, k + 1);
    } else {
        assert(s.take(k) == s);
    }
}

proof fn lemma_items_fault_prefix(c: Seq<SpecNode>, s: Seq<SpecValue>, k: int)
    requires
        0 <= k <= s.len(),
        items_fault(c, s.take(k)),
    ensures
        items_fault(c, s),
    decreases s.len() - k,
{
    if k < s.len() {
        assert(s.take(k + 1).drop_last() == s.take(k));
        lemma_items_fault_prefix(c, s, k + 1);
    } else {
        assert(s.take(k) == s);
    }
}

/// `value.get(key)` on a context value.
fn get_key_ref<'a>(v: &'a Value, key: &String) -> (r: Option<&'a Value>)
    ensures
        match r {
            Some(w) => get_key(v@, key@) == Some(w@),
            None => get_key(v@, key@) is None,
        },
{
    match v {
        Value::Object(entries) => {
            proof {
                lemma_entries_view(entries@);
            }
            let ghost e = entries_view(entries@);
            assert(v@ == SpecValue::Object(e));
            let mut i: usize = 0;
            assert(e.skip(0) == e);
            while i < entries.len()
                invariant
                    i <= entries@.len(),
                    e == entries_view(entries@),
                    v@ == SpecValue::Object(e),
                    e.len() == entries@.len(),
                    forall|j: int| 0 <= j < entries@.len() ==> #[trigger] e[j] == (
                        entries@[j].0@,
                        value_view(entries@[j].1),
                    ),
                    lookup(e, key@) == lookup(e.skip(i as int), key@),
                decreases entries@.len() - i,
            {
                assert(e.skip(i as int).drop_first() == e.skip(i + 1));
                assert(e.skip(i as int)[0] == e[i as int]);
                if entries[i].0 == *key {
                    assert(e[i as int].0 == key@);
                    assert(lookup(e.skip(i as int), key@) == Some(e[i as int].1));
                    return Some(&entries[i].1);
                }
                i = i + 1;
            }
            None
        },
        _ => None,
    }
}

/// Follows a dotted path from a context value.
fn resolve_ref<'a>(ctx: &'a Value, path: &Vec<String>) -> (r: Option<&'a Value>)
    ensures
        match r {
            Some(w) => resolve(ctx@, string_views(path@)) == Some(w@),
            None => resolve(ctx@, string_views(path@)) is None,
        },
{
    let ghost p = string_views(path@);
    let mut cur: &'a Value = ctx;
    let mut i: usize = 0;
    assert(p.skip(0) == p);
    while i < path.len()
        invariant
            i <= path@.len(),
            p == string_views(path@),
            p.len() == path@.len(),
            resolve(ctx@, p) == resolve(cur@, p.skip(i as int)),
        decreases path@.len() - i,
    {
        assert(p.skip(i as int)[0] == path@[i as int]@);
        assert(p.skip(i as int).drop_first() == p.skip(i + 1));
        match get_key_ref(cur, &path[i]) {
            Some(w) => {
                cur = w;
            },
            None => {
                return None;
            },
        }
        i = i + 1;
    }
    assert(p.skip(i as int).len() == 0);
    Some(cur)
}

/// A value partway through its filters: still the context value, or new text.
pub enum Filtered<'a> {
    Ref(&'a Value),
    Text(Vec<char>),
}

pub open spec fn filtered_view(f: Filtered) -> SpecValue {
    match f {
        Filtered::Ref(v) => v@,
        Filtered::Text(s) => SpecValue::Text(s@),
    }
}

fn bool_chars(b: bool) -> (r: Vec<char>)
    ensures
        r@ == bool_text(b),
{
    if b {
        let a: [char; 4] = ['t', 'r', 'u', 'e'];
        assert(a@ =~= bool_text(b));
        vstd::slice::slice_to_vec(&a)
    } else {
        let a: [char; 5] = ['f', 'a', 'l', 's', 'e'];
        assert(a@ =~= bool_text(b));
        vstd::slice::slice_to_vec(&a)
    }
}

fn scalar_chars(v: &Value) -> (r: Option<Vec<char>>)
    ensures
        match r {
            Some(t) => scalar_text(v@) == Some(t@),
            None => scalar_text(v@) is None,
        },
{
    match v {
        Value::Str(s) => Some(chars_of(s.as_str())),
        Value::Number(n) => Some(i64_to_chars(*n)),
        Value::Bool(b) => Some(bool_chars(*b)),
        _ => None,
    }
}

fn trim_quote_chars(s: &[char]) -> (r: Vec<char>)
    ensures
        r@ == trim_quotes(s@),
{
    let n = s.len();
    let mut i: usize = 0;
    assert(s@.skip(0) == s@);
    while i < n && (s[i] == '\'' || s[i] == '"')
        invariant
            n == s@.len(),
            i <= n,
            trim_quotes_start(s@) == trim_quotes_start(s@.skip(i as int)),
        decreases n - i,
    {
        assert(s@.skip(i as int).drop_first() == s@.skip(i + 1));
        i = i + 1;
    }
    let rest = vstd::slice::slice_subrange(s, i, n);
    assert(rest@ == trim_quotes_start(s@));
    let mut j: usize = rest.len();
    assert(rest@.take(j as int) == rest@);
    while j > 0 && (rest[j - 1] == '\'' || rest[j - 1] == '"')
        invariant
            j <= rest@.len(),
            trim_quotes_end(rest@) == trim_quotes_end(rest@.take(j as int)),
        decreases j,
    {
        assert(rest@.take(j as int).drop_last() == rest@.take(j - 1));
        j = j - 1;
    }
    let kept = vstd::slice::slice_subrange(rest, 0, j);
    assert(kept@ == rest@.take(j as int));
    vstd::slice::slice_to_vec(kept)
}

fn join_scalars(arr: &Vec<Value>, sep: &[char]) -> (r: Vec<char>)
    ensures
        r@ == join(scalar_texts(values_view(arr@)), sep@),
{
    let mut parts: Vec<Vec<char>> = Vec::new();
    let mut i: usize = 0;
    proof {
        lemma_values_view(arr@);
    }
    let ghost items = values_view(arr@);
    assert(items.take(0) =~= Seq::<SpecValue>::empty());
    while i < arr.len()
        invariant
            i <= arr@.len(),
            items == values_view(arr@),
            items.len() == arr@.len(),
            forall|j: int| 0 <= j < arr@.len() ==> #[trigger] items[j] == value_view(arr@[j]),
            views(parts@) == scalar_texts(items.take(i as int)),
        decreases arr@.len() - i,
    {
        assert(items.take(i + 1).drop_last() == items.take(i as int));
        assert(items.take(i + 1).last() == arr@[i as int]@);
        match scalar_chars(&arr[i]) {
            Some(t) => {
                let ghost before = parts@;
                parts.push(t);
                assert(views(parts@) =~= views(before).push(t@));
            },
            None => {},
        }
        i = i + 1;
    }
    assert(items.take(arr@.len() as int) == items);
    join_chars(&parts, sep)
}

fn apply_filter_exec<'a>(v: Filtered<'a>, filter: &String) -> (r: Filtered<'a>)
    ensures
        filtered_view(r) == apply_filter(filtered_view(v), filter@),
{
    let fchars = chars_of(filter.as_str());
    let cmd = trim_chars(fchars.as_slice());
    let jw: [char; 4] = ['j', 'o', 'i', 'n'];
    assert(jw@ =~= join_word());
    if starts_with_chars(cmd.as_slice(), &jw) {
        if let Filtered::Ref(Value::Array(arr)) = v {
            let rest = vstd::slice::slice_subrange(cmd.as_slice(), 4, cmd.len());
            assert(rest@ == cmd@.skip(4));
            let t = trim_chars(rest);
            let delim = trim_quote_chars(t.as_slice());
            let joined = join_scalars(arr, delim.as_slice());
            return Filtered::Text(joined);
        }
    }
    let s: Vec<char> = match &v {
        Filtered::Ref(Value::Str(x)) => chars_of(x.as_str()),
        Filtered::Text(x) => x.clone(),
        _ => {
            return v;
        },
    };
    assert(filtered_view(v) == SpecValue::Text(s@));
    let up: [char; 5] = ['u', 'p', 'p', 'e', 'r'];
    let lo: [char; 5] = ['l', 'o', 'w', 'e', 'r'];
    let tr: [char; 4] = ['t', 'r', 'i', 'm'];
    let ln: [char; 3] = ['l', 'e', 'n'];
    assert(up@ =~= seq!['u', 'p', 'p', 'e', 'r']);
    assert(lo@ =~= seq!['l', 'o', 'w', 'e', 'r']);
    assert(tr@ =~= seq!['t', 'r', 'i', 'm']);
    assert(ln@ =~= seq!['l', 'e', 'n']);
    if chars_eq(cmd.as_slice(), &up) {
        let st = string_from_chars(s.as_slice());
        let u = to_uppercase(st.as_str());
        Filtered::Text(chars_of(u.as_str()))
    } else if chars_eq(cmd.as_slice(), &lo) {
        let st = string_from_chars(s.as_slice());
        let l = to_lowercase(st.as_str());
        Filtered::Text(chars_of(l.as_str()))
    } else if chars_eq(cmd.as_slice(), &tr) {
        Filtered::Text(trim_chars(s.as_slice()))
    } else if chars_eq(cmd.as_slice(), &ln) {
        let st = string_from_chars(s.as_slice());
        let n = st.as_str().len();
        Filtered::Text(u64_to_chars(n as u64))
    } else {
        Filtered::Text(s)
    }
}

fn apply_filters_exec<'a>(v: &'a Value, filters: &Vec<String>) -> (r: Filtered<'a>)
    ensures
        filtered_view(r) == apply_filters(v@, string_views(filters@)),
{
    let ghost fs = string_views(filters@);
    let mut cur = Filtered::Ref(v);
    let mut i: usize = 0;
    assert(fs.skip(0) == fs);
    while i < filters.len()
        invariant
            i <= filters@.len(),
            fs == string_views(filters@),
            fs.len() == filters@.len(),
            apply_filters(v@, fs) == apply_filters(filtered_view(cur), fs.skip(i as int)),
        decreases filters@.len() - i,
    {
        assert(fs.skip(i as int)[0] == filters@[i as int]@);
        assert(fs.skip(i as int).drop_first() == fs.skip(i + 1));
        cur = apply_filter_exec(cur, &filters[i]);
        i = i + 1;
    }
    assert(fs.skip(i as int).len() == 0);
    cur
}

/// Formats a filtered value: `Err` where the time formatter refuses the pattern.
fn format_filtered(v: &Filtered, fmt: &Option<String>) -> (r: Result<Option<Vec<char>>, ()>)
    ensures
        match r {
            Ok(Some(t)) => !format_fault(filtered_view(*v), opt_view(*fmt)) && format_value(
                filtered_view(*v),
                opt_view(*fmt),
            ) == Some(t@),
            Ok(None) => !format_fault(filtered_view(*v), opt_view(*fmt)) && format_value(
                filtered_view(*v),
                opt_view(*fmt),
            ) is None,
            Err(_) => format_fault(filtered_view(*v), opt_view(*fmt)),
        },
{
    let text: Option<Vec<char>> = match v {
        Filtered::Ref(Value::Str(s)) => Some(chars_of(s.as_str())),
        Filtered::Text(s) => Some(s.clone()),
        _ => None,
    };
    match text {
        Some(s) => {
            if let Some(f) = fmt {
                let fc = chars_of(f.as_str());
                let pct: [char; 1] = ['%'];
                assert(pct@ =~= seq!['%']);
                if starts_with_chars(fc.as_slice(), &pct) {
                    let st = string_from_chars(s.as_slice());
                    if let Some(t) = parse_rfc3339(st.as_str()) {
                        match format_instant(t.0, t.1, t.2, f.as_str()) {
                            Some(out) => {
                                return Ok(Some(chars_of(out.as_str())));
                            },
                            None => {
                                return Err(());
                            },
                        }
                    }
                }
            }
            Ok(Some(s))
        },
        None => match v {
            Filtered::Ref(Value::Number(n)) => Ok(Some(i64_to_chars(*n))),
            Filtered::Ref(Value::Bool(b)) => Ok(Some(bool_chars(*b))),
            _ => Ok(None),
        },
    }
}

fn is_truthy_exec(v: &Value) -> (r: bool)
    ensures
        r == is_truthy(v@),
{
    match v {
        Value::Bool(b) => *b,
        Value::Number(n) => *n != 0,
        Value::Str(s) => !s.as_str().is_empty(),
        Value::Array(a) => {
            proof {
                lemma_values_view(a@);
            }
            a.len() > 0
        },
        Value::Null => false,
        Value::Object(_) => true,
    }
}

fn render_nodes(nodes: &Vec<Node>, ctx: &Value) -> (r: Option<Vec<char>>)
    ensures
        match r {
            Some(out) => !nodes_fault(nodes_view(nodes@), ctx@) && out@ == render_nodes_spec(
                nodes_view(nodes@),
                ctx@,
            ),
            None => nodes_fault(nodes_view(nodes@), ctx@),
        },
    decreases nodes@,
{
    proof {
        lemma_nodes_view(nodes@);
    }
    let ghost sv = nodes_view(nodes@);
    let mut out: Vec<char> = Vec::new();
    let mut i: usize = 0;
    assert(sv.take(0) =~= Seq::<SpecNode>::empty());
    while i < nodes.len()
        invariant
            i <= nodes@.len(),
            sv == nodes_view(nodes@),
            sv.len() == nodes@.len(),
            forall|j: int| 0 <= j < nodes@.len() ==> #[trigger] sv[j] == node_view(nodes@[j]),
            !nodes_fault(sv.take(i as int), ctx@),
            out@ == render_nodes_spec(sv.take(i as int), ctx@),
        decreases nodes@.len() - i,
    {
        assert(sv.take(i + 1).drop_last() == sv.take(i as int));
        assert(sv.take(i + 1).last() == node_view(nodes@[i as int]));
        assert(decreases_to!(nodes@ => nodes@[i as int]));
        match render_node(&nodes[i], ctx) {
            Some(piece) => {
                extend_chars(&mut out, piece.as_slice());
            },
            None => {
                proof {
                    lemma_nodes_fault_prefix(sv, ctx@, i + 1);
                }
                return None;
            },
        }
        i = i + 1;
    }
    assert(sv.take(nodes@.len() as int) == sv);
    Some(out)
}

fn render_node(node: &Node, ctx: &Value) -> (r: Option<Vec<char>>)
    ensures
        match r {
            Some(out) => !node_fault(node_view(*node), ctx@) && out@ == render_node_spec(
                node_view(*node),
                ctx@,
            ),
            None => node_fault(node_view(*node), ctx@),
        },
    decreases *node,
{
    match node {
        Node::Literal(s) => Some(chars_of(s.as_str())),
        Node::Variable { path, fmt, filters } => match resolve_ref(ctx, path) {
            None => Some(Vec::new()),
            Some(v) => {
                let fv = apply_filters_exec(v, filters);
                match format_filtered(&fv, fmt) {
                    Ok(Some(t)) => Some(t),
                    Ok(None) => Some(Vec::new()),
                    Err(_) => None,
                }
            },
        },
        Node::IfBlock { path, children } => match resolve_ref(ctx, path) {
            None => Some(Vec::new()),
            Some(v) => {
                if is_truthy_exec(v) {
                    assert(decreases_to!(*node => children@));
                    render_nodes(children, ctx)
                } else {
                    Some(Vec::new())
                }
            },
        },
        Node::EachBlock { path, children } => match resolve_ref(ctx, path) {
            Some(Value::Array(arr)) => {
                proof {
                    lemma_values_view(arr@);
                }
                let ghost items = values_view(arr@);
                let ghost cv = nodes_view(children@);
                let mut out: Vec<char> = Vec::new();
                let mut j: usize = 0;
                assert(items.take(0) =~= Seq::<SpecValue>::empty());
                assert(decreases_to!(*node => children@));
                let ghost sp = string_views(path@);
                assert(node_view(*node) == (SpecNode::EachBlock { path: sp, children: cv }));
                while j < arr.len()
                    invariant
                        decreases_to!(*node => children@),
                        node_view(*node) == (SpecNode::EachBlock { path: sp, children: cv }),
                        resolve(ctx@, sp) == Some(SpecValue::Array(items)),
                        j <= arr@.len(),
                        items == values_view(arr@),
                        items.len() == arr@.len(),
                        forall|k: int| 0 <= k < arr@.len() ==> #[trigger] items[k] == value_view(
                            arr@[k],
                        ),
                        cv == nodes_view(children@),
                        !items_fault(cv, items.take(j as int)),
                        out@ == render_items_spec(cv, items.take(j as int)),
                    decreases arr@.len() - j,
                {
                    assert(items.take(j + 1).drop_last() == items.take(j as int));
                    assert(items.take(j + 1).last() == arr@[j as int]@);
                    match render_nodes(children, &arr[j]) {
                        Some(piece) => {
                            extend_chars(&mut out, piece.as_slice());
                        },
                        None => {
                            proof {
                                lemma_items_fault_prefix(cv, items, j + 1);
                            }
                            return None;
                        },
                    }
                    j = j + 1;
                }
                assert(items.take(arr@.len() as int) == items);
                Some(out)
            },
            _ => Some(Vec::new()),
        },
    }
}

// ---------------------------------------------------------------------------
// Compiled templates
// ---------------------------------------------------------------------------

/// A template parsed once and rendered many times.
pub struct CompiledTemplate {
    nodes: Vec<Node>,
}

impl View for CompiledTemplate {
    type V = Seq<SpecNode>;

    closed spec fn view(&self) -> Seq<SpecNode> {
        nodes_view(self.nodes@)
    }
}

impl CompiledTemplate {
    /// Parses a template.
    pub fn compile(template: &str) -> (r: Self)
        ensures
            r@ == parse_template(template@),
    {
        let t = chars_of(template);
        let (nodes, _) = parse(t.as_slice(), 0);
        CompiledTemplate { nodes }
    }

    /// Renders against a context, or `None` where a `%` time pattern is
    /// refused by the time formatter.
    pub fn try_render(&self, context: &Value) -> (r: Option<String>)
        ensures
            match r {
                Some(s) => !nodes_fault(self@, context@) && s@ == render_nodes_spec(self@, context@),
                None => nodes_fault(self@, context@),
            },
    {
        match render_nodes(&self.nodes, context) {
            Some(out) => Some(string_from_chars(out.as_slice())),
            None => None,
        }
    }

    /// Renders against a context.
    pub fn render(&self, context: &Value) -> (r: String)
        requires
            !nodes_fault(self@, context@),
        ensures
            r@ == render_nodes_spec(self@, context@),
    {
        match self.try_render(context) {
            Some(s) => s,
            None => String::new(),
        }
    }
}

} // verus!
