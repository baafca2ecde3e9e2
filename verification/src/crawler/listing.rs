//! Reading posts out of crawled pages. The HTML parser and the CSS
//! selectors are `scraper`'s and URL resolution is `url`'s; which texts are
//! kept, how they are cleaned and what a post is made of are decided here.
use vstd::prelude::*;
use crate::text::{
    trim, trim_str, join, join_strings, string_views, collapse_ws, collapse_whitespace, chars_of,
    push_str, string_from_chars, replace_all, replace_chars,
};
use crate::clock::{rfc3339_of_millis, utc_millis_text};
use crate::config::{CrawlerEntryConfig, SelectionConfig, SubSelectionConfig};
use crate::timezone::AppTimeZone;
use crate::crawler::parser::{parse_time_spec, parse_time_string};
use crate::crawler::types::{CrawlerBasePost, CrawledPost};

verus! {

// ---------------------------------------------------------------------------
// What the outside crates compute
// ---------------------------------------------------------------------------

/// Whether `scraper` accepts a CSS selector.
pub uninterp spec fn selector_parses(selector: Seq<char>) -> bool;

/// The text of `scraper`'s error for a selector it refuses.
pub uninterp spec fn selector_error_text(selector: Seq<char>) -> Seq<char>;

/// For each element of a page matching `item_selector`, in document order,
/// the text nodes of its first descendant matching `selector`, if any.
pub uninterp spec fn first_texts_of(body: Seq<char>, item_selector: Seq<char>, selector: Seq<char>) -> Seq<
    Option<Seq<Seq<char>>>,
>;

/// For each element of a page matching `item_selector`, in document order,
/// the attribute `attr` of its first descendant matching `selector`, if that
/// descendant exists and has the attribute.
pub uninterp spec fn first_attrs_of(
    body: Seq<char>,
    item_selector: Seq<char>,
    selector: Seq<char>,
    attr: Seq<char>,
) -> Seq<Option<Seq<char>>>;

/// For each element of a page matching `item_selector`, in document order,
/// the text nodes of every descendant matching `selector`.
pub uninterp spec fn all_texts_of(body: Seq<char>, item_selector: Seq<char>, selector: Seq<char>) -> Seq<
    Seq<Seq<Seq<char>>>,
>;

/// The text nodes of the first element of a page matching `selector`.
pub uninterp spec fn page_first_texts_of(body: Seq<char>, selector: Seq<char>) -> Option<Seq<Seq<char>>>;

/// The attribute `attr` of each element of a page matching `selector` that
/// has it, in document order.
pub uninterp spec fn page_attrs_of(body: Seq<char>, selector: Seq<char>, attr: Seq<char>) -> Seq<Seq<char>>;

/// The text of a URL that `url` parses on its own.
pub uninterp spec fn parsed_url_text(s: Seq<char>) -> Option<Seq<char>>;

/// The text of `target` resolved against `base` by `url`, where `base`
/// parses and the join succeeds.
pub uninterp spec fn joined_url_text(base: Seq<char>, target: Seq<char>) -> Option<Seq<char>>;

pub open spec fn texts_view(v: Seq<Vec<String>>) -> Seq<Seq<Seq<char>>> {
    v.map_values(|t: Vec<String>| string_views(t@))
}

pub open spec fn opt_texts_view(v: Seq<Option<Vec<String>>>) -> Seq<Option<Seq<Seq<char>>>> {
    v.map_values(
        |t: Option<Vec<String>>|
            match t {
                Some(n) => Some(string_views(n@)),
                None => None,
            },
    )
}

pub open spec fn opt_strings_view(v: Seq<Option<String>>) -> Seq<Option<Seq<char>>> {
    v.map_values(
        |t: Option<String>|
            match t {
                Some(s) => Some(s@),
                None => None,
            },
    )
}

/// `scraper::Selector::parse`; the error is written as text.
#[verifier::external_body]
fn check_selector(selector: &str) -> (r: Result<(), String>)
    ensures
        match r {
            Ok(_) => selector_parses(selector@),
            Err(e) => !selector_parses(selector@) && e@ == selector_error_text(selector@),
        },
{
    match scraper::Selector::parse(selector) {
        Ok(_) => Ok(()),
        Err(e) => Err(e.to_string()),
    }
}

/// `scraper::Html::parse_document`, then for each match of `item_selector`
/// the text nodes of its first match of `selector`.
#[verifier::external_body]
fn first_texts(body: &str, item_selector: &str, selector: &str) -> (r: Vec<Option<Vec<String>>>)
    requires
        selector_parses(item_selector@),
        selector_parses(selector@),
    ensures
        opt_texts_view(r@) == first_texts_of(body@, item_selector@, selector@),
{
    let items = scraper::Selector::parse(item_selector).unwrap();
    let sel = scraper::Selector::parse(selector).unwrap();
    let doc = scraper::Html::parse_document(body);
    doc.select(&items).map(|item| item.select(&sel).next().map(|n| n.text().map(str::to_string).collect()))
        .collect()
}

/// `scraper::Html::parse_document`, then for each match of `item_selector`
/// the attribute `attr` of its first match of `selector`.
#[verifier::external_body]
fn first_attrs(body: &str, item_selector: &str, selector: &str, attr: &str) -> (r: Vec<Option<String>>)
    requires
        selector_parses(item_selector@),
        selector_parses(selector@),
    ensures
        opt_strings_view(r@) == first_attrs_of(body@, item_selector@, selector@, attr@),
{
    let items = scraper::Selector::parse(item_selector).unwrap();
    let sel = scraper::Selector::parse(selector).unwrap();
    let doc = scraper::Html::parse_document(body);
    doc.select(&items).map(|item| item.select(&sel).next().and_then(|n| n.value().attr(attr)).map(str::to_string))
        .collect()
}

/// `scraper::Html::parse_document`, then for each match of `item_selector`
/// the text nodes of every match of `selector`.
#[verifier::external_body]
fn all_texts(body: &str, item_selector: &str, selector: &str) -> (r: Vec<Vec<Vec<String>>>)
    requires
        selector_parses(item_selector@),
        selector_parses(selector@),
    ensures
        r@.map_values(|t: Vec<Vec<String>>| texts_view(t@)) == all_texts_of(body@, item_selector@, selector@),
{
    let items = scraper::Selector::parse(item_selector).unwrap();
    let sel = scraper::Selector::parse(selector).unwrap();
    let doc = scraper::Html::parse_document(body);
    doc.select(&items).map(|item| item.select(&sel).map(|n| n.text().map(str::to_string).collect()).collect())
        .collect()
}

/// `scraper::Html::parse_document`, then the text nodes of the first match
/// of `selector` under the root element.
#[verifier::external_body]
fn page_first_texts(body: &str, selector: &str) -> (r: Option<Vec<String>>)
    requires
        selector_parses(selector@),
    ensures
        match r {
            Some(n) => page_first_texts_of(body@, selector@) == Some(string_views(n@)),
            None => page_first_texts_of(body@, selector@) is None,
        },
{
    let sel = scraper::Selector::parse(selector).unwrap();
    let doc = scraper::Html::parse_document(body);
    let root = doc.root_element();
    root.select(&sel).next().map(|n| n.text().map(str::to_string).collect())
}

/// `scraper::Html::parse_document`, then the attribute `attr` of each match
/// of `selector` that has it.
#[verifier::external_body]
fn page_attrs(body: &str, selector: &str, attr: &str) -> (r: Vec<String>)
    requires
        selector_parses(selector@),
    ensures
        string_views(r@) == page_attrs_of(body@, selector@, attr@),
{
    let sel = scraper::Selector::parse(selector).unwrap();
    let doc = scraper::Html::parse_document(body);
    doc.select(&sel).filter_map(|n| n.value().attr(attr)).map(str::to_string).collect()
}

/// `url::Url::parse`, written back as text.
#[verifier::external_body]
fn parse_url(s: &str) -> (r: Option<String>)
    ensures
        match r {
            Some(u) => parsed_url_text(s@) == Some(u@),
            None => parsed_url_text(s@) is None,
        },
{
    match url::Url::parse(s) {
        Ok(u) => Some(u.to_string()),
        Err(_) => None,
    }
}

/// `url::Url::parse` of the base, then `Url::join`, written back as text.
#[verifier::external_body]
fn join_url(base: &str, target: &str) -> (r: Option<String>)
    ensures
        match r {
            Some(u) => joined_url_text(base@, target@) == Some(u@),
            None => joined_url_text(base@, target@) is None,
        },
{
    match url::Url::parse(base) {
        Ok(b) => match b.join(target) {
            Ok(u) => Some(u.to_string()),
            Err(_) => None,
        },
        Err(_) => None,
    }
}

// ---------------------------------------------------------------------------
// Cleaning the texts
// ---------------------------------------------------------------------------

/// The text of a matched element: its text nodes joined by spaces, with
/// runs of whitespace made single spaces and the ends trimmed; empty when
/// nothing matched.
pub open spec fn node_text(nodes: Option<Seq<Seq<char>>>) -> Seq<char> {
    match nodes {
        Some(n) => collapse_ws(join(n, " "@)),
        None => seq![],
    }
}

/// An attribute, trimmed; empty when absent.
pub open spec fn attr_text(a: Option<Seq<char>>) -> Seq<char> {
    match a {
        Some(s) => trim(s),
        None => seq![],
    }
}

/// A link made absolute: empty stays empty; a full URL is taken as `url`
/// writes it; else it is resolved against the base; else kept as written.
pub open spec fn absolutize_spec(base: Seq<char>, target: Seq<char>) -> Seq<char> {
    if target.len() == 0 {
        seq![]
    } else {
        match parsed_url_text(target) {
            Some(u) => u,
            None => match joined_url_text(base, target) {
                Some(u) => u,
                None => target,
            },
        }
    }
}

fn node_text_exec(nodes: &Option<Vec<String>>) -> (r: String)
    ensures
        r@ == node_text(
            match *nodes {
                Some(n) => Some(string_views(n@)),
                None => None,
            },
        ),
{
    match nodes {
        Some(n) => {
            let joined = join_strings(n, " ");
            let chars = chars_of(joined.as_str());
            let c = collapse_whitespace(chars.as_slice());
            string_from_chars(c.as_slice())
        },
        None => String::new(),
    }
}

fn attr_text_exec(a: &Option<String>) -> (r: String)
    ensures
        r@ == attr_text(
            match *a {
                Some(s) => Some(s@),
                None => None,
            },
        ),
{
    match a {
        Some(s) => trim_str(s.as_str()),
        None => String::new(),
    }
}

/// A link made absolute against a base URL.
pub fn absolutize_url(base: &str, target: &str) -> (r: String)
    ensures
        r@ == absolutize_spec(base@, target@),
{
    if target.is_empty() {
        return String::new();
    }
    match parse_url(target) {
        Some(u) => u,
        None => match join_url(base, target) {
            Some(u) => u,
            None => target.to_owned(),
        },
    }
}

/// The text of an instant, empty outside chrono's range.
pub open spec fn instant_text(millis: i64) -> Seq<char> {
    match rfc3339_of_millis(millis) {
        Some(t) => t,
        None => seq![],
    }
}

/// The posting time of a listed post as RFC 3339 text: the date read from
/// the page (without `寫於`), else the present.
pub open spec fn posted_time(raw: Seq<char>, tz: AppTimeZone, now: i64) -> Seq<char> {
    match parse_time_spec(replace_all(raw, "寫於"@, seq![]), tz) {
        Some(secs) => if -9_223_372_036_854_775 <= secs <= 9_223_372_036_854_775 && rfc3339_of_millis(
            (secs * 1000) as i64,
        ) is Some {
            rfc3339_of_millis((secs * 1000) as i64).unwrap()
        } else {
            instant_text(now)
        },
        None => instant_text(now),
    }
}

fn instant_text_exec(millis: i64) -> (r: String)
    ensures
        r@ == instant_text(millis),
{
    match utc_millis_text(millis) {
        Some(t) => t,
        None => String::new(),
    }
}

fn posted_time_exec(raw: &String, tz: &AppTimeZone, now_millis: i64) -> (r: String)
    ensures
        r@ == posted_time(raw@, *tz, now_millis),
{
    let chars = chars_of(raw.as_str());
    let marker = chars_of("寫於");
    let nothing: Vec<char> = Vec::new();
    proof {
        reveal_strlit("寫於");
    }
    let cleaned = replace_chars(chars.as_slice(), marker.as_slice(), nothing.as_slice());
    let text = string_from_chars(cleaned.as_slice());
    assert(nothing@ =~= Seq::<char>::empty());
    match parse_time_string(text.as_str(), tz) {
        Ok(secs) => {
            if -9_223_372_036_854_775 <= secs && secs <= 9_223_372_036_854_775 {
                match utc_millis_text(secs * 1000) {
                    Some(t) => t,
                    None => instant_text_exec(now_millis),
                }
            } else {
                instant_text_exec(now_millis)
            }
        },
        Err(_) => instant_text_exec(now_millis),
    }
}

// ---------------------------------------------------------------------------
// Listed posts
// ---------------------------------------------------------------------------

/// What the selectors found for each listed element, column by column.
pub struct ListingColumns {
    /// `href` of the first id match.
    pub ids: Vec<Option<String>>,
    /// Text nodes of the first title match.
    pub titles: Vec<Option<Vec<String>>>,
    /// `href` of the first link match.
    pub links: Vec<Option<String>>,
    /// Text nodes of the first time match.
    pub times: Vec<Option<Vec<String>>>,
    /// Text nodes of the first category match, when a category selector is set.
    pub categories: Option<Vec<Option<Vec<String>>>>,
    /// Text nodes of the first source match, when a source selector is set.
    pub sources: Option<Vec<Option<Vec<String>>>>,
    /// Text nodes of every tag match, when a tags selector is set.
    pub tags: Option<Vec<Vec<Vec<String>>>>,
}

/// The columns as texts.
pub struct SpecColumns {
    pub ids: Seq<Option<Seq<char>>>,
    pub titles: Seq<Option<Seq<Seq<char>>>>,
    pub links: Seq<Option<Seq<char>>>,
    pub times: Seq<Option<Seq<Seq<char>>>>,
    pub categories: Option<Seq<Option<Seq<Seq<char>>>>>,
    pub sources: Option<Seq<Option<Seq<Seq<char>>>>>,
    pub tags: Option<Seq<Seq<Seq<Seq<char>>>>>,
}

pub open spec fn columns_view(c: ListingColumns) -> SpecColumns {
    SpecColumns {
        ids: opt_strings_view(c.ids@),
        titles: opt_texts_view(c.titles@),
        links: opt_strings_view(c.links@),
        times: opt_texts_view(c.times@),
        categories: match c.categories {
            Some(v) => Some(opt_texts_view(v@)),
            None => None,
        },
        sources: match c.sources {
            Some(v) => Some(opt_texts_view(v@)),
            None => None,
        },
        tags: match c.tags {
            Some(v) => Some(v@.map_values(|t: Vec<Vec<String>>| texts_view(t@))),
            None => None,
        },
    }
}

/// The entry of a column at an index; nothing past its end.
pub open spec fn cell<T>(s: Seq<Option<T>>, i: int) -> Option<T> {
    if 0 <= i < s.len() {
        s[i]
    } else {
        None
    }
}

/// The tags of a listed element: the text of each match, leaving out blank ones.
pub open spec fn tag_texts(matches: Seq<Seq<Seq<char>>>) -> Seq<Seq<char>>
    decreases matches.len(),
{
    if matches.len() == 0 {
        seq![]
    } else {
        let rest = tag_texts(matches.drop_last());
        let t = node_text(Some(matches.last()));
        if trim(t).len() > 0 {
            rest.push(t)
        } else {
            rest
        }
    }
}

/// A listed post as texts: id, category, source, title, URL, time and tags.
pub type PostView = (Seq<char>, Seq<char>, Seq<char>, Seq<char>, Seq<char>, Seq<char>, Seq<Seq<char>>);

pub open spec fn base_post_view(p: CrawlerBasePost) -> PostView {
    (p.id@, p.category@, p.source_name@, p.title@, p.url@, p.time@, string_views(p.tags@))
}

/// The post made of the `i`-th listed element, unless its id, title or URL
/// is empty.
pub open spec fn item_post(
    c: SpecColumns,
    i: int,
    entry_url: Seq<char>,
    entry_name: Seq<char>,
    tz: AppTimeZone,
    now: i64,
) -> Option<PostView> {
    let id = attr_text(cell(c.ids, i));
    let title = node_text(cell(c.titles, i));
    let url = absolutize_spec(entry_url, attr_text(cell(c.links, i)));
    if id.len() == 0 || title.len() == 0 || url.len() == 0 {
        None
    } else {
        Some(
            (
                id,
                match c.categories {
                    Some(col) => node_text(cell(col, i)),
                    None => seq![],
                },
                match c.sources {
                    Some(col) => node_text(cell(col, i)),
                    None => entry_name,
                },
                title,
                url,
                posted_time(node_text(cell(c.times, i)), tz, now),
                match c.tags {
                    Some(col) => if 0 <= i < col.len() {
                        tag_texts(col[i])
                    } else {
                        seq![]
                    },
                    None => seq![],
                },
            ),
        )
    }
}

/// The posts of the first `n` listed elements, in order.
pub open spec fn listing_posts(
    c: SpecColumns,
    n: int,
    entry_url: Seq<char>,
    entry_name: Seq<char>,
    tz: AppTimeZone,
    now: i64,
) -> Seq<PostView>
    decreases n,
{
    if n <= 0 {
        seq![]
    } else {
        let rest = listing_posts(c, n - 1, entry_url, entry_name, tz, now);
        match item_post(c, n - 1, entry_url, entry_name, tz, now) {
            Some(p) => rest.push(p),
            None => rest,
        }
    }
}

fn cell_texts(col: &Vec<Option<Vec<String>>>, i: usize) -> (r: String)
    ensures
        r@ == node_text(cell(opt_texts_view(col@), i as int)),
{
    if i < col.len() {
        node_text_exec(&col[i])
    } else {
        String::new()
    }
}

fn cell_attr(col: &Vec<Option<String>>, i: usize) -> (r: String)
    ensures
        r@ == attr_text(cell(opt_strings_view(col@), i as int)),
{
    if i < col.len() {
        attr_text_exec(&col[i])
    } else {
        String::new()
    }
}

fn tag_texts_exec(matches: &Vec<Vec<String>>) -> (r: Vec<String>)
    ensures
        string_views(r@) == tag_texts(texts_view(matches@)),
{
    let ghost all = texts_view(matches@);
    let mut out: Vec<String> = Vec::new();
    let mut i: usize = 0;
    assert(all.take(0).len() == 0);
    while i < matches.len()
        invariant
            i <= matches@.len(),
            all == texts_view(matches@),
            string_views(out@) == tag_texts(all.take(i as int)),
        decreases matches@.len() - i,
    {
        assert(all.take(i + 1).drop_last() =~= all.take(i as int));
        assert(all.take(i + 1).last() == string_views(matches@[i as int]@));
        let t = node_text_exec(&Some(matches[i].clone()));
        if !trim_str(t.as_str()).as_str().is_empty() {
            let ghost before = out@;
            out.push(t);
            assert(string_views(out@) =~= string_views(before).push(out@.last()@));
        }
        i = i + 1;
    }
    assert(all.take(matches@.len() as int) =~= all);
    out
}

/// The posts of a listing page, from what its selectors found.
pub fn posts_from_listing(
    entry: &CrawlerEntryConfig,
    columns: &ListingColumns,
    tz: &AppTimeZone,
    now_millis: i64,
) -> (r: Vec<CrawlerBasePost>)
    ensures
        r@.map_values(|p: CrawlerBasePost| base_post_view(p)) == listing_posts(
            columns_view(*columns),
            columns.ids@.len() as int,
            entry.url@,
            entry.name@,
            *tz,
            now_millis,
        ),
{
    let ghost c = columns_view(*columns);
    let mut out: Vec<CrawlerBasePost> = Vec::new();
    let mut i: usize = 0;
    while i < columns.ids.len()
        invariant
            i <= columns.ids@.len(),
            c == columns_view(*columns),
            out@.map_values(|p: CrawlerBasePost| base_post_view(p)) == listing_posts(
                c,
                i as int,
                entry.url@,
                entry.name@,
                *tz,
                now_millis,
            ),
        decreases columns.ids@.len() - i,
    {
        let id = cell_attr(&columns.ids, i);
        let title = cell_texts(&columns.titles, i);
        let link = cell_attr(&columns.links, i);
        let url = absolutize_url(entry.url.as_str(), link.as_str());
        if !id.as_str().is_empty() && !title.as_str().is_empty() && !url.as_str().is_empty() {
            let category = match &columns.categories {
                Some(col) => cell_texts(col, i),
                None => String::new(),
            };
            let source_name = match &columns.sources {
                Some(col) => cell_texts(col, i),
                None => entry.name.clone(),
            };
            let raw_time = cell_texts(&columns.times, i);
            let time = posted_time_exec(&raw_time, tz, now_millis);
            let tags = match &columns.tags {
                Some(col) => if i < col.len() {
                    tag_texts_exec(&col[i])
                } else {
                    Vec::new()
                },
                None => Vec::new(),
            };
            let ghost before = out@;
            let post = CrawlerBasePost { id, category, source_name, title, url, time, tags };
            assert(item_post(c, i as int, entry.url@, entry.name@, *tz, now_millis) == Some(
                base_post_view(post),
            ));
            out.push(post);
            assert(out@.map_values(|p: CrawlerBasePost| base_post_view(p)) =~= before.map_values(
                |p: CrawlerBasePost| base_post_view(p),
            ).push(base_post_view(out@.last())));
        } else {
            assert(item_post(c, i as int, entry.url@, entry.name@, *tz, now_millis) is None);
        }
        i = i + 1;
    }
    out
}

// ---------------------------------------------------------------------------
// Pages
// ---------------------------------------------------------------------------

/// An optional selector counts when it is set and not empty.
pub open spec fn optional_selector(s: Option<String>) -> Option<Seq<char>> {
    match s {
        Some(x) => if x@.len() > 0 {
            Some(x@)
        } else {
            None
        },
        None => None,
    }
}

pub open spec fn optional_selector_error(s: Option<String>) -> Option<Seq<char>> {
    match optional_selector(s) {
        Some(x) => if selector_parses(x) {
            None
        } else {
            Some("invalid selector '"@ + x + "': "@ + selector_error_text(x))
        },
        None => None,
    }
}

/// The first selector of a listing that `scraper` refuses, as the error
/// reported for it.
pub open spec fn selectors_error(sel: SelectionConfig) -> Option<Seq<char>> {
    if !selector_parses(sel.item_selector@) {
        Some("invalid item_selector: "@ + selector_error_text(sel.item_selector@))
    } else if !selector_parses(sel.id_selector@) {
        Some("invalid id_selector: "@ + selector_error_text(sel.id_selector@))
    } else if !selector_parses(sel.title_selector@) {
        Some("invalid title_selector: "@ + selector_error_text(sel.title_selector@))
    } else if !selector_parses(sel.link_selector@) {
        Some("invalid link_selector: "@ + selector_error_text(sel.link_selector@))
    } else if !selector_parses(sel.time_selector@) {
        Some("invalid time_selector: "@ + selector_error_text(sel.time_selector@))
    } else if optional_selector_error(sel.category_selector) is Some {
        optional_selector_error(sel.category_selector)
    } else if optional_selector_error(sel.source_selector) is Some {
        optional_selector_error(sel.source_selector)
    } else {
        optional_selector_error(sel.tags_selector)
    }
}

/// What the selectors of a listing find on a page.
pub open spec fn columns_of(body: Seq<char>, sel: SelectionConfig) -> SpecColumns {
    let item = sel.item_selector@;
    SpecColumns {
        ids: first_attrs_of(body, item, sel.id_selector@, "href"@),
        titles: first_texts_of(body, item, sel.title_selector@),
        links: first_attrs_of(body, item, sel.link_selector@, "href"@),
        times: first_texts_of(body, item, sel.time_selector@),
        categories: match optional_selector(sel.category_selector) {
            Some(c) => Some(first_texts_of(body, item, c)),
            None => None,
        },
        sources: match optional_selector(sel.source_selector) {
            Some(c) => Some(first_texts_of(body, item, c)),
            None => None,
        },
        tags: match optional_selector(sel.tags_selector) {
            Some(c) => Some(all_texts_of(body, item, c)),
            None => None,
        },
    }
}

fn prefixed(prefix: &str, text: &str) -> (r: String)
    ensures
        r@ == prefix@ + text@,
{
    let mut out: Vec<char> = Vec::new();
    push_str(&mut out, prefix);
    push_str(&mut out, text);
    string_from_chars(out.as_slice())
}

fn required_selector(prefix: &str, selector: &String) -> (r: Result<(), String>)
    ensures
        match r {
            Ok(_) => selector_parses(selector@),
            Err(e) => !selector_parses(selector@) && e@ == prefix@ + selector_error_text(selector@),
        },
{
    match check_selector(selector.as_str()) {
        Ok(()) => Ok(()),
        Err(e) => Err(prefixed(prefix, e.as_str())),
    }
}

fn optional_selector_exec(s: &Option<String>) -> (r: Result<Option<&String>, String>)
    ensures
        match r {
            Ok(Some(x)) => optional_selector(*s) == Some(x@) && selector_parses(x@)
                && optional_selector_error(*s) is None,
            Ok(None) => optional_selector(*s) is None,
            Err(e) => optional_selector_error(*s) == Some(e@),
        },
{
    match s {
        Some(x) => {
            if x.as_str().is_empty() {
                return Ok(None);
            }
            match check_selector(x.as_str()) {
                Ok(()) => Ok(Some(x)),
                Err(e) => {
                    let mut out: Vec<char> = Vec::new();
                    push_str(&mut out, "invalid selector '");
                    push_str(&mut out, x.as_str());
                    push_str(&mut out, "': ");
                    push_str(&mut out, e.as_str());
                    Err(string_from_chars(out.as_slice()))
                },
            }
        },
        None => Ok(None),
    }
}

/// The posts listed on a page, or the error of the first selector `scraper`
/// refuses. Posts without an id, title or URL are left out; a time that
/// cannot be read is the present (milliseconds since the Unix epoch).
pub fn parse_base_posts(
    entry: &CrawlerEntryConfig,
    body: &str,
    tz: &AppTimeZone,
    now_millis: i64,
) -> (r: Result<Vec<CrawlerBasePost>, String>)
    ensures
        match r {
            Ok(posts) => selectors_error(entry.selectors) is None && posts@.map_values(
                |p: CrawlerBasePost| base_post_view(p),
            ) == listing_posts(
                columns_of(body@, entry.selectors),
                columns_of(body@, entry.selectors).ids.len() as int,
                entry.url@,
                entry.name@,
                *tz,
                now_millis,
            ),
            Err(e) => selectors_error(entry.selectors) == Some(e@),
        },
{
    let s = &entry.selectors;
    required_selector("invalid item_selector: ", &s.item_selector)?;
    required_selector("invalid id_selector: ", &s.id_selector)?;
    required_selector("invalid title_selector: ", &s.title_selector)?;
    required_selector("invalid link_selector: ", &s.link_selector)?;
    required_selector("invalid time_selector: ", &s.time_selector)?;
    let category = optional_selector_exec(&s.category_selector)?;
    let source = optional_selector_exec(&s.source_selector)?;
    let tags = optional_selector_exec(&s.tags_selector)?;
    let item = s.item_selector.as_str();
    let columns = ListingColumns {
        ids: first_attrs(body, item, s.id_selector.as_str(), "href"),
        titles: first_texts(body, item, s.title_selector.as_str()),
        links: first_attrs(body, item, s.link_selector.as_str(), "href"),
        times: first_texts(body, item, s.time_selector.as_str()),
        categories: match category {
            Some(c) => Some(first_texts(body, item, c.as_str())),
            None => None,
        },
        sources: match source {
            Some(c) => Some(first_texts(body, item, c.as_str())),
            None => None,
        },
        tags: match tags {
            Some(c) => Some(all_texts(body, item, c.as_str())),
            None => None,
        },
    };
    assert(columns_view(columns) == columns_of(body@, entry.selectors));
    Ok(posts_from_listing(entry, &columns, tz, now_millis))
}

/// Each link made absolute against the post's URL, leaving out empty ones.
pub open spec fn absolute_links(base: Seq<char>, hrefs: Seq<Seq<char>>) -> Seq<Seq<char>>
    decreases hrefs.len(),
{
    if hrefs.len() == 0 {
        seq![]
    } else {
        let rest = absolute_links(base, hrefs.drop_last());
        let u = absolutize_spec(base, hrefs.last());
        if u.len() > 0 {
            rest.push(u)
        } else {
            rest
        }
    }
}

fn absolute_links_exec(base: &str, hrefs: &Vec<String>) -> (r: Vec<String>)
    ensures
        string_views(r@) == absolute_links(base@, string_views(hrefs@)),
{
    let ghost all = string_views(hrefs@);
    let mut out: Vec<String> = Vec::new();
    let mut i: usize = 0;
    assert(all.take(0).len() == 0);
    while i < hrefs.len()
        invariant
            i <= hrefs@.len(),
            all == string_views(hrefs@),
            string_views(out@) == absolute_links(base@, all.take(i as int)),
        decreases hrefs@.len() - i,
    {
        assert(all.take(i + 1).drop_last() =~= all.take(i as int));
        assert(all.take(i + 1).last() == hrefs@[i as int]@);
        let u = absolutize_url(base, hrefs[i].as_str());
        if !u.as_str().is_empty() {
            let ghost before = out@;
            out.push(u);
            assert(string_views(out@) =~= string_views(before).push(out@.last()@));
        }
        i = i + 1;
    }
    assert(all.take(hrefs@.len() as int) =~= all);
    out
}

/// A post with its page read: id, category, source, title, URL, content,
/// author unit, attachments, time and tags.
pub type FullPostView = (
    Seq<char>,
    Seq<char>,
    Seq<char>,
    Seq<char>,
    Seq<char>,
    Seq<char>,
    Seq<char>,
    Seq<Seq<char>>,
    Seq<char>,
    Seq<Seq<char>>,
);

pub open spec fn full_post_view(p: CrawledPost) -> FullPostView {
    (
        p.id@,
        p.category@,
        p.source_name@,
        p.title@,
        p.url@,
        p.content@,
        p.author_unit@,
        string_views(p.attachments@),
        p.time@,
        string_views(p.tags@),
    )
}

/// The post of a page: the listed post with the page's content, author unit
/// and absolute attachment links; without page selectors, just the listed
/// post. The source falls back to the entry's name when blank.
pub open spec fn full_post_spec(entry: CrawlerEntryConfig, base: CrawlerBasePost, body: Seq<char>) -> Result<
    FullPostView,
    Seq<char>,
> {
    let source = if trim(base.source_name@).len() == 0 {
        entry.name@
    } else {
        base.source_name@
    };
    match entry.sub_selectors {
        None => Ok(
            (
                base.id@,
                base.category@,
                source,
                base.title@,
                base.url@,
                seq![],
                seq![],
                seq![],
                base.time@,
                string_views(base.tags@),
            ),
        ),
        Some(sub) => if !selector_parses(sub.author_unit@) {
            Err("invalid author_unit selector: "@ + selector_error_text(sub.author_unit@))
        } else if !selector_parses(sub.full_content@) {
            Err("invalid full_content selector: "@ + selector_error_text(sub.full_content@))
        } else if !selector_parses(sub.attachments@) {
            Err("invalid attachments selector: "@ + selector_error_text(sub.attachments@))
        } else {
            Ok(
                (
                    base.id@,
                    base.category@,
                    source,
                    base.title@,
                    base.url@,
                    node_text(page_first_texts_of(body, sub.full_content@)),
                    node_text(page_first_texts_of(body, sub.author_unit@)),
                    absolute_links(base.url@, page_attrs_of(body, sub.attachments@, "href"@)),
                    base.time@,
                    string_views(base.tags@),
                ),
            )
        },
    }
}

pub fn parse_full_post(entry: &CrawlerEntryConfig, base_post: &CrawlerBasePost, body: &str) -> (r:
    Result<CrawledPost, String>)
    ensures
        match r {
            Ok(p) => full_post_spec(*entry, *base_post, body@) == Ok::<FullPostView, Seq<char>>(
                full_post_view(p),
            ),
            Err(e) => full_post_spec(*entry, *base_post, body@) == Err::<FullPostView, Seq<char>>(e@),
        },
{
    let source_name = if trim_str(base_post.source_name.as_str()).as_str().is_empty() {
        entry.name.clone()
    } else {
        base_post.source_name.clone()
    };
    let sub = match &entry.sub_selectors {
        Some(s) => s,
        None => {
            let post = CrawledPost {
                id: base_post.id.clone(),
                category: base_post.category.clone(),
                source_name,
                title: base_post.title.clone(),
                url: base_post.url.clone(),
                content: String::new(),
                author_unit: String::new(),
                attachments: Vec::new(),
                time: base_post.time.clone(),
                tags: crate::text::clone_strings(&base_post.tags),
            };
            assert(string_views(post.attachments@) =~= Seq::<Seq<char>>::empty());
            return Ok(post);
        },
    };
    required_selector("invalid author_unit selector: ", &sub.author_unit)?;
    required_selector("invalid full_content selector: ", &sub.full_content)?;
    required_selector("invalid attachments selector: ", &sub.attachments)?;
    let content = node_text_exec(&page_first_texts(body, sub.full_content.as_str()));
    let author_unit = node_text_exec(&page_first_texts(body, sub.author_unit.as_str()));
    let hrefs = page_attrs(body, sub.attachments.as_str(), "href");
    let attachments = absolute_links_exec(base_post.url.as_str(), &hrefs);
    Ok(
        CrawledPost {
            id: base_post.id.clone(),
            category: base_post.category.clone(),
            source_name,
            title: base_post.title.clone(),
            url: base_post.url.clone(),
            content,
            author_unit,
            attachments,
            time: base_post.time.clone(),
            tags: crate::text::clone_strings(&base_post.tags),
        },
    )
}

} // verus!
