//! The decisions of a crawler round: which entries are due, how long a
//! request may take, and which listed posts are new.
use vstd::prelude::*;
use crate::text::{push_str, string_from_chars, string_views, str_eq};
use crate::config::{CrawlerConfig, CrawlerEntryConfig};
use crate::crawler::types::CrawlerBasePost;
use crate::crawler::listing::{PostView, base_post_view};

verus! {

/// A round is skipped while the crawler is off or has no entries.
pub fn crawler_idle(cfg: &CrawlerConfig) -> (r: bool)
    ensures
        r == (!cfg.enabled || cfg.entries@.len() == 0),
{
    !cfg.enabled || cfg.entries.len() == 0
}

/// The key an entry's next run is kept under: its name, `::` and its URL.
pub fn entry_key(entry: &CrawlerEntryConfig) -> (r: String)
    ensures
        r@ == entry.name@ + "::"@ + entry.url@,
{
    let mut out: Vec<char> = Vec::new();
    push_str(&mut out, entry.name.as_str());
    push_str(&mut out, "::");
    push_str(&mut out, entry.url.as_str());
    string_from_chars(out.as_slice())
}

/// An entry runs when its next run is not after the present; an entry never
/// run is due.
pub fn entry_due(next_run: Option<i64>, now: i64) -> (r: bool)
    ensures
        r == match next_run {
            Some(t) => now >= t,
            None => true,
        },
{
    match next_run {
        Some(t) => now >= t,
        None => true,
    }
}

/// How long a request may take, in milliseconds: the entry's timeout, at
/// least one second.
pub fn request_timeout_ms(timeout_ms: u64) -> (r: u64)
    ensures
        r == if timeout_ms < 1000 { 1000 } else { timeout_ms },
{
    if timeout_ms < 1000 {
        1000
    } else {
        timeout_ms
    }
}

/// The instant before which seen posts are forgotten.
pub fn prune_cutoff(now: i64, ttl_seconds: u64) -> (r: i64)
    requires
        ttl_seconds <= i64::MAX,
        now - ttl_seconds >= i64::MIN,
    ensures
        r == now - ttl_seconds,
{
    now - (ttl_seconds as i64)
}

/// The listed posts that are new: those with a URL that no stored
/// announcement has, in the order listed.
pub open spec fn new_posts(posts: Seq<PostView>, existing: Seq<Seq<char>>) -> Seq<PostView>
    decreases posts.len(),
{
    if posts.len() == 0 {
        seq![]
    } else {
        let rest = new_posts(posts.drop_last(), existing);
        let p = posts.last();
        if p.4.len() > 0 && !existing.contains(p.4) {
            rest.push(p)
        } else {
            rest
        }
    }
}

/// The URLs of posts, to ask the store which are known.
pub fn post_urls(posts: &Vec<CrawlerBasePost>) -> (r: Vec<String>)
    ensures
        string_views(r@) == posts@.map_values(|p: CrawlerBasePost| p.url@),
{
    let mut out: Vec<String> = Vec::new();
    let mut i: usize = 0;
    while i < posts.len()
        invariant
            i <= posts@.len(),
            string_views(out@) == posts@.take(i as int).map_values(|p: CrawlerBasePost| p.url@),
        decreases posts@.len() - i,
    {
        let ghost before = out@;
        out.push(posts[i].url.clone());
        assert(string_views(out@) =~= string_views(before).push(posts@[i as int].url@));
        assert(posts@.take(i + 1).map_values(|p: CrawlerBasePost| p.url@) =~= posts@.take(
            i as int,
        ).map_values(|p: CrawlerBasePost| p.url@).push(posts@[i as int].url@));
        i = i + 1;
    }
    assert(posts@.take(posts@.len() as int) =~= posts@);
    out
}

fn known_url(existing: &Vec<String>, url: &String) -> (r: bool)
    ensures
        r == string_views(existing@).contains(url@),
{
    let mut i: usize = 0;
    while i < existing.len()
        invariant
            i <= existing@.len(),
            forall|j: int| 0 <= j < i ==> existing@[j]@ != url@,
        decreases existing@.len() - i,
    {
        if str_eq(existing[i].as_str(), url.as_str()) {
            assert(string_views(existing@)[i as int] == url@);
            return true;
        }
        i = i + 1;
    }
    assert(!string_views(existing@).contains(url@)) by {
        if string_views(existing@).contains(url@) {
            let k = choose|k: int|
                0 <= k < string_views(existing@).len() && string_views(existing@)[k] == url@;
            assert(existing@[k]@ == url@);
        }
    }
    false
}

/// Keeps the new posts: those with a URL that is not among the stored ones.
pub fn select_new_posts(posts: Vec<CrawlerBasePost>, existing_urls: &Vec<String>) -> (r: Vec<
    CrawlerBasePost,
>)
    ensures
        r@.map_values(|p: CrawlerBasePost| base_post_view(p)) == new_posts(
            posts@.map_values(|p: CrawlerBasePost| base_post_view(p)),
            string_views(existing_urls@),
        ),
{
    let ghost all = posts@.map_values(|p: CrawlerBasePost| base_post_view(p));
    let ghost ex = string_views(existing_urls@);
    let mut out: Vec<CrawlerBasePost> = Vec::new();
    let mut rest = posts;
    let ghost input = rest@;
    let n = rest.len();
    let mut i: usize = 0;
    assert(all.take(0).len() == 0);
    assert(input.skip(0) =~= input);
    while i < n
        invariant
            n == input.len(),
            i <= n,
            rest@ == input.skip(i as int),
            all == input.map_values(|p: CrawlerBasePost| base_post_view(p)),
            ex == string_views(existing_urls@),
            out@.map_values(|p: CrawlerBasePost| base_post_view(p)) == new_posts(
                all.take(i as int),
                ex,
            ),
        decreases n - i,
    {
        let p = rest.remove(0);
        assert(p == input[i as int]);
        assert(rest@ =~= input.skip(i + 1));
        assert(all.take(i + 1).drop_last() =~= all.take(i as int));
        assert(all.take(i + 1).last() == base_post_view(p));
        if !p.url.as_str().is_empty() && !known_url(existing_urls, &p.url) {
            let ghost prev = out@;
            out.push(p);
            assert(out@.map_values(|q: CrawlerBasePost| base_post_view(q)) =~= prev.map_values(
                |q: CrawlerBasePost| base_post_view(q),
            ).push(base_post_view(out@.last())));
        }
        i = i + 1;
    }
    assert(all.take(n as int) =~= all);
    out
}

} // verus!
