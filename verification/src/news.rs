//! Security news: what a refresh keeps of each feed item, and which clients
//! an article concerns by their technology stack.

use crate::records::RefreshResult;
use crate::text::{chars_of, chars_eq, contains, has_substring, lit, lowercase, strings_view, to_lowercase};
use vstd::prelude::*;

verus! {

/// The fields of one item of a fetched RSS feed.
pub struct FeedItem {
    pub title: Option<String>,
    pub link: Option<String>,
    pub description: Option<String>,
    pub guid: Option<String>,
    pub pub_date: Option<String>,
}

/// An article as it is stored: its title ("Untitled" when the item has
/// none), its unique key within the feed (the item's GUID, else its link,
/// else its title), and the other fields as given.
pub struct ArticleDraft {
    pub title: String,
    pub guid: String,
    pub description: Option<String>,
    pub link: Option<String>,
    pub published_at: Option<i64>,
}

/// The Unix time that chrono reads from an RFC 2822 date, when it reads one.
pub uninterp spec fn rfc2822_seconds(date: Seq<char>) -> Option<i64>;

/// Calls `chrono::DateTime::parse_from_rfc2822` and takes `timestamp` of
/// the result; the value is named `rfc2822_seconds`.
#[verifier::external_body]
fn parse_rfc2822(date: &str) -> (r: Option<i64>)
    ensures
        r == rfc2822_seconds(date@),
{
    chrono::DateTime::parse_from_rfc2822(date).ok().map(|d| d.timestamp())
}

pub open spec fn opt_view(o: Option<String>) -> Option<Seq<char>> {
    match o {
        Some(s) => Some(s@),
        None => None,
    }
}

/// The stored title of an item.
pub open spec fn title_spec(title: Option<Seq<char>>) -> Seq<char> {
    match title {
        Some(t) => t,
        None => "Untitled"@,
    }
}

/// The key of an item: its GUID, else its link, else its title.
pub open spec fn guid_spec(guid: Option<Seq<char>>, link: Option<Seq<char>>, title: Seq<char>) -> Seq<char> {
    match guid {
        Some(g) => g,
        None => match link {
            Some(l) => l,
            None => title,
        },
    }
}

fn copy_opt(o: &Option<String>) -> (r: Option<String>)
    ensures
        opt_view(r) == opt_view(*o),
{
    match o {
        Some(s) => Some(crate::text::copy_string(s)),
        None => None,
    }
}

/// What is stored of a feed item.
pub fn article_draft(item: &FeedItem) -> (r: ArticleDraft)
    ensures
        r.title@ == title_spec(opt_view(item.title)),
        r.guid@ == guid_spec(opt_view(item.guid), opt_view(item.link), title_spec(opt_view(item.title))),
        opt_view(r.description) == opt_view(item.description),
        opt_view(r.link) == opt_view(item.link),
        r.published_at == (match item.pub_date {
            Some(d) => rfc2822_seconds(d@),
            None => None,
        }),
{
    let title = match &item.title {
        Some(t) => crate::text::copy_string(t),
        None => lit("Untitled"),
    };
    let guid = match &item.guid {
        Some(g) => crate::text::copy_string(g),
        None => match &item.link {
            Some(l) => crate::text::copy_string(l),
            None => crate::text::copy_string(&title),
        },
    };
    let published_at = match &item.pub_date {
        Some(d) => parse_rfc2822(d.as_str()),
        None => None,
    };
    ArticleDraft {
        title,
        guid,
        description: copy_opt(&item.description),
        link: copy_opt(&item.link),
        published_at,
    }
}

// ───────────────────────── matching clients ─────────────────────────

/// The text an article is matched on: its title and description,
/// lower-cased, with a space between.
pub open spec fn match_text(title: Seq<char>, description: Option<Seq<char>>) -> Seq<char> {
    lowercase(title) + " "@ + match description {
        Some(d) => lowercase(d),
        None => Seq::empty(),
    }
}

/// Whether one of the tags, lower-cased, occurs in the text.
pub open spec fn any_tag_hits(text: Seq<char>, tags: Seq<Seq<char>>) -> bool {
    exists|i: int| 0 <= i < tags.len() && contains(text, lowercase(#[trigger] tags[i]))
}

pub open spec fn client_view(c: (u32, Vec<String>)) -> (u32, Seq<Seq<char>>) {
    (c.0, c.1@.map_values(|t: String| t@))
}

/// The IDs of the clients concerned, each once, in the order of the
/// clients.
pub open spec fn matched_spec(text: Seq<char>, clients: Seq<(u32, Seq<Seq<char>>)>) -> Seq<u32>
    decreases clients.len(),
{
    if clients.len() == 0 {
        Seq::empty()
    } else {
        let before = matched_spec(text, clients.drop_last());
        let c = clients.last();
        if any_tag_hits(text, c.1) && !before.contains(c.0) {
            before.push(c.0)
        } else {
            before
        }
    }
}

fn tag_hits(text: &Vec<char>, tags: &Vec<String>) -> (r: bool)
    ensures
        r == any_tag_hits(text@, tags@.map_values(|t: String| t@)),
{
    let ghost tv = tags@.map_values(|t: String| t@);
    let mut i: usize = 0;
    while i < tags.len()
        invariant
            i <= tags@.len(),
            tv == tags@.map_values(|t: String| t@),
            forall|j: int| 0 <= j < i ==> !contains(text@, lowercase(#[trigger] tv[j])),
        decreases tags.len() - i,
    {
        let low = chars_of(to_lowercase(tags[i].as_str()).as_str());
        assert(tv[i as int] == tags@[i as int]@);
        if has_substring(text, &low) {
            return true;
        }
        i = i + 1;
    }
    false
}

fn has_id(v: &Vec<u32>, id: u32) -> (r: bool)
    ensures
        r == v@.contains(id),
{
    let mut i: usize = 0;
    while i < v.len()
        invariant
            i <= v@.len(),
            forall|j: int| 0 <= j < i ==> v@[j] != id,
        decreases v.len() - i,
    {
        if v[i] == id {
            assert(v@[i as int] == id);
            return true;
        }
        i = i + 1;
    }
    false
}

/// The clients an article concerns: those with a technology tag that occurs
/// in its title or description, ignoring case.
pub fn matched_clients(title: &str, description: Option<&str>, clients: &Vec<(u32, Vec<String>)>) -> (r: Vec<u32>)
    ensures
        r@ == matched_spec(
            match_text(title@, match description { Some(d) => Some(d@), None => None }),
            clients@.map_values(|c: (u32, Vec<String>)| client_view(c)),
        ),
{
    let ghost cv = clients@.map_values(|c: (u32, Vec<String>)| client_view(c));
    let mut text = to_lowercase(title);
    text.append(" ");
    match description {
        Some(d) => {
            let dl = to_lowercase(d);
            text.append(dl.as_str());
        },
        None => {},
    }
    let ghost t = match_text(title@, match description { Some(d) => Some(d@), None => None });
    assert(text@ =~= t);
    let tv = chars_of(text.as_str());
    let mut out: Vec<u32> = Vec::new();
    let mut i: usize = 0;
    while i < clients.len()
        invariant
            i <= clients@.len(),
            cv == clients@.map_values(|c: (u32, Vec<String>)| client_view(c)),
            tv@ == t,
            out@ == matched_spec(t, cv.take(i as int)),
        decreases clients.len() - i,
    {
        assert(cv.take(i + 1).drop_last() =~= cv.take(i as int));
        assert(cv.take(i + 1).last() == client_view(clients@[i as int]));
        let id = clients[i].0;
        if tag_hits(&tv, &clients[i].1) && !has_id(&out, id) {
            out.push(id);
        }
        i = i + 1;
    }
    assert(cv.take(clients.len() as int) =~= cv);
    out
}

/// The message for a feed that could not be read: the feed's name, the
/// step that failed and the error.
pub fn feed_error(feed_name: &str, step: &str, error: &str) -> (r: String)
    ensures
        r@ == feed_name@ + ": "@ + step@ + " failed: "@ + error@,
{
    let mut m = lit(feed_name);
    m.append(": ");
    m.append(step);
    m.append(" failed: ");
    m.append(error);
    m
}

/// What a refresh reports when no feed is configured.
pub fn no_feeds_result() -> (r: RefreshResult)
    ensures
        r.new_articles == 0,
        r.errors@.len() == 1,
        r.errors@[0]@ == "No feeds configured."@,
{
    let mut errors: Vec<String> = Vec::new();
    errors.push(lit("No feeds configured."));
    RefreshResult { new_articles: 0, errors }
}

/// The SQL `LIKE` pattern that finds a tag anywhere in a text.
pub fn like_pattern(tag: &str) -> (r: String)
    ensures
        r@ == "%"@ + tag@ + "%"@,
{
    let mut p = lit("%");
    p.append(tag);
    p.append("%");
    p
}


// ───────────────────────── one feed of a refresh ─────────────────────────

/// Why a feed could not be read: the step that failed ("fetch", "read
/// body" or "parse") and the error it gave.
pub struct FeedFailure {
    pub step: String,
    pub error: String,
}

/// An article to store, with the clients it concerns.
pub struct NewArticle {
    pub draft: ArticleDraft,
    pub matched_clients: Vec<u32>,
}

/// What a refresh does with one feed: the new articles to store, in the
/// order of the feed, or the error to report.
pub struct FeedStep {
    pub articles: Vec<NewArticle>,
    pub error: Option<String>,
}

/// The stored title of an item.
pub open spec fn item_title(it: FeedItem) -> Seq<char> {
    title_spec(opt_view(it.title))
}

/// The key of an item within its feed.
pub open spec fn item_guid(it: FeedItem) -> Seq<char> {
    guid_spec(opt_view(it.guid), opt_view(it.link), item_title(it))
}

pub open spec fn guids_of(items: Seq<FeedItem>) -> Seq<Seq<char>> {
    items.map_values(|it: FeedItem| item_guid(it))
}

/// The items of a feed that are new: those whose key is neither stored
/// already (`known`) nor the key of an earlier new item.
pub open spec fn new_items(known: Seq<Seq<char>>, items: Seq<FeedItem>) -> Seq<FeedItem>
    decreases items.len(),
{
    if items.len() == 0 {
        Seq::empty()
    } else {
        let before = new_items(known, items.drop_last());
        let g = item_guid(items.last());
        if known.contains(g) || guids_of(before).contains(g) {
            before
        } else {
            before.push(items.last())
        }
    }
}

/// Whether a draft is what is stored of an item.
pub open spec fn draft_of(d: ArticleDraft, it: FeedItem) -> bool {
    &&& d.title@ == item_title(it)
    &&& d.guid@ == item_guid(it)
    &&& opt_view(d.description) == opt_view(it.description)
    &&& opt_view(d.link) == opt_view(it.link)
    &&& d.published_at == (match it.pub_date {
        Some(p) => rfc2822_seconds(p@),
        None => None,
    })
}

pub open spec fn clients_view(clients: Seq<(u32, Vec<String>)>) -> Seq<(u32, Seq<Seq<char>>)> {
    clients.map_values(|c: (u32, Vec<String>)| client_view(c))
}

/// Whether a new article is what is stored for an item, with the clients
/// it concerns.
pub open spec fn article_of(a: NewArticle, it: FeedItem, clients: Seq<(u32, Vec<String>)>) -> bool {
    &&& draft_of(a.draft, it)
    &&& a.matched_clients@ == matched_spec(match_text(item_title(it), opt_view(it.description)), clients_view(clients))
}

fn has_text(v: &Vec<String>, s: &String) -> (r: bool)
    ensures
        r == strings_view(v@).contains(s@),
{
    let ghost sv = strings_view(v@);
    let k = chars_of(s.as_str());
    let mut i: usize = 0;
    while i < v.len()
        invariant
            i <= v@.len(),
            sv == strings_view(v@),
            k@ == s@,
            forall|j: int| 0 <= j < i ==> sv[j] != s@,
        decreases v.len() - i,
    {
        let c = chars_of(v[i].as_str());
        if chars_eq(&c, &k) {
            assert(sv[i as int] == s@);
            return true;
        }
        i = i + 1;
    }
    false
}

/// One feed of a refresh: a feed that could not be read gives its error and
/// no article; otherwise each new item (see `new_items`, with the keys
/// already stored for the feed) gives an article with the clients it
/// concerns.
pub fn feed_step(
    known: &Vec<String>,
    feed_name: &str,
    clients: &Vec<(u32, Vec<String>)>,
    outcome: &Result<Vec<FeedItem>, FeedFailure>,
) -> (r: FeedStep)
    ensures
        match outcome {
            Err(f) => r.articles@.len() == 0 && (r.error matches Some(m) && m@ == feed_name@ + ": "@ + f.step@
                + " failed: "@ + f.error@),
            Ok(items) => {
                let k = new_items(strings_view(known@), items@);
                &&& r.error is None
                &&& r.articles@.len() == k.len()
                &&& forall|i: int| 0 <= i < k.len() ==> article_of(#[trigger] r.articles@[i], k[i], clients@)
            },
        },
{
    let items = match outcome {
        Err(f) => {
            return FeedStep {
                articles: Vec::new(),
                error: Some(feed_error(feed_name, f.step.as_str(), f.error.as_str())),
            };
        },
        Ok(items) => items,
    };
    let ghost kv = strings_view(known@);
    let mut out: Vec<NewArticle> = Vec::new();
    let mut taken: Vec<String> = Vec::new();
    let mut i: usize = 0;
    proof {
        assert(items@.take(0) =~= Seq::<FeedItem>::empty());
        assert(strings_view(taken@) =~= guids_of(new_items(kv, items@.take(0))));
    }
    while i < items.len()
        invariant
            i <= items@.len(),
            kv == strings_view(known@),
            out@.len() == new_items(kv, items@.take(i as int)).len(),
            forall|j: int| 0 <= j < out@.len() ==> article_of(#[trigger] out@[j], new_items(kv, items@.take(i as int))[j], clients@),
            strings_view(taken@) == guids_of(new_items(kv, items@.take(i as int))),
        decreases items.len() - i,
    {
        let ghost before = new_items(kv, items@.take(i as int));
        proof {
            assert(items@.take(i + 1).drop_last() =~= items@.take(i as int));
            assert(items@.take(i + 1).last() == items@[i as int]);
        }
        let draft = article_draft(&items[i]);
        let fresh = !has_text(known, &draft.guid) && !has_text(&taken, &draft.guid);
        if fresh {
            let desc: Option<&str> = match &draft.description {
                Some(d) => Some(d.as_str()),
                None => None,
            };
            let matched = matched_clients(draft.title.as_str(), desc, clients);
            proof {
                assert(match desc { Some(d) => Some(d@), None => None } == opt_view(items@[i as int].description));
            }
            let g = crate::text::copy_string(&draft.guid);
            let ghost old_taken = taken@;
            let ghost gv = g@;
            taken.push(g);
            proof {
                assert(gv == item_guid(items@[i as int]));
                assert(strings_view(taken@) =~= strings_view(old_taken).push(gv));
            }
            let ghost item = items@[i as int];
            let ghost old_out = out@;
            out.push(NewArticle { draft, matched_clients: matched });
            proof {
                let now = new_items(kv, items@.take(i + 1));
                assert(now == before.push(item));
                assert(guids_of(now) =~= guids_of(before).push(item_guid(item)));
                assert(strings_view(taken@) =~= guids_of(now));
                assert forall|j: int| 0 <= j < out@.len() implies article_of(#[trigger] out@[j], now[j], clients@) by {
                    if j < old_out.len() {
                        assert(out@[j] == old_out[j]);
                        assert(now[j] == before[j]);
                    }
                }
            }
        } else {
            proof {
                assert(new_items(kv, items@.take(i + 1)) == before);
            }
        }
        i = i + 1;
    }
    proof {
        assert(items@.take(items@.len() as int) =~= items@);
    }
    FeedStep { articles: out, error: None }
}

} // verus!
