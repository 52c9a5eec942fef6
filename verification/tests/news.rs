use securitysmith::news::{
    article_draft, feed_error, feed_step, like_pattern, matched_clients, no_feeds_result, FeedFailure, FeedItem,
};

fn item(title: Option<&str>, link: Option<&str>, guid: Option<&str>, date: Option<&str>) -> FeedItem {
    FeedItem {
        title: title.map(|s| s.to_string()),
        link: link.map(|s| s.to_string()),
        description: Some("Body".to_string()),
        guid: guid.map(|s| s.to_string()),
        pub_date: date.map(|s| s.to_string()),
    }
}

#[test]
fn article_uses_guid_then_link_then_title() {
    let a = article_draft(&item(Some("T"), Some("https://x/1"), Some("g-1"), None));
    assert_eq!(a.title, "T");
    assert_eq!(a.guid, "g-1");
    let b = article_draft(&item(Some("T"), Some("https://x/1"), None, None));
    assert_eq!(b.guid, "https://x/1");
    let c = article_draft(&item(None, None, None, None));
    assert_eq!(c.title, "Untitled");
    assert_eq!(c.guid, "Untitled");
    assert_eq!(c.description.as_deref(), Some("Body"));
    assert_eq!(c.link, None);
}

#[test]
fn article_reads_rfc2822_dates() {
    let a = article_draft(&item(Some("T"), None, None, Some("Thu, 01 Jan 1970 00:01:40 +0000")));
    assert_eq!(a.published_at, Some(100));
    let b = article_draft(&item(Some("T"), None, None, Some("yesterday")));
    assert_eq!(b.published_at, None);
}

#[test]
fn clients_matched_by_tag_ignoring_case() {
    let clients = vec![
        (1u32, vec!["Apache".to_string(), "nginx".to_string()]),
        (2u32, vec!["Oracle".to_string()]),
        (3u32, vec![]),
        (4u32, vec!["NGINX".to_string()]),
    ];
    let r = matched_clients("Critical NGINX flaw", Some("Affects apache too"), &clients);
    assert_eq!(r, vec![1, 4]);
    let none = matched_clients("Nothing here", None, &clients);
    assert!(none.is_empty());
}

#[test]
fn client_listed_once() {
    let clients = vec![(7u32, vec!["a".to_string(), "b".to_string()]), (7u32, vec!["c".to_string()])];
    let r = matched_clients("abc", None, &clients);
    assert_eq!(r, vec![7]);
}

#[test]
fn tag_can_match_description_only() {
    let clients = vec![(5u32, vec!["windows".to_string()])];
    assert_eq!(matched_clients("Patch Tuesday", Some("Windows kernel"), &clients), vec![5]);
}

#[test]
fn feed_errors_and_patterns() {
    assert_eq!(feed_error("CISA", "fetch", "timeout"), "CISA: fetch failed: timeout");
    assert_eq!(like_pattern("nginx"), "%nginx%");
    let r = no_feeds_result();
    assert_eq!(r.new_articles, 0);
    assert_eq!(r.errors, vec!["No feeds configured.".to_string()]);
}

#[test]
fn feed_step_keeps_new_items_once() {
    let known = vec!["g-1".to_string()];
    let clients = vec![(3u32, vec!["nginx".to_string()])];
    let items = vec![
        item(Some("Old"), None, Some("g-1"), None),
        item(Some("NGINX bug"), None, Some("g-2"), None),
        item(Some("Again"), None, Some("g-2"), None),
        item(Some("Other"), Some("https://x/3"), None, None),
    ];
    let r = feed_step(&known, "CISA", &clients, &Ok(items));
    assert!(r.error.is_none());
    assert_eq!(r.articles.len(), 2);
    assert_eq!(r.articles[0].draft.guid, "g-2");
    assert_eq!(r.articles[0].matched_clients, vec![3]);
    assert_eq!(r.articles[1].draft.guid, "https://x/3");
    assert!(r.articles[1].matched_clients.is_empty());
}

#[test]
fn feed_step_reports_a_failed_feed() {
    let f = FeedFailure { step: "parse".to_string(), error: "bad xml".to_string() };
    let r = feed_step(&vec![], "CISA", &vec![], &Err(f));
    assert!(r.articles.is_empty());
    assert_eq!(r.error.as_deref(), Some("CISA: parse failed: bad xml"));
}
