use rss_bot::{
    parse_channel, read_response, render, Channel, FetchError, Feed, Item, RawEntry, Store,
    SubscribeResult,
};

fn entry(title: &str) -> RawEntry {
    RawEntry {
        link: Some(format!("https://example.com/{}", title)),
        title: Some(title.to_string()),
        description: Some(format!("about {}", title)),
    }
}

fn channel(title: &str, link: &str, titles: &[&str]) -> Channel {
    Channel {
        link: link.to_string(),
        title: title.to_string(),
        description: "news of the day".to_string(),
        entries: titles.iter().map(|t| entry(t)).collect(),
    }
}

fn daily() -> Channel {
    channel("Daily News", "https://example.com", &["A", "B"])
}

#[test]
fn subscribe_and_poll_daily_news() {
    let mut store = Store::new();
    let r = store.subscribe("https://example.com/rss".to_string(), Ok(daily()));
    assert_eq!(r, SubscribeResult::Created(1));
    let feeds = store.list_subscribed();
    assert_eq!(feeds.len(), 1);
    assert_eq!(feeds[0].title, "Daily News");
    assert_eq!(feeds[0].link, "https://example.com");
    assert_eq!(feeds[0].feed_link, "https://example.com/rss");

    let first = store.poll_cycle(&vec![(1, Ok(daily()))]);
    assert_eq!(first.len(), 2);
    assert_eq!(first[0], "You have new Update\nDaily News\nA\nhttps://example.com/A");
    assert_eq!(first[1], "You have new Update\nDaily News\nB\nhttps://example.com/B");
    assert!(store.search_item_with_title(&"A".to_string()));
    assert!(store.search_item_with_title(&"B".to_string()));

    let second = store.poll_cycle(&vec![(1, Ok(daily()))]);
    assert!(second.is_empty());
}

#[test]
fn polling_twice_records_nothing_new() {
    let mut store = Store::new();
    let entries = vec![entry("x"), entry("y"), entry("x")];
    let first = store.poll_feed(4, &entries);
    assert_eq!(first.len(), 2);
    assert_eq!(first[0].title, "x");
    assert_eq!(first[0].feed_id, 4);
    assert_eq!(first[1].title, "y");
    assert!(store.poll_feed(4, &entries).is_empty());
}

#[test]
fn subscribing_twice_keeps_one_feed() {
    let mut store = Store::new();
    let u = "https://example.com/rss".to_string();
    assert_eq!(store.subscribe(u.clone(), Ok(daily())), SubscribeResult::Created(1));
    assert_eq!(store.subscribe(u.clone(), Ok(daily())), SubscribeResult::AlreadyExists);
    let n = store.list_subscribed().iter().filter(|f| f.feed_link == u).count();
    assert_eq!(n, 1);
}

#[test]
fn failed_subscription_is_reported() {
    let mut store = Store::new();
    let r = store.subscribe("https://nowhere.invalid".to_string(), Err(FetchError::Network));
    assert_eq!(r, SubscribeResult::FetchFailed(FetchError::Network));
    assert!(store.list_subscribed().is_empty());
}

#[test]
fn one_unreachable_feed_does_not_stop_the_cycle() {
    let mut store = Store::new();
    let one = channel("One", "https://one.example", &["1a"]);
    let two = channel("Two", "https://two.example", &["2a"]);
    let three = channel("Three", "https://three.example", &["3a", "3b"]);
    assert_eq!(store.subscribe("u1".to_string(), Ok(one)), SubscribeResult::Created(1));
    assert_eq!(store.subscribe("u2".to_string(), Ok(two)), SubscribeResult::Created(2));
    assert_eq!(store.subscribe("u3".to_string(), Ok(three)), SubscribeResult::Created(3));
    let fetched = vec![
        (1, Ok(channel("One", "https://one.example", &["1a"]))),
        (2, Err(FetchError::Network)),
        (3, Ok(channel("Three", "https://three.example", &["3a", "3b"]))),
    ];
    let msgs = store.poll_cycle(&fetched);
    assert_eq!(msgs.len(), 3);
    assert_eq!(msgs[0], "You have new Update\nOne\n1a\nhttps://example.com/1a");
    assert_eq!(msgs[2], "You have new Update\nThree\n3b\nhttps://example.com/3b");
    assert!(store.search_item_with_title(&"1a".to_string()));
    assert!(!store.search_item_with_title(&"2a".to_string()));
    assert!(store.search_item_with_title(&"3a".to_string()));
    assert!(store.search_item_with_title(&"3b".to_string()));
}

#[test]
fn recorded_before_notified() {
    let mut store = Store::new();
    assert_eq!(store.subscribe("u".to_string(), Ok(daily())), SubscribeResult::Created(1));
    let msgs = store.poll_cycle(&vec![(1, Ok(daily()))]);
    assert_eq!(msgs.len(), 2);
    assert!(store.search_item_with_title(&"A".to_string()));
    assert!(store.search_item_with_title(&"B".to_string()));
}

#[test]
fn unknown_feed_id_is_not_found() {
    let mut store = Store::new();
    assert_eq!(store.get_feed_link(1), None);
    assert_eq!(store.subscribe("u".to_string(), Ok(daily())), SubscribeResult::Created(1));
    assert_eq!(store.get_feed_link(1), Some("u".to_string()));
    assert_eq!(store.get_feed_link(0), None);
    assert_eq!(store.get_feed_link(2), None);
    assert_eq!(store.get_feed_link(-5), None);
}

#[test]
fn unknown_feed_in_cycle_is_skipped() {
    let mut store = Store::new();
    let msgs = store.poll_cycle(&vec![(7, Ok(daily()))]);
    assert!(msgs.is_empty());
    assert!(!store.search_item_with_title(&"A".to_string()));
}

#[test]
fn malformed_entries_are_skipped() {
    let mut store = Store::new();
    let entries = vec![
        RawEntry { link: None, title: Some("no link".to_string()), description: Some("d".to_string()) },
        RawEntry { link: Some("l".to_string()), title: None, description: Some("d".to_string()) },
        RawEntry { link: Some("l".to_string()), title: Some("t".to_string()), description: None },
        entry("ok"),
    ];
    let new = store.poll_feed(1, &entries);
    assert_eq!(new.len(), 1);
    assert_eq!(new[0].title, "ok");
    assert!(Item::from_rss_with_feed_id(1, &entries[0]).is_err());
    let it = Item::from_rss_with_feed_id(9, &entries[3]).ok().unwrap();
    assert_eq!(it.feed_id, 9);
    assert_eq!(it.link, "https://example.com/ok");
    assert_eq!(it.description, "about ok");
}

#[test]
fn new_entries_only_reads() {
    let mut store = Store::new();
    store.save_item(Item::new(1, "l".to_string(), "A".to_string(), "d".to_string()));
    let entries = vec![entry("A"), entry("C"), entry("C"), entry("D")];
    let new = store.new_entries(2, &entries);
    let titles: Vec<&str> = new.iter().map(|i| i.title.as_str()).collect();
    assert_eq!(titles, vec!["C", "D"]);
    assert!(!store.search_item_with_title(&"C".to_string()));
}

#[test]
fn save_feed_assigns_ids_and_refuses_duplicates() {
    let mut store = Store::new();
    let f = Feed::new(None, "a".to_string(), "l".to_string(), "t".to_string(), "d".to_string());
    assert_eq!(f.id, 0);
    assert_eq!(store.save_feed(f).ok(), Some(1));
    let g = Feed::new(Some(40), "b".to_string(), "l".to_string(), "t".to_string(), "d".to_string());
    assert_eq!(g.id, 40);
    assert_eq!(store.save_feed(g).ok(), Some(2));
    let h = Feed::new(None, "a".to_string(), "x".to_string(), "y".to_string(), "z".to_string());
    assert!(store.save_feed(h).is_err());
    assert_eq!(store.list_subscribed()[1].id, 2);
}

#[test]
fn feed_text_lists_title_description_link() {
    let f = Feed::from_rss(&daily(), "https://example.com/rss".to_string());
    assert_eq!(f.id, 0);
    assert_eq!(f.to_string(), "Daily News\nnews of the day\nhttps://example.com");
}

#[test]
fn update_message_text() {
    let it = Item::new(1, "https://e.com/p".to_string(), "Post".to_string(), "d".to_string());
    assert_eq!(
        it.update_message(&"Blog".to_string()),
        "You have new Update\nBlog\nPost\nhttps://e.com/p"
    );
}

#[test]
fn recent_takes_the_first_entries() {
    let mut c = channel("N", "l", &["a", "b", "c"]);
    c.entries.insert(1, RawEntry { link: None, title: Some("x".to_string()), description: None });
    let r = c.recent(3);
    assert_eq!(
        r,
        vec![
            ("a".to_string(), "https://example.com/a".to_string()),
            ("b".to_string(), "https://example.com/b".to_string())
        ]
    );
    assert_eq!(c.recent(10).len(), 3);
    assert!(c.recent(0).is_empty());
}

const DOC: &str = r#"<?xml version="1.0"?>
<rss version="2.0">
<channel>
<title>Daily News</title>
<link>https://example.com</link>
<description>All the news</description>
<item><title>A</title><link>https://example.com/a</link><description>first</description></item>
<item><title>B</title><link>https://example.com/b</link></item>
</channel>
</rss>"#;

#[test]
fn parses_an_rss_document() {
    let c = parse_channel(&DOC.as_bytes().to_vec()).ok().unwrap();
    assert_eq!(c.title, "Daily News");
    assert_eq!(c.link, "https://example.com");
    assert_eq!(c.description, "All the news");
    assert_eq!(c.entries.len(), 2);
    assert_eq!(c.entries[0].title.as_deref(), Some("A"));
    assert_eq!(c.entries[0].link.as_deref(), Some("https://example.com/a"));
    assert_eq!(c.entries[0].description.as_deref(), Some("first"));
    assert_eq!(c.entries[1].description, None);
}

#[test]
fn rejects_what_is_not_a_feed() {
    let r = parse_channel(&b"<html><body>hello</body></html>".to_vec());
    assert_eq!(r.err(), Some(FetchError::ParseFailure));
    let r = read_response(200, &b"not xml at all".to_vec());
    assert_eq!(r.err(), Some(FetchError::ParseFailure));
}

#[test]
fn bad_status_is_reported() {
    let r = read_response(404, &DOC.as_bytes().to_vec());
    assert_eq!(r.err(), Some(FetchError::BadStatus));
    assert!(read_response(200, &DOC.as_bytes().to_vec()).is_ok());
}

#[test]
fn render_builds_the_page() {
    let page = render("T", "<p>hi</p>");
    assert!(page.starts_with("<!DOCTYPE html>\n<html>\n<head>\n<meta charset=\"utf-8\">\n<style> body { font-family: sans-serif; }\n"));
    assert!(page.contains("} </style>\n<title>T</title>\n</head>\n<body>\n<p>hi</p>\n</body>\n</html>\n"));
    assert!(page.ends_with("</html>\n"));
}
