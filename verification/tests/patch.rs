use makefulltextfeed::feeds::{
    get_primary_link, parse_feed, ExtractionOpts, FeedEntry, FeedError, FeedType, NativeItem,
};
use makefulltextfeed::patch::{eligible_count, patch_entries, ItemOutcome};

fn opts(
    max_items: Option<usize>,
    keep_failed: bool,
    keep_original_content: bool,
) -> ExtractionOpts {
    ExtractionOpts { max_items, keep_failed, keep_original_content }
}

fn rss_entry_with(url: Option<&str>, body: Option<&str>) -> FeedEntry {
    FeedEntry {
        url: url.map(|s| s.to_string()),
        body: body.map(|s| s.to_string()),
        native: NativeItem::Rss(rss::Item::default()),
    }
}

const RSS_THREE_ITEMS: &str = r#"<rss version="2.0"><channel>
<title>c</title><link>http://example.org</link><description>d</description>
<item><title>one</title><link>http://example.org/1</link><description>first</description></item>
<item><title>two</title><link>http://example.org/2</link><description>second</description></item>
<item><title>three</title><link>http://example.org/3</link><description>third</description></item>
</channel></rss>"#;

const ATOM_TWO_ENTRIES_NO_LINKS: &str = r#"<?xml version="1.0" encoding="utf-8"?>
<feed xmlns="http://www.w3.org/2005/Atom">
<title>t</title><id>urn:x</id><updated>2003-12-13T18:30:02Z</updated>
<entry><title>a</title><id>urn:a</id><updated>2003-12-13T18:30:02Z</updated><summary>sa</summary></entry>
<entry><title>b</title><id>urn:b</id><updated>2003-12-13T18:30:02Z</updated><summary>sb</summary></entry>
</feed>"#;

#[test]
fn eligible_count_caps_at_length() {
    assert_eq!(eligible_count(&Some(5), 3), 3);
    assert_eq!(eligible_count(&Some(2), 3), 2);
    assert_eq!(eligible_count(&None, 3), 3);
}

#[test]
fn rss_feed_capped_with_kept_failures() {
    // Three items, a cap of two, failures kept, bodies replaced.
    let mut doc = parse_feed(RSS_THREE_ITEMS.as_bytes()).unwrap();
    assert_eq!(doc.feed_type(), FeedType::RssFeed);
    let o = opts(Some(2), true, false);
    let urls = doc.candidate_urls(&o);
    assert_eq!(
        urls,
        vec![Some("http://example.org/1".to_string()), Some("http://example.org/2".to_string())]
    );
    let outcomes = vec![Some(ItemOutcome::Success("extracted".to_string())), Some(ItemOutcome::Failure)];
    doc.patch_feed(&outcomes, &o);
    assert_eq!(doc.entries.len(), 3);
    assert_eq!(doc.entries[0].body.as_deref(), Some("extracted"));
    assert_eq!(doc.entries[1].body.as_deref(), Some("second"));
    assert_eq!(doc.entries[2].body.as_deref(), Some("third"));
    let xml = doc.into_xml();
    assert!(xml.contains("extracted"));
    // The document round-trips with all three items still present.
    let again = parse_feed(xml.as_bytes()).unwrap();
    assert_eq!(again.entries.len(), 3);
    assert_eq!(again.entries[0].body.as_deref(), Some("extracted"));
    assert_eq!(again.entries[1].body.as_deref(), Some("second"));
    assert_eq!(again.entries[2].body.as_deref(), Some("third"));
}

#[test]
fn atom_feed_without_candidates_drops_everything() {
    // Two entries, no cap, failures dropped, no candidate URLs at all.
    let mut doc = parse_feed(ATOM_TWO_ENTRIES_NO_LINKS.as_bytes()).unwrap();
    assert_eq!(doc.feed_type(), FeedType::AtomFeed);
    let o = opts(None, false, false);
    let urls = doc.candidate_urls(&o);
    assert_eq!(urls, vec![None, None]);
    let outcomes = vec![None, None];
    doc.patch_feed(&outcomes, &o);
    assert_eq!(doc.entries.len(), 0);
    let xml = doc.into_xml();
    let again = parse_feed(xml.as_bytes()).unwrap();
    assert_eq!(again.entries.len(), 0);
}

#[test]
fn atom_success_writes_html_content() {
    let atom = r#"<?xml version="1.0" encoding="utf-8"?>
<feed xmlns="http://www.w3.org/2005/Atom">
<title>t</title><id>urn:x</id><updated>2003-12-13T18:30:02Z</updated>
<entry><title>a</title><id>urn:a</id><updated>2003-12-13T18:30:02Z</updated>
<link rel="alternate" href="http://example.org/a"/><summary>old summary</summary></entry>
</feed>"#;
    let mut doc = parse_feed(atom.as_bytes()).unwrap();
    let o = opts(None, false, false);
    assert_eq!(doc.candidate_urls(&o), vec![Some("http://example.org/a".to_string())]);
    let outcomes = vec![Some(ItemOutcome::Success("<p>full text</p>".to_string()))];
    doc.patch_feed(&outcomes, &o);
    assert_eq!(doc.entries.len(), 1);
    assert_eq!(doc.entries[0].body.as_deref(), Some("<p>full text</p>"));
    let xml = doc.into_xml();
    assert!(xml.contains("full text"));
    assert!(!xml.contains("old summary"));
    let again = parse_feed(xml.as_bytes()).unwrap();
    assert_eq!(again.entries[0].body.as_deref(), Some("<p>full text</p>"));
}

#[test]
fn keeping_original_content_appends_extraction() {
    let entries = vec![rss_entry_with(Some("http://e/1"), Some("original. "))];
    let outcomes = vec![Some(ItemOutcome::Success("added".to_string()))];
    let out = patch_entries(entries, &outcomes, &opts(None, false, true));
    assert_eq!(out.len(), 1);
    assert_eq!(out[0].body.as_deref(), Some("original. added"));
}

#[test]
fn keeping_original_content_with_absent_body() {
    let entries = vec![rss_entry_with(Some("http://e/1"), None)];
    let outcomes = vec![Some(ItemOutcome::Success("added".to_string()))];
    let out = patch_entries(entries, &outcomes, &opts(None, false, true));
    assert_eq!(out[0].body.as_deref(), Some("added"));
}

#[test]
fn replacement_discards_original_body() {
    let entries = vec![rss_entry_with(Some("http://e/1"), Some("original"))];
    let outcomes = vec![Some(ItemOutcome::Success("new".to_string()))];
    let out = patch_entries(entries, &outcomes, &opts(None, false, false));
    assert_eq!(out[0].body.as_deref(), Some("new"));
}

#[test]
fn dropped_failures_keep_survivor_order() {
    let entries = vec![
        rss_entry_with(Some("http://e/1"), Some("b1")),
        rss_entry_with(None, Some("b2")),
        rss_entry_with(Some("http://e/3"), Some("b3")),
        rss_entry_with(Some("http://e/4"), Some("b4")),
    ];
    let outcomes = vec![
        Some(ItemOutcome::Success("n1".to_string())),
        None,
        Some(ItemOutcome::Failure),
        Some(ItemOutcome::Success("n4".to_string())),
    ];
    let out = patch_entries(entries, &outcomes, &opts(None, false, false));
    assert_eq!(out.len(), 2);
    assert_eq!(out[0].url.as_deref(), Some("http://e/1"));
    assert_eq!(out[0].body.as_deref(), Some("n1"));
    assert_eq!(out[1].url.as_deref(), Some("http://e/4"));
    assert_eq!(out[1].body.as_deref(), Some("n4"));
}

#[test]
fn kept_failures_stay_untouched() {
    let entries = vec![
        rss_entry_with(None, Some("no url")),
        rss_entry_with(Some("http://e/2"), Some("failed")),
    ];
    let outcomes = vec![None, Some(ItemOutcome::Failure)];
    let out = patch_entries(entries, &outcomes, &opts(None, true, true));
    assert_eq!(out.len(), 2);
    assert_eq!(out[0].body.as_deref(), Some("no url"));
    assert_eq!(out[1].body.as_deref(), Some("failed"));
}

#[test]
fn items_beyond_cap_pass_through() {
    let entries = vec![
        rss_entry_with(Some("http://e/1"), Some("b1")),
        rss_entry_with(None, Some("b2")),
        rss_entry_with(None, Some("b3")),
    ];
    let outcomes = vec![Some(ItemOutcome::Success("n1".to_string()))];
    // Even with failures dropped, items past the cap survive untouched.
    let out = patch_entries(entries, &outcomes, &opts(Some(1), false, false));
    assert_eq!(out.len(), 3);
    assert_eq!(out[0].body.as_deref(), Some("n1"));
    assert_eq!(out[1].body.as_deref(), Some("b2"));
    assert_eq!(out[2].body.as_deref(), Some("b3"));
}

#[test]
fn primary_link_takes_first_alternate() {
    let links = vec![
        ("self".to_string(), "http://e/self".to_string()),
        ("alternate".to_string(), "http://e/a1".to_string()),
        ("alternate".to_string(), "http://e/a2".to_string()),
    ];
    assert_eq!(get_primary_link(&links), Some("http://e/a1".to_string()));
    let no_alt = vec![("self".to_string(), "http://e/self".to_string())];
    assert_eq!(get_primary_link(&no_alt), None);
    assert_eq!(get_primary_link(&vec![]), None);
}

#[test]
fn mime_types_per_family() {
    let rss_doc = parse_feed(RSS_THREE_ITEMS.as_bytes()).unwrap();
    assert_eq!(rss_doc.mime_type(), "text/xml");
    let atom_doc = parse_feed(ATOM_TWO_ENTRIES_NO_LINKS.as_bytes()).unwrap();
    assert_eq!(atom_doc.mime_type(), "application/atom+xml");
}

#[test]
fn recognized_root_with_broken_structure_is_malformed() {
    let bytes = br#"<feed xmlns="http://www.w3.org/2005/Atom"><entry></feed>"#;
    match parse_feed(bytes) {
        Err(e) => match &e {
            FeedError::MalformedFeed(detail) => {
                // The error carries the parser's own description of the failure.
                assert!(!detail.is_empty());
                assert_eq!(e.message(), format!("malformed feed: {}", detail));
            }
            other => panic!("expected a malformed feed, got {:?}", other),
        },
        Ok(doc) => panic!("expected a malformed feed, got a {:?} document", doc.feed_type()),
    }
}

#[test]
fn rss_item_content_preferred_over_description() {
    let rss = r#"<rss version="2.0" xmlns:content="http://purl.org/rss/1.0/modules/content/"><channel>
<title>c</title><link>http://e</link><description>d</description>
<item><link>http://e/1</link><description>desc</description><content:encoded>enc</content:encoded></item>
</channel></rss>"#;
    let doc = parse_feed(rss.as_bytes()).unwrap();
    assert_eq!(doc.entries[0].body.as_deref(), Some("enc"));
}
