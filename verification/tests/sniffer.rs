use makefulltextfeed::feeds::{determine_feed_type, parse_feed, FeedError, FeedType};

#[test]
fn atom_root_detected() {
    let bytes = br#"<?xml version="1.0" encoding="utf-8"?>
<feed xmlns="http://www.w3.org/2005/Atom"><title>t</title></feed>"#;
    assert_eq!(determine_feed_type(bytes), Ok(FeedType::AtomFeed));
}

#[test]
fn rss_root_detected() {
    let bytes = br#"<rss version="2.0"><channel><title>t</title></channel></rss>"#;
    assert_eq!(determine_feed_type(bytes), Ok(FeedType::RssFeed));
}

#[test]
fn rdf_root_detected() {
    let bytes = br#"<?xml version="1.0"?>
<rdf:RDF xmlns:rdf="http://www.w3.org/1999/02/22-rdf-syntax-ns#"></rdf:RDF>"#;
    assert_eq!(determine_feed_type(bytes), Ok(FeedType::RssFeed));
}

#[test]
fn prolog_and_comments_are_skipped() {
    let bytes = br#"<?xml version="1.0"?><!-- a comment --><?pi data?><rss><channel></channel></rss>"#;
    assert_eq!(determine_feed_type(bytes), Ok(FeedType::RssFeed));
}

#[test]
fn other_root_rejected() {
    let bytes = br#"<html><body>nope</body></html>"#;
    assert_eq!(determine_feed_type(bytes), Err(FeedError::UnrecognizedFormat));
}

#[test]
fn empty_input_rejected() {
    assert_eq!(determine_feed_type(b""), Err(FeedError::UnrecognizedFormat));
}

#[test]
fn truncated_before_root_rejected() {
    let bytes = br#"<?xml version="1.0" encoding="utf-8"?>"#;
    assert_eq!(determine_feed_type(bytes), Err(FeedError::UnrecognizedFormat));
}

#[test]
fn json_input_rejected() {
    let bytes = br#"{"title": "not a feed", "items": []}"#;
    assert_eq!(determine_feed_type(bytes), Err(FeedError::UnrecognizedFormat));
    // The same input through the parsing entry point is rejected as
    // unrecognized, not as a malformed feed: no parser ever ran.
    match parse_feed(bytes) {
        Err(FeedError::UnrecognizedFormat) => (),
        other => panic!("expected an unrecognized format, got {:?}", other.err()),
    }
}

#[test]
fn error_descriptions() {
    assert_eq!(FeedError::UnrecognizedFormat.describe(), "unrecognized feed format");
    assert_eq!(FeedError::MalformedFeed("detail".to_string()).describe(), "malformed feed");
    assert_eq!(FeedError::FeedFetchFailed.describe(), "fetching the feed failed");
}

#[test]
fn error_messages_carry_parse_detail() {
    assert_eq!(FeedError::UnrecognizedFormat.message(), "unrecognized feed format");
    assert_eq!(
        FeedError::MalformedFeed("missing channel element".to_string()).message(),
        "malformed feed: missing channel element"
    );
    assert_eq!(FeedError::FeedFetchFailed.message(), "fetching the feed failed");
}
