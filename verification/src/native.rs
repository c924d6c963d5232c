//! The boundary to code the verifier does not read: type declarations for
//! the native feed crates' documents and items, thin wrappers around the
//! calls the library makes into them, and one wrapper for a `String` method
//! the standard library specifications do not cover.

use vstd::prelude::*;

verus! {

/// What the first start tag of an XML document is, if the document has one
/// that the reader reaches: the classification key for format sniffing.
pub uninterp spec fn root_tag_of(content: Seq<u8>) -> Option<Seq<u8>>;

/// Relies on quick_xml's `Reader::read_event_into`: declarations, comments,
/// processing instructions and text before the first start tag are skipped;
/// the name of the first start tag is returned, or `None` when the input
/// ends, or stops being well-formed XML, before one is found. The result
/// depends on the bytes alone.
#[verifier::external_body]
pub(crate) fn first_start_tag(content: &[u8]) -> (r: Option<Vec<u8>>)
    ensures
        match r {
            Some(name) => root_tag_of(content@) == Some(name@),
            None => root_tag_of(content@) is None,
        },
{
    let mut reader = quick_xml::reader::Reader::from_reader(content);
    let mut buf: Vec<u8> = Vec::new();
    loop {
        match reader.read_event_into(&mut buf) {
            Err(_) => return None,
            Ok(quick_xml::events::Event::Eof) => return None,
            Ok(quick_xml::events::Event::Start(e)) => {
                return Some(e.name().as_ref().as_bytes().to_vec());
            },
            _ => (),
        }
        buf.clear();
    }
}

/// Relies on `String::push`: appends exactly the one character.
#[verifier::external_body]
pub(crate) fn push_char(s: &mut String, c: char)
    ensures
        final(s)@ == old(s)@.push(c),
{
    s.push(c);
}

#[verifier::external_type_specification]
#[verifier::external_body]
pub struct ExRssChannel(rss::Channel);

#[verifier::external_type_specification]
#[verifier::external_body]
pub struct ExRssItem(rss::Item);

#[verifier::external_type_specification]
#[verifier::external_body]
pub struct ExAtomFeed(atom_syndication::Feed);

#[verifier::external_type_specification]
#[verifier::external_body]
pub struct ExAtomEntry(atom_syndication::Entry);

#[verifier::external_type_specification]
#[verifier::external_body]
pub struct ExAtomContent(atom_syndication::Content);

/// What the RSS parser says of these bytes: nothing when it accepts them,
/// else its description of the failure. A function of the bytes alone.
pub uninterp spec fn rss_parse_error_of(content: Seq<u8>) -> Option<Seq<char>>;

/// What the Atom parser says of these bytes: nothing when it accepts them,
/// else its description of the failure. A function of the bytes alone.
pub uninterp spec fn atom_parse_error_of(content: Seq<u8>) -> Option<Seq<char>>;

/// Relies on `rss::Channel::read_from` to parse an RSS document; a failure
/// hands back the parser's own description.
#[verifier::external_body]
pub(crate) fn parse_rss_channel(content: &[u8]) -> (r: Result<rss::Channel, String>)
    ensures
        (r is Ok) == (rss_parse_error_of(content@) is None),
        (match r {
            Err(d) => Some(d@) == rss_parse_error_of(content@),
            Ok(_) => true,
        }),
{
    rss::Channel::read_from(content).map_err(|e| e.to_string())
}

/// Relies on `atom_syndication::Feed::read_from` to parse an Atom document;
/// a failure hands back the parser's own description.
#[verifier::external_body]
pub(crate) fn parse_atom_feed(content: &[u8]) -> (r: Result<atom_syndication::Feed, String>)
    ensures
        (r is Ok) == (atom_parse_error_of(content@) is None),
        (match r {
            Err(d) => Some(d@) == atom_parse_error_of(content@),
            Ok(_) => true,
        }),
{
    atom_syndication::Feed::read_from(content).map_err(|e| e.to_string())
}

/// Relies on `rss::Channel::items`; hands the items out as an owned list.
#[verifier::external_body]
pub(crate) fn channel_items(ch: &rss::Channel) -> Vec<rss::Item> {
    ch.items().to_vec()
}

/// Relies on `rss::Item::link`.
#[verifier::external_body]
pub(crate) fn rss_item_link(item: &rss::Item) -> Option<String> {
    item.link().map(|s| s.to_string())
}

/// Relies on `rss::Item::content`.
#[verifier::external_body]
pub(crate) fn rss_item_content(item: &rss::Item) -> Option<String> {
    item.content().map(|s| s.to_string())
}

/// Relies on `rss::Item::description`.
#[verifier::external_body]
pub(crate) fn rss_item_description(item: &rss::Item) -> Option<String> {
    item.description().map(|s| s.to_string())
}

/// Relies on `rss::Item::set_content` to write the item's new body.
#[verifier::external_body]
pub(crate) fn rss_item_with_content(item: rss::Item, body: String) -> rss::Item {
    let mut item = item;
    item.set_content(Some(body));
    item
}

/// Relies on `rss::Channel::set_items` to replace the item collection.
#[verifier::external_body]
pub(crate) fn channel_with_items(ch: rss::Channel, items: Vec<rss::Item>) -> rss::Channel {
    let mut ch = ch;
    ch.set_items(items);
    ch
}

/// Relies on `rss::Channel`'s `Display` impl to serialize the document.
#[verifier::external_body]
pub(crate) fn channel_to_xml(ch: &rss::Channel) -> String {
    ch.to_string()
}

/// Relies on `atom_syndication::Feed::entries`; hands the entries out as an
/// owned list.
#[verifier::external_body]
pub(crate) fn atom_entries(feed: &atom_syndication::Feed) -> Vec<atom_syndication::Entry> {
    feed.entries().to_vec()
}

/// Relies on `atom_syndication::Entry::links`; hands each link out as its
/// `(rel, href)` pair.
#[verifier::external_body]
pub(crate) fn atom_entry_links(entry: &atom_syndication::Entry) -> Vec<(String, String)> {
    entry.links().iter().map(|l| (l.rel().to_string(), l.href().to_string())).collect()
}

/// Relies on `atom_syndication::Entry::content`.
#[verifier::external_body]
pub(crate) fn atom_entry_content(entry: &atom_syndication::Entry) -> Option<atom_syndication::Content> {
    entry.content().cloned()
}

/// Relies on `atom_syndication::Content::value`.
#[verifier::external_body]
pub(crate) fn atom_content_value(content: &atom_syndication::Content) -> Option<String> {
    content.value().map(|s| s.to_string())
}

/// Relies on `atom_syndication::Entry::summary`; hands out the text value.
#[verifier::external_body]
pub(crate) fn atom_entry_summary(entry: &atom_syndication::Entry) -> Option<String> {
    entry.summary().map(|t| t.value.clone())
}

/// Relies on `atom_syndication::Entry::set_summary` and `set_content` to
/// clear the summary and write the new body as content declared `html`.
#[verifier::external_body]
pub(crate) fn atom_entry_with_body(entry: atom_syndication::Entry, body: String) -> atom_syndication::Entry {
    let mut entry = entry;
    entry.set_summary(None);
    let mut content = atom_syndication::Content::default();
    content.set_value(Some(body));
    content.set_content_type(Some("html".to_string()));
    entry.set_content(Some(content));
    entry
}

/// Relies on `atom_syndication::Feed::set_entries` to replace the entry
/// collection.
#[verifier::external_body]
pub(crate) fn feed_with_entries(feed: atom_syndication::Feed, entries: Vec<atom_syndication::Entry>) -> atom_syndication::Feed {
    let mut feed = feed;
    feed.set_entries(entries);
    feed
}

/// Relies on `atom_syndication::Feed`'s `ToString` impl to serialize the
/// document.
#[verifier::external_body]
pub(crate) fn atom_feed_to_xml(feed: &atom_syndication::Feed) -> String {
    feed.to_string()
}

} // verus!
