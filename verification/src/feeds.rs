//! Feed-level types: the feed families, the extraction policy, and the error
//! taxonomy. The document abstraction and the item rewriting build on these.

use vstd::prelude::*;
use vstd::string::StringExecFns;

use crate::config::ExtractionLimits;

verus! {

/// The two feed families a document can belong to. RDF-based feeds count as
/// part of the RSS family.
#[derive(Debug, Clone, Copy, PartialEq, Eq, Structural)]
pub enum FeedType {
    AtomFeed,
    RssFeed,
}

/// The policy governing one patch operation.
#[derive(Debug, Clone)]
pub struct ExtractionOpts {
    /// Cap on the count of leading items processed; `None` means unbounded.
    pub max_items: Option<usize>,
    /// Whether an item whose extraction fails is kept (with its original
    /// content) or dropped.
    pub keep_failed: bool,
    /// Whether the original summary is kept and the extracted text appended,
    /// rather than replaced by it.
    pub keep_original_content: bool,
}

/// Feed-level failures: these abort the whole operation and are reported to
/// the caller.
#[derive(Debug, Clone)]
pub enum FeedError {
    /// The input bytes are not a feed of a known type.
    UnrecognizedFormat,
    /// The bytes matched a recognized root tag but failed to fully parse;
    /// carries the parser's own description of the failure.
    MalformedFeed(String),
    /// Retrieving the feed's own bytes failed.
    FeedFetchFailed,
}

impl PartialEq for FeedError {
    fn eq(&self, other: &FeedError) -> (r: bool) {
        match (self, other) {
            (FeedError::UnrecognizedFormat, FeedError::UnrecognizedFormat) => true,
            (FeedError::MalformedFeed(a), FeedError::MalformedFeed(b)) => *a == *b,
            (FeedError::FeedFetchFailed, FeedError::FeedFetchFailed) => true,
            _ => false,
        }
    }
}

impl vstd::std_specs::cmp::PartialEqSpecImpl for FeedError {
    open spec fn obeys_eq_spec() -> bool {
        true
    }

    open spec fn eq_spec(&self, other: &FeedError) -> bool {
        match (self, other) {
            (FeedError::UnrecognizedFormat, FeedError::UnrecognizedFormat) => true,
            (FeedError::MalformedFeed(a), FeedError::MalformedFeed(b)) => a@ == b@,
            (FeedError::FeedFetchFailed, FeedError::FeedFetchFailed) => true,
            _ => false,
        }
    }
}

/// Item-level failures: these are absorbed by the `keep_failed` policy and
/// never surface at the feed level.
#[derive(Debug, Clone, Copy, PartialEq, Eq, Structural)]
pub enum ItemError {
    /// The feed item has no usable article link.
    NoCandidateUrl,
    /// The extraction capability failed for the item's link.
    ExtractionFailed,
}

impl FeedError {
    /// A short human-readable description of the failure's kind.
    pub fn describe(&self) -> (r: &'static str)
        ensures
            *self is UnrecognizedFormat ==> r@ == "unrecognized feed format"@,
            *self is MalformedFeed ==> r@ == "malformed feed"@,
            *self is FeedFetchFailed ==> r@ == "fetching the feed failed"@,
    {
        match self {
            FeedError::UnrecognizedFormat => "unrecognized feed format",
            FeedError::MalformedFeed(_) => "malformed feed",
            FeedError::FeedFetchFailed => "fetching the feed failed",
        }
    }

    /// The full failure message: the kind's description, with the parse
    /// detail appended for a malformed feed.
    pub fn message(&self) -> (r: String)
        ensures
            *self is UnrecognizedFormat ==> r@ == "unrecognized feed format"@,
            (match self {
                FeedError::MalformedFeed(d) => r@ == "malformed feed: "@ + d@,
                _ => true,
            }),
            *self is FeedFetchFailed ==> r@ == "fetching the feed failed"@,
    {
        match self {
            FeedError::UnrecognizedFormat => "unrecognized feed format".to_owned(),
            FeedError::MalformedFeed(d) => "malformed feed: ".to_owned().concat(d.as_str()),
            FeedError::FeedFetchFailed => "fetching the feed failed".to_owned(),
        }
    }
}

/// The requested bound capped by the configured limit: if both are present
/// the smaller wins; a present bound always wins over an absent one.
pub open spec fn spec_bounded_max(requested: Option<usize>, limit: Option<usize>) -> Option<usize> {
    match (requested, limit) {
        (Some(r), Some(l)) => Some(if r <= l { r } else { l }),
        (Some(r), None) => Some(r),
        (None, Some(l)) => Some(l),
        (None, None) => None,
    }
}

/// The root tag that marks an Atom feed: `feed`.
pub open spec fn atom_root_tag() -> Seq<u8> {
    seq!['f' as u8, 'e' as u8, 'e' as u8, 'd' as u8]
}

/// The root tag that marks an RSS feed: `rss`.
pub open spec fn rss_root_tag() -> Seq<u8> {
    seq!['r' as u8, 's' as u8, 's' as u8]
}

/// The root tag of an RDF-based feed, `rdf:RDF`, treated as RSS.
pub open spec fn rdf_root_tag() -> Seq<u8> {
    seq!['r' as u8, 'd' as u8, 'f' as u8, ':' as u8, 'R' as u8, 'D' as u8, 'F' as u8]
}

fn atom_tag_bytes() -> (r: Vec<u8>)
    ensures
        r@ == atom_root_tag(),
{
    let mut v: Vec<u8> = Vec::new();
    v.push('f' as u8);
    v.push('e' as u8);
    v.push('e' as u8);
    v.push('d' as u8);
    proof {
        assert(v@ =~= atom_root_tag());
    }
    v
}

fn rss_tag_bytes() -> (r: Vec<u8>)
    ensures
        r@ == rss_root_tag(),
{
    let mut v: Vec<u8> = Vec::new();
    v.push('r' as u8);
    v.push('s' as u8);
    v.push('s' as u8);
    proof {
        assert(v@ =~= rss_root_tag());
    }
    v
}

fn rdf_tag_bytes() -> (r: Vec<u8>)
    ensures
        r@ == rdf_root_tag(),
{
    let mut v: Vec<u8> = Vec::new();
    v.push('r' as u8);
    v.push('d' as u8);
    v.push('f' as u8);
    v.push(':' as u8);
    v.push('R' as u8);
    v.push('D' as u8);
    v.push('F' as u8);
    proof {
        assert(v@ =~= rdf_root_tag());
    }
    v
}

fn bytes_eq(a: &Vec<u8>, b: &Vec<u8>) -> (r: bool)
    ensures
        r == (a@ == b@),
{
    if a.len() != b.len() {
        proof {
            if a@ == b@ {
                assert(a@.len() == b@.len());
            }
        }
        return false;
    }
    let mut i: usize = 0;
    while i < a.len()
        invariant
            i <= a@.len(),
            a@.len() == b@.len(),
            forall|j: int| 0 <= j < i ==> a@[j] == b@[j],
        decreases a@.len() - i,
    {
        if a[i] != b[i] {
            proof {
                if a@ == b@ {
                    assert(a@[i as int] == b@[i as int]);
                }
            }
            return false;
        }
        i += 1;
    }
    proof {
        assert(a@ =~= b@);
    }
    true
}

/// How a root tag classifies: `feed` is Atom, `rss` and `rdf:RDF` are RSS,
/// anything else is no feed at all.
pub open spec fn spec_classify_root(tag: Seq<u8>) -> Option<FeedType> {
    if tag == atom_root_tag() {
        Some(FeedType::AtomFeed)
    } else if tag == rss_root_tag() || tag == rdf_root_tag() {
        Some(FeedType::RssFeed)
    } else {
        None
    }
}

fn classify_root(tag: &Vec<u8>) -> (r: Option<FeedType>)
    ensures
        r == spec_classify_root(tag@),
{
    let atom = atom_tag_bytes();
    if bytes_eq(tag, &atom) {
        return Some(FeedType::AtomFeed);
    }
    let rss = rss_tag_bytes();
    if bytes_eq(tag, &rss) {
        return Some(FeedType::RssFeed);
    }
    let rdf = rdf_tag_bytes();
    if bytes_eq(tag, &rdf) {
        return Some(FeedType::RssFeed);
    }
    None
}

/// Determine the feed type within `content`: inputs whose root tag is
/// `feed`, `rss` or `rdf:RDF` map to the corresponding type; any other
/// root tag, input that is not well-formed XML, or input that ends before a
/// start tag, is rejected as unrecognized. Only the prefix up to the first
/// start tag is inspected.
pub fn determine_feed_type(content: &[u8]) -> (r: Result<FeedType, FeedError>)
    ensures
        match crate::native::root_tag_of(content@) {
            Some(tag) => match spec_classify_root(tag) {
                Some(ft) => r == Ok::<FeedType, FeedError>(ft),
                None => r == Err::<FeedType, FeedError>(FeedError::UnrecognizedFormat),
            },
            None => r == Err::<FeedType, FeedError>(FeedError::UnrecognizedFormat),
        },
{
    match crate::native::first_start_tag(content) {
        Some(tag) => match classify_root(&tag) {
            Some(ft) => Ok(ft),
            None => Err(FeedError::UnrecognizedFormat),
        },
        None => Err(FeedError::UnrecognizedFormat),
    }
}

impl ExtractionOpts {
    /// Bound this policy by the operator-configured limits. Only `max_items`
    /// has an associated limit; the boolean switches pass through.
    pub fn bound_by_limits(&self, limits: &ExtractionLimits) -> (r: ExtractionOpts)
        ensures
            r.max_items == spec_bounded_max(self.max_items, limits.max_items),
            r.keep_failed == self.keep_failed,
            r.keep_original_content == self.keep_original_content,
    {
        let max_items = match (self.max_items, limits.max_items) {
            (Some(r), Some(l)) => Some(if r <= l { r } else { l }),
            (Some(r), None) => Some(r),
            (None, Some(l)) => Some(l),
            (None, None) => None,
        };
        ExtractionOpts {
            max_items,
            keep_failed: self.keep_failed,
            keep_original_content: self.keep_original_content,
        }
    }
}

/// The spec-level picture of one entry: its candidate URL and its current
/// body text. Everything else an item carries is opaque payload.
pub struct EntryModel {
    pub url: Option<Seq<char>>,
    pub body: Option<Seq<char>>,
}

/// A parsed item of either family, carried through opaquely.
pub enum NativeItem {
    Rss(rss::Item),
    Atom(atom_syndication::Entry),
}

/// One entry of a feed, as the engine sees it: the candidate article URL,
/// the current body text, and the parsed item itself, which passes through
/// untouched except for its body.
pub struct FeedEntry {
    /// The article link to fetch full text from, when the item has one.
    pub url: Option<String>,
    /// The current body: RSS content or description, Atom content or summary.
    pub body: Option<String>,
    /// The item as parsed, kept for serialization.
    pub native: NativeItem,
}

pub open spec fn opt_view(o: Option<String>) -> Option<Seq<char>> {
    match o {
        Some(s) => Some(s@),
        None => None,
    }
}

/// Whether two items belong to the same feed family.
pub open spec fn same_native_kind(a: NativeItem, b: NativeItem) -> bool {
    a is Rss <==> b is Rss
}

impl FeedEntry {
    /// What the engine reads of this entry.
    pub open spec fn model(&self) -> EntryModel {
        EntryModel { url: opt_view(self.url), body: opt_view(self.body) }
    }
}

/// Build the engine's view of one RSS item from the item's own fields: the
/// link becomes the candidate URL, and the body is the content field if
/// present, else the description.
pub fn rss_entry(
    item: rss::Item,
    link: Option<String>,
    content: Option<String>,
    description: Option<String>,
) -> (r: FeedEntry)
    ensures
        r.url == link,
        r.body == (if content is Some {
            content
        } else {
            description
        }),
        r.native == NativeItem::Rss(item),
{
    let body = match content {
        Some(c) => Some(c),
        None => description,
    };
    FeedEntry { url: link, body, native: NativeItem::Rss(item) }
}

/// The candidate URL among an Atom entry's `(rel, href)` link pairs: the
/// `href` of the first link whose relation is `alternate`.
pub open spec fn spec_primary_link(links: Seq<(String, String)>) -> Option<Seq<char>>
    decreases links.len(),
{
    if links.len() == 0 {
        None
    } else if links[0].0@ == "alternate"@ {
        Some(links[0].1@)
    } else {
        spec_primary_link(links.drop_first())
    }
}

/// The first link whose relation is `alternate`, if any.
pub fn get_primary_link(links: &Vec<(String, String)>) -> (r: Option<String>)
    ensures
        opt_view(r) == spec_primary_link(links@),
{
    let alternate: String = "alternate".to_owned();
    let mut i: usize = 0;
    proof {
        assert(links@.skip(0) =~= links@);
    }
    while i < links.len()
        invariant
            i <= links@.len(),
            spec_primary_link(links@) == spec_primary_link(links@.skip(i as int)),
            alternate@ == "alternate"@,
        decreases links@.len() - i,
    {
        let pair = &links[i];
        proof {
            assert(links@.skip(i as int)[0] == links@[i as int]);
        }
        if pair.0 == alternate {
            return Some(pair.1.clone());
        }
        proof {
            assert(links@.skip(i as int).drop_first() =~= links@.skip(i as int + 1));
        }
        i += 1;
    }
    proof {
        assert(links@.skip(links@.len() as int) =~= Seq::<(String, String)>::empty());
    }
    None
}

/// Build the engine's view of one Atom entry from the entry's own fields:
/// the first `alternate` link becomes the candidate URL, and the body is
/// the content element's value when a content element is present (even one
/// without a value), else the summary.
pub fn atom_entry(
    entry: atom_syndication::Entry,
    links: Vec<(String, String)>,
    content: Option<Option<String>>,
    summary: Option<String>,
) -> (r: FeedEntry)
    ensures
        opt_view(r.url) == spec_primary_link(links@),
        r.body == (match content {
            Some(v) => v,
            None => summary,
        }),
        r.native == NativeItem::Atom(entry),
{
    let url = get_primary_link(&links);
    let body = match content {
        Some(v) => v,
        None => summary,
    };
    FeedEntry { url, body, native: NativeItem::Atom(entry) }
}

/// A parsed document of either family, carried through opaquely.
pub enum NativeFeed {
    Rss(rss::Channel),
    Atom(atom_syndication::Feed),
}

/// A feed document: the parsed native document and the engine's view of its
/// items. The concrete family never changes once constructed; only the item
/// collection and the per-item bodies are rewritten.
pub struct FeedDocument {
    /// The document as parsed, kept for serialization.
    pub native: NativeFeed,
    /// The engine's view of the item collection, in document order.
    pub entries: Vec<FeedEntry>,
}

impl FeedDocument {
    /// The family this document belongs to.
    pub open spec fn spec_feed_type(&self) -> FeedType {
        match self.native {
            NativeFeed::Rss(_) => FeedType::RssFeed,
            NativeFeed::Atom(_) => FeedType::AtomFeed,
        }
    }

    pub open spec fn entry_kind_ok(&self, e: FeedEntry) -> bool {
        match self.native {
            NativeFeed::Rss(_) => e.native is Rss,
            NativeFeed::Atom(_) => e.native is Atom,
        }
    }

    /// Well-formedness: every entry wraps an item of the document's own
    /// family.
    pub open spec fn wf(&self) -> bool {
        forall|i: int|
            0 <= i < self.entries@.len() ==> self.entry_kind_ok(#[trigger] self.entries@[i])
    }

    pub fn feed_type(&self) -> (r: FeedType)
        ensures
            r == self.spec_feed_type(),
    {
        match &self.native {
            NativeFeed::Rss(_) => FeedType::RssFeed,
            NativeFeed::Atom(_) => FeedType::AtomFeed,
        }
    }

    /// The MIME type to serve this document under.
    pub fn mime_type(&self) -> (r: &'static str)
        ensures
            self.spec_feed_type() == FeedType::RssFeed ==> r@ == "text/xml"@,
            self.spec_feed_type() == FeedType::AtomFeed ==> r@ == "application/atom+xml"@,
    {
        match &self.native {
            NativeFeed::Rss(_) => "text/xml",
            NativeFeed::Atom(_) => "application/atom+xml",
        }
    }
}

/// Assemble an RSS document: one entry per parsed item, in order, each
/// built from its own item's link, content and description.
fn rss_document(ch: rss::Channel, items: Vec<rss::Item>) -> (r: FeedDocument)
    ensures
        r.wf(),
        r.spec_feed_type() == FeedType::RssFeed,
        r.entries@.len() == items@.len(),
        forall|i: int|
            0 <= i < items@.len() ==> (#[trigger] r.entries@[i]).native == NativeItem::Rss(
                items@[i],
            ),
{
    let ghost orig_items = items@;
    let mut rest = items;
    let total = rest.len();
    let mut entries: Vec<FeedEntry> = Vec::new();
    let mut i: usize = 0;
    proof {
        assert(orig_items.skip(0) =~= orig_items);
    }
    while rest.len() > 0
        invariant
            orig_items.len() == total as int,
            i + rest@.len() == orig_items.len(),
            rest@ == orig_items.skip(i as int),
            entries@.len() == i as int,
            forall|j: int|
                0 <= j < i ==> (#[trigger] entries@[j]).native == NativeItem::Rss(orig_items[j]),
        decreases rest@.len(),
    {
        let item = rest.remove(0);
        proof {
            assert(orig_items.skip(i as int)[0] == orig_items[i as int]);
            assert(orig_items.skip(i as int).drop_first() =~= orig_items.skip(i as int + 1));
        }
        let link = crate::native::rss_item_link(&item);
        let content = crate::native::rss_item_content(&item);
        let description = crate::native::rss_item_description(&item);
        entries.push(rss_entry(item, link, content, description));
        i += 1;
    }
    FeedDocument { native: NativeFeed::Rss(ch), entries }
}

/// Assemble an Atom document: one entry per parsed item, in order, each
/// built from its own entry's links, content and summary.
fn atom_document(feed: atom_syndication::Feed, items: Vec<atom_syndication::Entry>) -> (r:
    FeedDocument)
    ensures
        r.wf(),
        r.spec_feed_type() == FeedType::AtomFeed,
        r.entries@.len() == items@.len(),
        forall|i: int|
            0 <= i < items@.len() ==> (#[trigger] r.entries@[i]).native == NativeItem::Atom(
                items@[i],
            ),
{
    let ghost orig_items = items@;
    let mut rest = items;
    let total = rest.len();
    let mut entries: Vec<FeedEntry> = Vec::new();
    let mut i: usize = 0;
    proof {
        assert(orig_items.skip(0) =~= orig_items);
    }
    while rest.len() > 0
        invariant
            orig_items.len() == total as int,
            i + rest@.len() == orig_items.len(),
            rest@ == orig_items.skip(i as int),
            entries@.len() == i as int,
            forall|j: int|
                0 <= j < i ==> (#[trigger] entries@[j]).native == NativeItem::Atom(orig_items[j]),
        decreases rest@.len(),
    {
        let item = rest.remove(0);
        proof {
            assert(orig_items.skip(i as int)[0] == orig_items[i as int]);
            assert(orig_items.skip(i as int).drop_first() =~= orig_items.skip(i as int + 1));
        }
        let links = crate::native::atom_entry_links(&item);
        let content = match crate::native::atom_entry_content(&item) {
            Some(c) => Some(crate::native::atom_content_value(&c)),
            None => None,
        };
        let summary = crate::native::atom_entry_summary(&item);
        entries.push(atom_entry(item, links, content, summary));
        i += 1;
    }
    FeedDocument { native: NativeFeed::Atom(feed), entries }
}

/// Parse feed bytes into a document of the matching family. Bytes whose
/// root tag is recognized succeed exactly when that family's parser accepts
/// them; a parser failure is a malformed feed carrying the parser's own
/// description, and an unrecognized or absent root tag is rejected before
/// any parse attempt.
pub fn parse_feed(content: &[u8]) -> (r: Result<FeedDocument, FeedError>)
    ensures
        match crate::native::root_tag_of(content@) {
            Some(tag) => match spec_classify_root(tag) {
                Some(ft) => {
                    &&& (match r {
                        Ok(doc) => doc.wf() && doc.spec_feed_type() == ft,
                        Err(e) => e is MalformedFeed,
                    })
                    &&& (ft == FeedType::RssFeed ==> {
                        &&& (r is Ok) == (crate::native::rss_parse_error_of(content@) is None)
                        &&& (match r {
                            Err(FeedError::MalformedFeed(d)) => Some(d@)
                                == crate::native::rss_parse_error_of(content@),
                            _ => true,
                        })
                    })
                    &&& (ft == FeedType::AtomFeed ==> {
                        &&& (r is Ok) == (crate::native::atom_parse_error_of(content@) is None)
                        &&& (match r {
                            Err(FeedError::MalformedFeed(d)) => Some(d@)
                                == crate::native::atom_parse_error_of(content@),
                            _ => true,
                        })
                    })
                },
                None => r == Err::<FeedDocument, FeedError>(FeedError::UnrecognizedFormat),
            },
            None => r == Err::<FeedDocument, FeedError>(FeedError::UnrecognizedFormat),
        },
{
    match determine_feed_type(content) {
        Err(e) => Err(e),
        Ok(FeedType::RssFeed) => match crate::native::parse_rss_channel(content) {
            Ok(ch) => {
                let items = crate::native::channel_items(&ch);
                Ok(rss_document(ch, items))
            },
            Err(detail) => Err(FeedError::MalformedFeed(detail)),
        },
        Ok(FeedType::AtomFeed) => match crate::native::parse_atom_feed(content) {
            Ok(feed) => {
                let items = crate::native::atom_entries(&feed);
                Ok(atom_document(feed, items))
            },
            Err(detail) => Err(FeedError::MalformedFeed(detail)),
        },
    }
}

} // verus!
