//! Turning fetched feeds into feeds and articles, and the decisions of a
//! refresh: which events a fetched feed yields and what each event does to
//! the database.
use vstd::prelude::*;
use crate::db::{DbClient, DbError};
use crate::store::{
    store_wf,
    article_insertable, has_url, insert_count, prune_count, pruned, strings_view, upsert_article, upsert_feed, with_metadata,
    StoreView,
};
use crate::models::{NewArticle, NewArticleView, NewFeed, NewFeedView};
use crate::text::{clone_opt, clone_string, opt_view, string_of};
use crate::timestamp::Timestamp;
use crate::scan::{panic_risk, panic_risky};

verus! {

broadcast use vstd::seq_lib::group_seq_properties;

#[verifier::external_type_specification]
#[verifier::external_body]
pub struct ExFeedParseError(feed_rs::parser::ParseFeedError);

/// An entry of a parsed feed, as far as the library reads it.
pub struct ParsedEntry {
    pub id: String,
    pub title: Option<String>,
    pub links: Vec<String>,
    pub summary: Option<String>,
    pub content: Option<String>,
    pub published: Option<Timestamp>,
}

/// A parsed feed: its title and entries.
pub struct ParsedFeed {
    pub title: Option<String>,
    pub entries: Vec<ParsedEntry>,
}

pub struct ParsedEntryView {
    pub id: Seq<char>,
    pub title: Option<Seq<char>>,
    pub links: Seq<Seq<char>>,
    pub summary: Option<Seq<char>>,
    pub content: Option<Seq<char>>,
    pub published: Option<Timestamp>,
}

pub struct ParsedFeedView {
    pub title: Option<Seq<char>>,
    pub entries: Seq<ParsedEntryView>,
}

impl View for ParsedEntry {
    type V = ParsedEntryView;

    open spec fn view(&self) -> ParsedEntryView {
        ParsedEntryView {
            id: self.id@,
            title: opt_view(self.title),
            links: self.links@.map_values(|l: String| l@),
            summary: opt_view(self.summary),
            content: opt_view(self.content),
            published: self.published,
        }
    }
}

impl View for ParsedFeed {
    type V = ParsedFeedView;

    open spec fn view(&self) -> ParsedFeedView {
        ParsedFeedView {
            title: opt_view(self.title),
            entries: self.entries@.map_values(|e: ParsedEntry| e@),
        }
    }
}

/// What feed_rs makes of `bytes`: `None` where it rejects them, else the text
/// of the feed's title and, for each entry in order, whether feed_rs made up
/// its id at random (an entry with neither an id nor a link: with no base
/// URI, feed_rs has nothing else to derive one from) and
/// the entry as the library reads it. Where the flag is set, the entry's id
/// in this value stands for nothing.
pub uninterp spec fn feed_parse(bytes: Seq<u8>) -> Option<(Option<Seq<char>>, Seq<(bool, ParsedEntryView)>)>;

/// Two entries agree in everything but their ids.
pub open spec fn same_but_id(a: ParsedEntryView, b: ParsedEntryView) -> bool {
    &&& a.title == b.title
    &&& a.links == b.links
    &&& a.summary == b.summary
    &&& a.content == b.content
    &&& a.published == b.published
}

/// Entry `e` is the one feed_rs reads as `n`: the same fields, and the same
/// id unless feed_rs made that id up at random.
pub open spec fn entry_as_named(e: ParsedEntryView, n: (bool, ParsedEntryView)) -> bool {
    &&& same_but_id(e, n.1)
    &&& !n.0 ==> e.id == n.1.id
}

/// The parsed feed is what feed_rs makes of the bytes, as `feed_parse`
/// names it.
pub open spec fn parsed_as_named(p: ParsedFeedView, h: (Option<Seq<char>>, Seq<(bool, ParsedEntryView)>)) -> bool {
    &&& p.title == h.0
    &&& p.entries.len() == h.1.len()
    &&& forall|i: int| 0 <= i < p.entries.len() ==> entry_as_named(#[trigger] p.entries[i], h.1[i])
}

/// feed_rs `parser::parse`: parses RSS, Atom or JSON Feed bytes. Answers with
/// the text of the feed's title and, for each entry, its id, the text of its
/// title and summary, the body of its content, the targets of its links in
/// order, and its publication date taken apart with chrono's `timestamp` and
/// `timestamp_subsec_nanos` (which chrono documents to round-trip, so the date
/// meets `Timestamp`'s invariant). All of this is named by `feed_parse`, but
/// for the ids that feed_rs makes up at random. feed_rs panics on some play
/// times and some persons' addresses (see `scan`), so those bodies are left
/// out.
#[verifier::external_body]
fn feed_rs_parse(bytes: &[u8]) -> (r: Result<ParsedFeed, feed_rs::parser::ParseFeedError>)
    requires
        !panic_risk(bytes@),
    ensures
        r is Ok <==> feed_parse(bytes@) is Some,
        r matches Ok(p) ==> parsed_as_named(p@, feed_parse(bytes@)->0),
{
    feed_rs::parser::parse(bytes).map(|f| ParsedFeed {
        title: f.title.map(|t| t.content),
        entries: f.entries.into_iter().map(|e| ParsedEntry {
            id: e.id,
            title: e.title.map(|t| t.content),
            links: e.links.into_iter().map(|l| l.href).collect(),
            summary: e.summary.map(|s| s.content),
            content: e.content.and_then(|c| c.body),
            published: e.published.map(|d| Timestamp { secs: d.timestamp(), nanos: d.timestamp_subsec_nanos() }),
        }).collect(),
    })
}

/// Parses feed bytes (RSS, Atom or JSON Feed) into a title and entries.
/// A body on which feed_rs might panic reading a play time or a person's
/// address is refused with `Unsupported`.
pub fn parse_feed(bytes: &[u8]) -> (r: Result<ParsedFeed, FetchError>)
    ensures
        panic_risk(bytes@) <==> r matches Err(FetchError::Unsupported),
        !panic_risk(bytes@) ==> (r is Ok <==> feed_parse(bytes@) is Some),
        r matches Ok(p) ==> parsed_as_named(p@, feed_parse(bytes@)->0),
        r matches Err(e) ==> e is Parse || e is Unsupported,
{
    if panic_risky(bytes) {
        return Err(FetchError::Unsupported);
    }
    match feed_rs_parse(bytes) {
        Ok(p) => Ok(p),
        Err(e) => Err(FetchError::Parse(e)),
    }
}

/// Why fetching, parsing or importing failed.
#[derive(Debug)]
pub enum FetchError {
    Parse(feed_rs::parser::ParseFeedError),
    /// The body might make feed_rs panic while reading a play time or a
    /// person's address.
    Unsupported,
    Opml(opml::Error),
    Db(DbError),
}

#[verifier::external_type_specification]
#[verifier::external_body]
pub struct ExOpmlError(opml::Error);

// ---------------------------------------------------------------------------
// Feeds and articles from parsed feeds.

/// The feed added from `url`, the caching headers of the response and the
/// parsed feed: titled as the feed is.
pub open spec fn fetched_feed(
    url: Seq<char>,
    etag: Option<Seq<char>>,
    last_modified: Option<Seq<char>>,
    title: Option<Seq<char>>,
) -> NewFeedView {
    NewFeedView { url, title, etag, last_modified }
}

/// The article an entry of feed `feed_id` becomes: its GUID is the entry id,
/// an entry without title is `Untitled`, its link is the first one.
pub open spec fn entry_article(feed_id: i64, e: ParsedEntryView) -> NewArticleView {
    NewArticleView {
        feed_id,
        guid: e.id,
        title: match e.title {
            Some(t) => t,
            None => "Untitled"@,
        },
        url: if e.links.len() > 0 { Some(e.links[0]) } else { None },
        summary: e.summary,
        content: e.content,
        published_at: e.published,
    }
}

/// The article an entry of feed `feed_id` becomes.
pub fn article_from_entry(feed_id: i64, e: &ParsedEntry) -> (r: NewArticle)
    ensures
        r@ == entry_article(feed_id, e@),
{
    let title = match &e.title {
        Some(t) => t.clone(),
        None => string_of("Untitled"),
    };
    let url = if e.links.len() > 0 {
        Some(e.links[0].clone())
    } else {
        None
    };
    NewArticle {
        feed_id,
        guid: e.id.clone(),
        title,
        url,
        summary: clone_opt(&e.summary),
        content: clone_opt(&e.content),
        published_at: e.published,
    }
}

/// The title shown for a feed: its own, else `Unknown`.
pub open spec fn shown_title(title: Option<Seq<char>>) -> Seq<char> {
    match title {
        Some(t) => t,
        None => "Unknown"@,
    }
}

pub fn title_or_unknown(title: &Option<String>) -> (r: String)
    ensures
        r@ == shown_title(opt_view(*title)),
{
    match title {
        Some(t) => t.clone(),
        None => string_of("Unknown"),
    }
}

// ---------------------------------------------------------------------------
// Refreshing.

/// What a refreshed feed hands to the database, in the order sent.
pub enum RefreshEvent {
    /// An article of the feed.
    Article(NewArticle),
    /// The feed was read to the end; these are the GUIDs it carries.
    FeedFinished(i64, Vec<String>),
    /// The response carried caching headers for the feed.
    Metadata(i64, Option<String>, Option<String>),
}

pub enum RefreshEventView {
    Article(NewArticleView),
    FeedFinished(i64, Seq<Seq<char>>),
    Metadata(i64, Option<Seq<char>>, Option<Seq<char>>),
}

impl View for RefreshEvent {
    type V = RefreshEventView;

    open spec fn view(&self) -> RefreshEventView {
        match self {
            RefreshEvent::Article(a) => RefreshEventView::Article(a@),
            RefreshEvent::FeedFinished(id, guids) => RefreshEventView::FeedFinished(*id, guids@.map_values(|g: String| g@)),
            RefreshEvent::Metadata(id, e, l) => RefreshEventView::Metadata(*id, opt_view(*e), opt_view(*l)),
        }
    }
}

pub open spec fn events_view(v: Seq<RefreshEvent>) -> Seq<RefreshEventView> {
    v.map_values(|e: RefreshEvent| e@)
}

/// The event that stores a response's caching headers; there is one only
/// where the response has either header.
pub fn metadata_event(feed_id: i64, etag: Option<String>, last_modified: Option<String>) -> (r: Option<RefreshEvent>)
    ensures
        r is Some <==> (etag is Some || last_modified is Some),
        r matches Some(ev) ==> ev@ == RefreshEventView::Metadata(feed_id, opt_view(etag), opt_view(last_modified)),
{
    if etag.is_some() || last_modified.is_some() {
        Some(RefreshEvent::Metadata(feed_id, etag, last_modified))
    } else {
        None
    }
}

/// The events of a parsed feed: one article per entry in order, then the
/// end of the feed with the GUIDs of all entries.
pub open spec fn parsed_events(feed_id: i64, p: ParsedFeedView) -> Seq<RefreshEventView> {
    p.entries.map_values(|e: ParsedEntryView| RefreshEventView::Article(entry_article(feed_id, e)))
        + seq![RefreshEventView::FeedFinished(feed_id, p.entries.map_values(|e: ParsedEntryView| e.id))]
}

/// The events that a parsed feed yields.
pub fn events_for_parsed(feed_id: i64, parsed: &ParsedFeed) -> (r: Vec<RefreshEvent>)
    ensures
        events_view(r@) == parsed_events(feed_id, parsed@),
{
    let ghost es = parsed@.entries;
    let mut out: Vec<RefreshEvent> = Vec::new();
    let mut guids: Vec<String> = Vec::new();
    let mut i: usize = 0;
    while i < parsed.entries.len()
        invariant
            es == parsed@.entries,
            i <= parsed.entries.len(),
            events_view(out@) == es.take(i as int).map_values(
                |x: ParsedEntryView| RefreshEventView::Article(entry_article(feed_id, x)),
            ),
            guids@.map_values(|g: String| g@) == es.take(i as int).map_values(|x: ParsedEntryView| x.id),
        decreases parsed.entries.len() - i,
    {
        let a = article_from_entry(feed_id, &parsed.entries[i]);
        let ghost before = out@;
        let ghost gbefore = guids@;
        out.push(RefreshEvent::Article(a));
        guids.push(parsed.entries[i].id.clone());
        proof {
            assert(es[i as int] == parsed.entries@[i as int]@);
            assert(es.take(i + 1) =~= es.take(i as int).push(es[i as int]));
            assert(events_view(out@) =~= events_view(before).push(RefreshEventView::Article(entry_article(feed_id, es[i as int]))));
            assert(events_view(out@) =~= es.take(i + 1).map_values(
                |x: ParsedEntryView| RefreshEventView::Article(entry_article(feed_id, x)),
            ));
            assert(guids@.map_values(|g: String| g@) =~= gbefore.map_values(|g: String| g@).push(es[i as int].id));
            assert(guids@.map_values(|g: String| g@) =~= es.take(i + 1).map_values(|x: ParsedEntryView| x.id));
        }
        i = i + 1;
    }
    out.push(RefreshEvent::FeedFinished(feed_id, guids));
    proof {
        assert(es.take(i as int) =~= es);
        assert(events_view(out@) =~= parsed_events(feed_id, parsed@));
    }
    out
}

/// The events that a fetched feed body yields: those of the parsed feed, or
/// why it could not be parsed.
pub fn content_events(feed_id: i64, body: &[u8]) -> (r: Result<Vec<RefreshEvent>, FetchError>)
    ensures
        panic_risk(body@) <==> r matches Err(FetchError::Unsupported),
        !panic_risk(body@) ==> (r is Ok <==> feed_parse(body@) is Some),
        r matches Ok(v) ==> exists|p: ParsedFeedView|
            events_view(v@) == #[trigger] parsed_events(feed_id, p)
                && parsed_as_named(p, feed_parse(body@)->0),
        r matches Err(e) ==> e is Parse || e is Unsupported,
{
    let parsed = parse_feed(body)?;
    Ok(events_for_parsed(feed_id, &parsed))
}

/// What to do with a feed response, by its HTTP status.
#[derive(Clone, Copy, Debug, PartialEq, Eq, Structural)]
pub enum ResponseAction {
    /// A client or server error: the fetch fails.
    Fail,
    /// `304 Not Modified`: the feed has not changed since the cached values.
    Skip,
    /// Read the body.
    Read,
}

/// The action for a response of this status: statuses 400 to 599 fail (as
/// reqwest's `error_for_status` has it), 304 is skipped, all others are read.
pub fn response_action(status: u16) -> (r: ResponseAction)
    ensures
        400 <= status < 600 ==> r == ResponseAction::Fail,
        status == 304 ==> r == ResponseAction::Skip,
        !(400 <= status < 600) && status != 304 ==> r == ResponseAction::Read,
{
    if 400 <= status && status < 600 {
        ResponseAction::Fail
    } else if status == 304 {
        ResponseAction::Skip
    } else {
        ResponseAction::Read
    }
}

/// The media types a feed request accepts.
pub const ACCEPT: &'static str = "application/rss+xml, application/atom+xml, application/xml, text/xml, application/json";

/// The headers of a feed request: `Accept`, and, for a feed fetched before,
/// `If-None-Match` with its etag and `If-Modified-Since` with its
/// last-modified value where it has them.
pub open spec fn request_headers_of(etag: Option<Seq<char>>, last_modified: Option<Seq<char>>) -> Seq<(Seq<char>, Seq<char>)> {
    seq![("Accept"@, ACCEPT@)]
        + (match etag { Some(e) => seq![("If-None-Match"@, e)], None => Seq::empty() })
        + (match last_modified { Some(l) => seq![("If-Modified-Since"@, l)], None => Seq::empty() })
}

pub open spec fn headers_view(v: Seq<(String, String)>) -> Seq<(Seq<char>, Seq<char>)> {
    v.map_values(|h: (String, String)| (h.0@, h.1@))
}

/// The headers to send when fetching a feed with these caching values.
pub fn request_headers(etag: &Option<String>, last_modified: &Option<String>) -> (r: Vec<(String, String)>)
    ensures
        headers_view(r@) == request_headers_of(opt_view(*etag), opt_view(*last_modified)),
{
    let mut out: Vec<(String, String)> = Vec::new();
    out.push((string_of("Accept"), string_of(ACCEPT)));
    match etag {
        Some(e) => out.push((string_of("If-None-Match"), e.clone())),
        None => {},
    }
    match last_modified {
        Some(l) => out.push((string_of("If-Modified-Since"), l.clone())),
        None => {},
    }
    proof {
        assert(headers_view(out@) =~= request_headers_of(opt_view(*etag), opt_view(*last_modified)));
    }
    out
}

/// The counts a refresh reports.
pub struct RefreshTally {
    pub new_articles: usize,
    pub deleted_articles: usize,
}

/// The report at the end of a refresh.
pub open spec fn summary_text(new_articles: usize, deleted_articles: usize) -> Seq<char> {
    "Imported "@ + crate::text::decimal(new_articles as int) + " new articles. Purged "@
        + crate::text::decimal(deleted_articles as int) + " articles no longer in feeds."@
}

/// The report at the end of a refresh.
pub fn refresh_summary(tally: &RefreshTally) -> (r: String)
    ensures
        r@ == summary_text(tally.new_articles, tally.deleted_articles),
{
    let mut s = string_of("Imported ");
    let n = crate::text::u64_decimal(tally.new_articles as u64);
    s.append(n.as_str());
    s.append(" new articles. Purged ");
    let m = crate::text::u64_decimal(tally.deleted_articles as u64);
    s.append(m.as_str());
    s.append(" articles no longer in feeds.");
    s
}

/// `a + b` as a machine word adds it, wrapping around past `usize::MAX`.
pub open spec fn wrap_add(a: usize, b: usize) -> usize {
    if a + b <= usize::MAX {
        (a + b) as usize
    } else {
        (a + b - usize::MAX - 1) as usize
    }
}

fn wrapping_add(a: usize, b: usize) -> (r: usize)
    ensures
        r == wrap_add(a, b),
{
    if b <= usize::MAX - a {
        a + b
    } else {
        b - (usize::MAX - a) - 1
    }
}

impl DbClient {
    /// Applies one refresh event: an article is added, the end of a feed
    /// prunes the feed's articles to the GUIDs it carries, caching headers are
    /// stored. Counts added and pruned articles in `tally`; a failed step
    /// changes nothing.
    pub fn apply_refresh_event(&mut self, event: &RefreshEvent, tally: &mut RefreshTally) -> (r: Result<usize, DbError>)
        ensures
            store_wf(final(self)@),
            match r {
                Ok(n) => match event@ {
                    RefreshEventView::Article(a) => {
                        &&& n == insert_count(old(self)@, a)
                        &&& final(self)@ == upsert_article(old(self)@, a, final(self)@.articles.last().id)
                        &&& final(tally).new_articles == wrap_add(old(tally).new_articles, n)
                        &&& final(tally).deleted_articles == old(tally).deleted_articles
                    },
                    RefreshEventView::FeedFinished(id, guids) => {
                        &&& final(self)@ == pruned(old(self)@, id, guids)
                        &&& n == prune_count(old(self)@, id, guids)
                        &&& final(tally).deleted_articles == wrap_add(old(tally).deleted_articles, n)
                        &&& final(tally).new_articles == old(tally).new_articles
                    },
                    RefreshEventView::Metadata(id, e, l) => {
                        &&& final(self)@ == with_metadata(old(self)@, id, e, l)
                        &&& n == 0
                        &&& final(tally).new_articles == old(tally).new_articles
                        &&& final(tally).deleted_articles == old(tally).deleted_articles
                    },
                },
                Err(_) => {
                    &&& final(self)@ == old(self)@
                    &&& final(tally).new_articles == old(tally).new_articles
                    &&& final(tally).deleted_articles == old(tally).deleted_articles
                },
            },
            (event@ matches RefreshEventView::Article(a) && !article_insertable(old(self)@, a))
                <==> r matches Err(DbError::UnknownFeed(_)),
            r matches Err(e) ==> e is Sqlite || e is UnknownFeed || (e is UnexpectedRowId && event is Article),
    {
        match event {
            RefreshEvent::Article(a) => {
                let n = self.insert_article(a)?;
                tally.new_articles = wrapping_add(tally.new_articles, n);
                Ok(n)
            },
            RefreshEvent::FeedFinished(id, guids) => {
                let n = self.delete_articles_except(*id, guids.as_slice())?;
                proof {
                    assert(strings_view(guids@) =~= guids@.map_values(|g: String| g@));
                }
                tally.deleted_articles = wrapping_add(tally.deleted_articles, n);
                Ok(n)
            },
            RefreshEvent::Metadata(id, e, l) => {
                self.update_feed_metadata(*id, clone_opt(e), clone_opt(l))?;
                Ok(0)
            },
        }
    }
}

// ---------------------------------------------------------------------------
// Adding a feed.

/// The feed to add for `url`, given the response's caching headers and the
/// parsed body.
pub fn feed_from_parsed(url: &str, etag: Option<String>, last_modified: Option<String>, parsed: &ParsedFeed) -> (r: NewFeed)
    ensures
        r@ == fetched_feed(url@, opt_view(etag), opt_view(last_modified), parsed@.title),
{
    NewFeed { url: string_of(url), title: clone_opt(&parsed.title), etag, last_modified }
}

impl DbClient {
    /// Adds the feed fetched from `url`: parses the body, stores the feed
    /// under its title with the response's caching headers, and answers with
    /// the title shown for it.
    pub fn add_fetched_feed(
        &mut self,
        url: &str,
        etag: Option<String>,
        last_modified: Option<String>,
        body: &[u8],
    ) -> (r: Result<String, FetchError>)
        ensures
            store_wf(final(self)@),
            panic_risk(body@) <==> r matches Err(FetchError::Unsupported),
            !panic_risk(body@) ==> (feed_parse(body@) is None <==> r matches Err(FetchError::Parse(_))),
            match r {
                Ok(t) => feed_parse(body@) matches Some(h) && t@ == shown_title(h.0)
                    && exists|id: i64|
                    final(self)@ == #[trigger] upsert_feed(
                        old(self)@,
                        fetched_feed(url@, opt_view(etag), opt_view(last_modified), h.0),
                        id,
                    ),
                Err(_) => final(self)@ == old(self)@,
            },
            r matches Err(e) ==> e is Parse || e is Unsupported
                || (e matches FetchError::Db(d) && (d is Sqlite || d is UnexpectedRowId)),
    {
        proof {
            use_type_invariant(&*self);
        }
        let parsed = parse_feed(body)?;
        let feed = feed_from_parsed(url, etag, last_modified, &parsed);
        match self.insert_feed(&feed) {
            Ok(_) => {},
            Err(e) => { return Err(FetchError::Db(e)); },
        }
        Ok(title_or_unknown(&feed.title))
    }
}

// ---------------------------------------------------------------------------
// Importing an OPML subscription list.

/// A nested outline: its text and its feed URL, if it names a feed.
pub struct OpmlEntry {
    pub text: String,
    pub xml_url: Option<String>,
}

/// A top-level outline and the outlines nested directly under it.
pub struct OpmlOutline {
    pub text: String,
    pub xml_url: Option<String>,
    pub children: Vec<OpmlEntry>,
}

pub struct OpmlEntryView {
    pub text: Seq<char>,
    pub xml_url: Option<Seq<char>>,
}

pub struct OpmlOutlineView {
    pub text: Seq<char>,
    pub xml_url: Option<Seq<char>>,
    pub children: Seq<OpmlEntryView>,
}

impl View for OpmlEntry {
    type V = OpmlEntryView;

    open spec fn view(&self) -> OpmlEntryView {
        OpmlEntryView { text: self.text@, xml_url: opt_view(self.xml_url) }
    }
}

impl View for OpmlOutline {
    type V = OpmlOutlineView;

    open spec fn view(&self) -> OpmlOutlineView {
        OpmlOutlineView {
            text: self.text@,
            xml_url: opt_view(self.xml_url),
            children: self.children@.map_values(|c: OpmlEntry| c@),
        }
    }
}

pub open spec fn outlines_view(v: Seq<OpmlOutline>) -> Seq<OpmlOutlineView> {
    v.map_values(|o: OpmlOutline| o@)
}

/// The top-level outlines of an OPML document with the outlines nested
/// directly under them, as the opml crate parses `text`; `None` where it
/// rejects the document.
pub uninterp spec fn opml_outlines(text: Seq<char>) -> Option<Seq<OpmlOutlineView>>;

/// opml `OPML::from_str`: parses an OPML document; answers with its body's
/// outlines (text and `xmlUrl`) and those nested one level under them. The
/// result is named, not spelled out.
#[verifier::external_body]
fn opml_parse(text: &str) -> (r: Result<Vec<OpmlOutline>, opml::Error>)
    ensures
        r is Ok <==> opml_outlines(text@) is Some,
        r matches Ok(v) ==> outlines_view(v@) == opml_outlines(text@)->0,
{
    opml::OPML::from_str(text).map(|o| o.body.outlines.into_iter().map(|t| OpmlOutline {
        text: t.text,
        xml_url: t.xml_url,
        children: t.outlines.into_iter().map(|c| OpmlEntry { text: c.text, xml_url: c.xml_url }).collect(),
    }).collect())
}

/// The feed an outline names, titled by its text.
pub open spec fn outline_feed(text: Seq<char>, xml_url: Option<Seq<char>>) -> Seq<NewFeedView> {
    match xml_url {
        Some(u) => seq![NewFeedView { url: u, title: Some(text), etag: None, last_modified: None }],
        None => Seq::empty(),
    }
}

/// The feeds nested outlines name, in order.
pub open spec fn entries_feeds(cs: Seq<OpmlEntryView>) -> Seq<NewFeedView>
    decreases cs.len(),
{
    if cs.len() == 0 {
        Seq::empty()
    } else {
        entries_feeds(cs.drop_last()) + outline_feed(cs.last().text, cs.last().xml_url)
    }
}

/// The feeds an OPML body names: for each top-level outline, its own feed,
/// then those of the outlines directly under it. Deeper outlines are not
/// read.
pub open spec fn opml_feeds(os: Seq<OpmlOutlineView>) -> Seq<NewFeedView>
    decreases os.len(),
{
    if os.len() == 0 {
        Seq::empty()
    } else {
        opml_feeds(os.drop_last()) + outline_feed(os.last().text, os.last().xml_url)
            + entries_feeds(os.last().children)
    }
}

/// What became of one imported feed.
pub enum ImportOutcome {
    /// Stored with this id; the title shown for it.
    Imported(i64, String),
    /// Not stored: its URL and why.
    Failed(String, DbError),
}

pub enum ImportOutcomeView {
    Imported(i64, Seq<char>),
    Failed(Seq<char>, DbError),
}

impl View for ImportOutcome {
    type V = ImportOutcomeView;

    open spec fn view(&self) -> ImportOutcomeView {
        match self {
            ImportOutcome::Imported(id, t) => ImportOutcomeView::Imported(*id, t@),
            ImportOutcome::Failed(u, e) => ImportOutcomeView::Failed(u@, *e),
        }
    }
}

pub open spec fn outcomes_view(v: Seq<ImportOutcome>) -> Seq<ImportOutcomeView> {
    v.map_values(|o: ImportOutcome| o@)
}

/// The outcome reported for feed `f` is its own: the title shown for it, or
/// its URL with the SQLite or row-id error that stopped it.
pub open spec fn outcome_matches(f: NewFeedView, o: ImportOutcomeView) -> bool {
    match o {
        ImportOutcomeView::Imported(_, t) => t == shown_title(f.title),
        ImportOutcomeView::Failed(u, e) => u == f.url && (e is Sqlite || e is UnexpectedRowId),
    }
}

/// The store after importing `fs` with outcomes `os`: each stored feed is
/// added under the id it was given, each failed one leaves the store as it
/// was.
pub open spec fn replay_imports(s: StoreView, fs: Seq<NewFeedView>, os: Seq<ImportOutcomeView>) -> StoreView
    decreases fs.len(),
{
    if fs.len() == 0 || os.len() != fs.len() {
        s
    } else {
        let prev = replay_imports(s, fs.drop_last(), os.drop_last());
        match os.last() {
            ImportOutcomeView::Imported(id, _) => upsert_feed(prev, fs.last(), id),
            ImportOutcomeView::Failed(_, _) => prev,
        }
    }
}

impl DbClient {
    /// Adds one imported feed, reporting the outcome.
    fn import_one(&mut self, feed: NewFeed, outcomes: &mut Vec<ImportOutcome>)
        ensures
            store_wf(final(self)@),
            final(outcomes)@.len() == old(outcomes)@.len() + 1,
            final(outcomes)@.take(old(outcomes)@.len() as int) == old(outcomes)@,
            outcome_matches(feed@, final(outcomes)@.last()@),
            final(self)@ == match final(outcomes)@.last()@ {
                ImportOutcomeView::Imported(id, _) => upsert_feed(old(self)@, feed@, id),
                ImportOutcomeView::Failed(_, _) => old(self)@,
            },
    {
        match self.insert_feed(&feed) {
            Ok(id) => {
                let t = title_or_unknown(&feed.title);
                outcomes.push(ImportOutcome::Imported(id, t));
            },
            Err(e) => {
                outcomes.push(ImportOutcome::Failed(clone_string(&feed.url), e));
            },
        }
        proof {
            assert(outcomes@.take(old(outcomes)@.len() as int) =~= old(outcomes)@);
        }
    }

    /// Adds the feeds in order, each reported on; a feed that cannot be
    /// stored is reported and the rest still added.
    pub fn import_feeds(&mut self, feeds: Vec<NewFeed>) -> (r: Vec<ImportOutcome>)
        ensures
            store_wf(final(self)@),
            r@.len() == feeds@.len(),
            forall|i: int| 0 <= i < r@.len() ==> outcome_matches(new_feeds_view(feeds@)[i], #[trigger] outcomes_view(r@)[i]),
            final(self)@ == replay_imports(old(self)@, new_feeds_view(feeds@), outcomes_view(r@)),
    {
        let ghost fs = new_feeds_view(feeds@);
        proof {
            use_type_invariant(&*self);
        }
        let mut out: Vec<ImportOutcome> = Vec::new();
        for feed in it: feeds
            invariant
                fs == new_feeds_view(it.seq()),
                out@.len() == it.index(),
                forall|k: int| 0 <= k < out@.len() ==> outcome_matches(fs[k], #[trigger] outcomes_view(out@)[k]),
                self@ == replay_imports(old(self)@, fs.take(out@.len() as int), outcomes_view(out@)),
                store_wf(self@),
        {
            let ghost before = out@;
            let ghost s0 = self@;
            let ghost k = out@.len() as int;
            proof {
                assert(feed@ == fs[k]);
            }
            self.import_one(feed, &mut out);
            proof {
                assert(out@.drop_last() =~= before);
                assert(outcomes_view(out@).drop_last() =~= outcomes_view(before));
                assert(fs.take(k + 1).drop_last() =~= fs.take(k));
                assert(fs.take(k + 1).last() == fs[k]);
                assert(outcomes_view(out@).last() == out@.last()@);
                assert forall|j: int| 0 <= j < out@.len() implies outcome_matches(fs[j], #[trigger] outcomes_view(out@)[j]) by {
                    if j < k {
                        assert(outcomes_view(out@)[j] == outcomes_view(before)[j]);
                    }
                }
            }
        }
        proof {
            assert(fs.take(out@.len() as int) =~= fs);
        }
        out
    }

    /// Imports the feeds that a parsed OPML body names, in order, each under
    /// its outline's text.
    pub fn import_outlines(&mut self, outlines: &Vec<OpmlOutline>) -> (r: Vec<ImportOutcome>)
        ensures
            store_wf(final(self)@),
            r@.len() == opml_feeds(outlines_view(outlines@)).len(),
            forall|i: int| 0 <= i < r@.len() ==> outcome_matches(opml_feeds(outlines_view(outlines@))[i], #[trigger] outcomes_view(r@)[i]),
            final(self)@ == replay_imports(old(self)@, opml_feeds(outlines_view(outlines@)), outcomes_view(r@)),
    {
        let feeds = opml_feed_list(outlines);
        self.import_feeds(feeds)
    }

    /// Imports the feeds of an OPML document: `Err` where the opml crate
    /// rejects it, else the outcome of each feed it names.
    pub fn import_opml(&mut self, text: &str) -> (r: Result<Vec<ImportOutcome>, FetchError>)
        ensures
            store_wf(final(self)@),
            r is Err <==> opml_outlines(text@) is None,
            r is Err ==> final(self)@ == old(self)@,
            r matches Ok(v) ==> {
                let fs = opml_feeds(opml_outlines(text@)->0);
                &&& v@.len() == fs.len()
                &&& forall|i: int| 0 <= i < v@.len() ==> outcome_matches(fs[i], #[trigger] outcomes_view(v@)[i])
                &&& final(self)@ == replay_imports(old(self)@, fs, outcomes_view(v@))
            },
    {
        proof {
            use_type_invariant(&*self);
        }
        let outlines = match opml_parse(text) {
            Ok(o) => o,
            Err(e) => { return Err(FetchError::Opml(e)); },
        };
        Ok(self.import_outlines(&outlines))
    }
}

pub open spec fn new_feeds_view(v: Seq<NewFeed>) -> Seq<NewFeedView> {
    v.map_values(|f: NewFeed| f@)
}

fn outline_new_feed(text: &String, xml_url: &Option<String>, out: &mut Vec<NewFeed>)
    ensures
        new_feeds_view(final(out)@) == new_feeds_view(old(out)@) + outline_feed(text@, opt_view(*xml_url)),
{
    match xml_url {
        Some(u) => {
            let ghost before = out@;
            out.push(NewFeed { url: u.clone(), title: Some(text.clone()), etag: None, last_modified: None });
            proof {
                assert(new_feeds_view(out@) =~= new_feeds_view(before) + outline_feed(text@, opt_view(*xml_url)));
            }
        },
        None => {
            proof {
                assert(new_feeds_view(out@) =~= new_feeds_view(old(out)@) + outline_feed(text@, opt_view(*xml_url)));
            }
        },
    }
}

/// The feeds an OPML body names, in the order they are imported.
pub fn opml_feed_list(outlines: &Vec<OpmlOutline>) -> (r: Vec<NewFeed>)
    ensures
        new_feeds_view(r@) == opml_feeds(outlines_view(outlines@)),
{
    let ghost os = outlines_view(outlines@);
    let mut out: Vec<NewFeed> = Vec::new();
    let mut i: usize = 0;
    while i < outlines.len()
        invariant
            os == outlines_view(outlines@),
            i <= outlines.len(),
            new_feeds_view(out@) == opml_feeds(os.take(i as int)),
        decreases outlines.len() - i,
    {
        let o = &outlines[i];
        let ghost oi = os[i as int];
        proof {
            assert(oi == o@);
        }
        outline_new_feed(&o.text, &o.xml_url, &mut out);
        let ghost mid = new_feeds_view(out@);
        let ghost cs = oi.children;
        let mut j: usize = 0;
        while j < o.children.len()
            invariant
                cs == o@.children,
                j <= o.children.len(),
                new_feeds_view(out@) == mid + entries_feeds(cs.take(j as int)),
            decreases o.children.len() - j,
        {
            let c = &o.children[j];
            proof {
                assert(cs[j as int] == c@);
            }
            outline_new_feed(&c.text, &c.xml_url, &mut out);
            proof {
                assert(cs.take(j + 1).drop_last() =~= cs.take(j as int));
                assert(new_feeds_view(out@) =~= mid + entries_feeds(cs.take(j + 1)));
            }
            j = j + 1;
        }
        proof {
            assert(cs.take(j as int) =~= cs);
            assert(os.take(i + 1).drop_last() =~= os.take(i as int));
            assert(os.take(i + 1).last() == oi);
            assert(new_feeds_view(out@) =~= opml_feeds(os.take(i + 1)));
        }
        i = i + 1;
    }
    proof {
        assert(os.take(i as int) =~= os);
    }
    out
}

} // verus!
