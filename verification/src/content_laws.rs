//! What the values the library builds carry of their inputs: the article a
//! feed entry becomes, the feeds an OPML list names, and the JSON record of an
//! article.
use vstd::prelude::*;
use crate::export::{article_record, JsonScalarView};
use crate::fetch::{
    entry_article, entries_feeds, opml_feeds, parsed_events, OpmlEntryView, OpmlOutlineView, ParsedFeedView,
    RefreshEventView,
};
use crate::models::{ArticleView, NewFeedView};

verus! {

broadcast use vstd::seq_lib::group_seq_properties;

/// Each entry of a refreshed feed, in order, becomes an article event of that
/// feed carrying the entry's id as GUID, its title (or `Untitled`), its first
/// link, its summary, its content and its publication date; after the
/// entries comes the end of the feed with every entry's id.
pub proof fn law_refresh_events_carry_entries(feed_id: i64, p: ParsedFeedView)
    ensures
        parsed_events(feed_id, p).len() == p.entries.len() + 1,
        forall|i: int| 0 <= i < p.entries.len() ==> {
            let e = #[trigger] p.entries[i];
            &&& parsed_events(feed_id, p)[i] is Article
            &&& parsed_events(feed_id, p)[i]->Article_0.feed_id == feed_id
            &&& parsed_events(feed_id, p)[i]->Article_0.guid == e.id
            &&& parsed_events(feed_id, p)[i]->Article_0.published_at == e.published
            &&& parsed_events(feed_id, p)[i]->Article_0.content == e.content
            &&& parsed_events(feed_id, p)[i]->Article_0.summary == e.summary
            &&& (e.title matches Some(t) ==> parsed_events(feed_id, p)[i]->Article_0.title == t)
            &&& (e.title is None ==> parsed_events(feed_id, p)[i]->Article_0.title == "Untitled"@)
            &&& (e.links.len() > 0 ==> parsed_events(feed_id, p)[i]->Article_0.url == Some(e.links[0]))
            &&& (e.links.len() == 0 ==> parsed_events(feed_id, p)[i]->Article_0.url is None)
        },
        parsed_events(feed_id, p).last() is FeedFinished,
        parsed_events(feed_id, p).last()->FeedFinished_0 == feed_id,
        parsed_events(feed_id, p).last()->FeedFinished_1.len() == p.entries.len(),
        forall|i: int| 0 <= i < p.entries.len()
            ==> parsed_events(feed_id, p).last()->FeedFinished_1[i] == (#[trigger] p.entries[i]).id,
{
    let evs = parsed_events(feed_id, p);
    assert forall|i: int| 0 <= i < p.entries.len() implies {
        let e = #[trigger] p.entries[i];
        &&& evs[i] is Article
        &&& evs[i]->Article_0.feed_id == feed_id
        &&& evs[i]->Article_0.guid == e.id
        &&& evs[i]->Article_0.published_at == e.published
        &&& evs[i]->Article_0.content == e.content
        &&& evs[i]->Article_0.summary == e.summary
        &&& (e.title matches Some(t) ==> evs[i]->Article_0.title == t)
        &&& (e.title is None ==> evs[i]->Article_0.title == "Untitled"@)
        &&& (e.links.len() > 0 ==> evs[i]->Article_0.url == Some(e.links[0]))
        &&& (e.links.len() == 0 ==> evs[i]->Article_0.url is None)
    } by {
        let a = entry_article(feed_id, p.entries[i]);
        assert(evs[i] == RefreshEventView::Article(a));
        assert(a.published_at == p.entries[i].published);
        assert(a.content == p.entries[i].content);
    }
}

/// The number of outlines among `cs` that name a feed.
pub open spec fn entries_with_url(cs: Seq<OpmlEntryView>) -> nat
    decreases cs.len(),
{
    if cs.len() == 0 {
        0
    } else {
        entries_with_url(cs.drop_last()) + if cs.last().xml_url is Some { 1nat } else { 0nat }
    }
}

/// The number of top-level outlines and outlines directly under them that
/// name a feed.
pub open spec fn outlines_with_url(os: Seq<OpmlOutlineView>) -> nat
    decreases os.len(),
{
    if os.len() == 0 {
        0
    } else {
        outlines_with_url(os.drop_last()) + (if os.last().xml_url is Some { 1nat } else { 0nat })
            + entries_with_url(os.last().children)
    }
}

/// The feed an outline with this text and URL names.
pub open spec fn named_feed(text: Seq<char>, url: Seq<char>) -> NewFeedView {
    NewFeedView { url, title: Some(text), etag: None, last_modified: None }
}

proof fn lemma_entries_feeds(cs: Seq<OpmlEntryView>)
    ensures
        entries_feeds(cs).len() == entries_with_url(cs),
        forall|j: int| 0 <= j < cs.len() && (#[trigger] cs[j]).xml_url is Some
            ==> entries_feeds(cs).contains(named_feed(cs[j].text, cs[j].xml_url->0)),
    decreases cs.len(),
{
    if cs.len() > 0 {
        let c0 = cs.drop_last();
        lemma_entries_feeds(c0);
        let tail = crate::fetch::outline_feed(cs.last().text, cs.last().xml_url);
        assert(entries_feeds(cs) == entries_feeds(c0) + tail);
        assert forall|j: int| 0 <= j < cs.len() && (#[trigger] cs[j]).xml_url is Some
            implies entries_feeds(cs).contains(named_feed(cs[j].text, cs[j].xml_url->0)) by {
            let whole = entries_feeds(cs);
            if j < c0.len() {
                assert(c0[j] == cs[j]);
                let k = choose|k: int| 0 <= k < entries_feeds(c0).len() && entries_feeds(c0)[k] == named_feed(cs[j].text, cs[j].xml_url->0);
                assert(whole[k] == entries_feeds(c0)[k]);
            } else {
                assert(tail[0] == named_feed(cs[j].text, cs[j].xml_url->0));
                assert(whole[entries_feeds(c0).len() as int] == tail[0]);
            }
        }
    }
}

/// Importing an OPML body imports one feed for every top-level outline and
/// every outline directly under one that carries a feed URL, under that URL
/// and titled with the outline's text, and no other.
pub proof fn law_opml_feeds_complete(os: Seq<OpmlOutlineView>)
    ensures
        opml_feeds(os).len() == outlines_with_url(os),
        forall|i: int| 0 <= i < os.len() && (#[trigger] os[i]).xml_url is Some
            ==> opml_feeds(os).contains(named_feed(os[i].text, os[i].xml_url->0)),
        forall|i: int, j: int| 0 <= i < os.len() && 0 <= j < os[i].children.len()
            && (#[trigger] os[i].children[j]).xml_url is Some
            ==> opml_feeds(os).contains(named_feed(os[i].children[j].text, os[i].children[j].xml_url->0)),
    decreases os.len(),
{
    if os.len() > 0 {
        let o0 = os.drop_last();
        law_opml_feeds_complete(o0);
        let last = os.last();
        lemma_entries_feeds(last.children);
        let own = crate::fetch::outline_feed(last.text, last.xml_url);
        let kids = entries_feeds(last.children);
        let head = opml_feeds(o0);
        let whole = opml_feeds(os);
        assert(whole == head + own + kids);
        assert forall|i: int| 0 <= i < os.len() && (#[trigger] os[i]).xml_url is Some
            implies whole.contains(named_feed(os[i].text, os[i].xml_url->0)) by {
            if i < o0.len() {
                assert(o0[i] == os[i]);
                let k = choose|k: int| 0 <= k < head.len() && head[k] == named_feed(os[i].text, os[i].xml_url->0);
                assert(whole[k] == head[k]);
            } else {
                assert(own[0] == named_feed(os[i].text, os[i].xml_url->0));
                assert(whole[head.len() as int] == own[0]);
            }
        }
        assert forall|i: int, j: int| 0 <= i < os.len() && 0 <= j < os[i].children.len()
            && (#[trigger] os[i].children[j]).xml_url is Some
            implies whole.contains(named_feed(os[i].children[j].text, os[i].children[j].xml_url->0)) by {
            let f = named_feed(os[i].children[j].text, os[i].children[j].xml_url->0);
            if i < o0.len() {
                assert(o0[i] == os[i]);
                assert(o0[i].children[j] == os[i].children[j]);
                let k = choose|k: int| 0 <= k < head.len() && head[k] == f;
                assert(whole[k] == head[k]);
            } else {
                assert(last.children[j] == os[i].children[j]);
                let k = choose|k: int| 0 <= k < kids.len() && kids[k] == f;
                assert(whole[head.len() + own.len() + k] == kids[k]);
            }
        }
    }
}

/// The JSON record of an article holds, in order, its id, feed id, GUID and
/// title, its link, summary and content as strings where it has them and
/// null where not, its date in RFC 3339 or null, and its read flag.
pub proof fn law_json_record_fields(a: ArticleView)
    ensures
        article_record(a).len() == 9,
        article_record(a)[0] == ("id"@, JsonScalarView::Int(a.id)),
        article_record(a)[1] == ("feed_id"@, JsonScalarView::Int(a.feed_id)),
        article_record(a)[2] == ("guid"@, JsonScalarView::Str(a.guid)),
        article_record(a)[3] == ("title"@, JsonScalarView::Str(a.title)),
        article_record(a)[4].0 == "url"@,
        a.url matches Some(u) ==> article_record(a)[4].1 == JsonScalarView::Str(u),
        a.url is None ==> article_record(a)[4].1 == JsonScalarView::Null,
        article_record(a)[5].0 == "summary"@,
        a.summary matches Some(u) ==> article_record(a)[5].1 == JsonScalarView::Str(u),
        a.summary is None ==> article_record(a)[5].1 == JsonScalarView::Null,
        article_record(a)[6].0 == "content"@,
        a.content matches Some(u) ==> article_record(a)[6].1 == JsonScalarView::Str(u),
        a.content is None ==> article_record(a)[6].1 == JsonScalarView::Null,
        article_record(a)[7].0 == "published_at"@,
        a.published_at matches Some(t) ==> article_record(a)[7].1 == JsonScalarView::Str(crate::timestamp::rfc3339_text(t@)),
        a.published_at is None ==> article_record(a)[7].1 == JsonScalarView::Null,
        article_record(a)[8] == ("is_read"@, JsonScalarView::Bool(a.is_read)),
{
}

} // verus!
