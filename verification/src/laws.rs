//! What holds of the tables across operations: adding twice is adding once,
//! importing a list twice is importing it once, a known article is not
//! counted again, reading marks stick, pruning keeps exactly the articles
//! still in the feed, a refresh leaves the feed's articles matching its
//! entries, and every change keeps the tables well formed and each article
//! attached to a feed.
use vstd::prelude::*;
use crate::models::{ArticleView, FeedView, NewArticleView, NewFeedView};
use crate::store::{
    above_article_ids, above_feed_ids, all_read, article_insertable, feed_of_article_other,
    feed_id_other, guid_index, has_article_id, has_feed_id, has_guid, has_url, insert_count,
    listed_articles, new_or_old, one_read, prune_keeps, pruned, refs_intact, store_wf,
    survives_prune, unread_pred, updated_article, updated_feed, upsert_article, upsert_feed,
    upsert_feed_id, url_index, urls_unique, created_feed, with_metadata, without_feed, StoreView,
};
use crate::fetch::{entry_article, parsed_events, replay_imports, ImportOutcomeView, ParsedEntryView, ParsedFeedView, RefreshEventView};

verus! {

broadcast use vstd::seq_lib::group_seq_properties;

/// Adding a feed keeps the tables well formed.
pub proof fn law_upsert_feed_wf(s: StoreView, nf: NewFeedView, id: i64)
    requires
        store_wf(s),
        has_url(s.feeds, nf.url) || above_feed_ids(s.feeds, id),
    ensures
        store_wf(upsert_feed(s, nf, id)),
{
    let r = upsert_feed(s, nf, id);
    if has_url(s.feeds, nf.url) {
        let i = url_index(s.feeds, nf.url);
        assert forall|a: int, b: int| 0 <= a < r.feeds.len() && 0 <= b < r.feeds.len() && a != b
            implies r.feeds[a].url != r.feeds[b].url by {
            assert(s.feeds[a].url != s.feeds[b].url);
        }
    } else {
        assert forall|a: int, b: int| 0 <= a < r.feeds.len() && 0 <= b < r.feeds.len() && a != b
            implies r.feeds[a].url != r.feeds[b].url by {
            if a < s.feeds.len() && b < s.feeds.len() {
                assert(s.feeds[a].url != s.feeds[b].url);
            }
        }
    }
}

/// Adding an article keeps the tables well formed.
pub proof fn law_upsert_article_wf(s: StoreView, na: NewArticleView, id: i64)
    requires
        store_wf(s),
        has_guid(s.articles, na.guid) || above_article_ids(s.articles, id),
    ensures
        store_wf(upsert_article(s, na, id)),
{
    let r = upsert_article(s, na, id);
    if has_guid(s.articles, na.guid) {
        assert forall|a: int, b: int| 0 <= a < r.articles.len() && 0 <= b < r.articles.len() && a != b
            implies r.articles[a].guid != r.articles[b].guid by {
            assert(s.articles[a].guid != s.articles[b].guid);
        }
    } else {
        assert forall|a: int, b: int| 0 <= a < r.articles.len() && 0 <= b < r.articles.len() && a != b
            implies r.articles[a].guid != r.articles[b].guid by {
            if a < s.articles.len() && b < s.articles.len() {
                assert(s.articles[a].guid != s.articles[b].guid);
            }
        }
    }
}

/// After a feed is added, exactly one feed has its URL; that feed carries the
/// new title, and the id it answers with is that feed's id.
pub proof fn law_added_feed_present(s: StoreView, nf: NewFeedView, id: i64)
    requires
        store_wf(s),
        has_url(s.feeds, nf.url) || above_feed_ids(s.feeds, id),
    ensures
        has_url(upsert_feed(s, nf, id).feeds, nf.url),
        upsert_feed(s, nf, id).feeds[url_index(upsert_feed(s, nf, id).feeds, nf.url)].title == nf.title,
        upsert_feed(s, nf, id).feeds[url_index(upsert_feed(s, nf, id).feeds, nf.url)].id
            == upsert_feed_id(s, nf, id),
        upsert_feed(s, nf, id).feeds.len() == s.feeds.len() + (if has_url(s.feeds, nf.url) { 0int } else { 1int }),
{
    law_upsert_feed_wf(s, nf, id);
    let r = upsert_feed(s, nf, id);
    let k = if has_url(s.feeds, nf.url) { url_index(s.feeds, nf.url) } else { s.feeds.len() as int };
    assert(r.feeds[k].url == nf.url);
    let j = url_index(r.feeds, nf.url);
    assert(r.feeds[j].url == nf.url);
    assert(j == k);
}

/// Adding the same feed twice leaves the tables as adding it once.
pub proof fn law_add_feed_idempotent(s: StoreView, nf: NewFeedView, id: i64, id2: i64)
    requires
        store_wf(s),
        has_url(s.feeds, nf.url) || above_feed_ids(s.feeds, id),
    ensures
        upsert_feed(upsert_feed(s, nf, id), nf, id2) == upsert_feed(s, nf, id),
        upsert_feed_id(upsert_feed(s, nf, id), nf, id2) == upsert_feed_id(s, nf, id),
{
    law_added_feed_present(s, nf, id);
    let r = upsert_feed(s, nf, id);
    let j = url_index(r.feeds, nf.url);
    assert(updated_feed(r.feeds[j], nf) == r.feeds[j]);
    assert(r.feeds.update(j, updated_feed(r.feeds[j], nf)) =~= r.feeds);
}

/// After an article is added, its GUID is known, and adding it once more
/// creates nothing: the answer is 0.
pub proof fn law_reinsert_counts_zero(s: StoreView, na: NewArticleView, id: i64)
    requires
        store_wf(s),
        has_guid(s.articles, na.guid) || above_article_ids(s.articles, id),
    ensures
        has_guid(upsert_article(s, na, id).articles, na.guid),
        insert_count(upsert_article(s, na, id), na) == 0,
{
    let r = upsert_article(s, na, id);
    if has_guid(s.articles, na.guid) {
        let i = guid_index(s.articles, na.guid);
        assert(r.articles[i].guid == na.guid);
    } else {
        assert(r.articles[s.articles.len() as int].guid == na.guid);
    }
}

/// Adding the same article twice leaves the tables as adding it once.
pub proof fn law_add_article_idempotent(s: StoreView, na: NewArticleView, id: i64, id2: i64)
    requires
        store_wf(s),
        has_guid(s.articles, na.guid) || above_article_ids(s.articles, id),
    ensures
        upsert_article(upsert_article(s, na, id), na, id2) == upsert_article(s, na, id),
{
    law_upsert_article_wf(s, na, id);
    law_reinsert_counts_zero(s, na, id);
    let r = upsert_article(s, na, id);
    let k = if has_guid(s.articles, na.guid) { guid_index(s.articles, na.guid) } else { s.articles.len() as int };
    assert(r.articles[k].guid == na.guid);
    let j = guid_index(r.articles, na.guid);
    assert(r.articles[j].guid == na.guid);
    assert(j == k);
    assert(updated_article(r.articles[j], na) == r.articles[j]);
    assert(r.articles.update(j, updated_article(r.articles[j], na)) =~= r.articles);
}

/// Adding an article of a known GUID keeps the article's id, its feed and
/// its read flag.
pub proof fn law_readd_keeps_identity(s: StoreView, na: NewArticleView, id: i64)
    requires
        store_wf(s),
        has_guid(s.articles, na.guid),
    ensures
        ({
            let i = guid_index(s.articles, na.guid);
            let a = upsert_article(s, na, id).articles[i];
            &&& a.id == s.articles[i].id
            &&& a.feed_id == s.articles[i].feed_id
            &&& a.is_read == s.articles[i].is_read
        }),
        upsert_article(s, na, id).articles.len() == s.articles.len(),
{
}

/// A new article starts unread.
pub proof fn law_new_article_unread(s: StoreView, na: NewArticleView, id: i64)
    requires
        !has_guid(s.articles, na.guid),
    ensures
        upsert_article(s, na, id).articles.last().is_read == false,
        upsert_article(s, na, id).articles.last().guid == na.guid,
        upsert_article(s, na, id).articles.last().feed_id == na.feed_id,
{
}

/// The unread listing holds exactly the unread articles: none that is read,
/// and every article that is not.
pub proof fn law_unread_listing(s: StoreView)
    ensures
        forall|k: int| 0 <= k < listed_articles(s, true).len() ==> !(#[trigger] listed_articles(s, true)[k]).is_read,
        forall|i: int| 0 <= i < s.articles.len() && !s.articles[i].is_read ==> listed_articles(s, true).contains(#[trigger] s.articles[i]),
        listed_articles(s, false) == s.articles,
{
    assert forall|k: int| 0 <= k < listed_articles(s, true).len() implies !(#[trigger] listed_articles(s, true)[k]).is_read by {
        s.articles.lemma_filter_pred(unread_pred(), k);
    }
    assert forall|i: int| 0 <= i < s.articles.len() && !s.articles[i].is_read implies listed_articles(s, true).contains(#[trigger] s.articles[i]) by {
        s.articles.lemma_filter_contains(unread_pred(), i);
    }
}

/// Once an article is marked read it no longer appears among the unread, and
/// it is still listed, read, among all articles.
pub proof fn law_mark_read_hides(s: StoreView, id: i64)
    ensures
        forall|k: int| 0 <= k < listed_articles(one_read(s, id), true).len()
            ==> (#[trigger] listed_articles(one_read(s, id), true)[k]).id != id,
        forall|i: int| 0 <= i < s.articles.len() && s.articles[i].id == id
            ==> (#[trigger] listed_articles(one_read(s, id), false)[i]).is_read
                && listed_articles(one_read(s, id), false)[i].guid == s.articles[i].guid,
        listed_articles(one_read(s, id), false).len() == s.articles.len(),
{
    let r = one_read(s, id);
    assert forall|k: int| 0 <= k < listed_articles(r, true).len()
        implies (#[trigger] listed_articles(r, true)[k]).id != id by {
        r.articles.lemma_filter_pred(unread_pred(), k);
        let a = listed_articles(r, true)[k];
        assert(r.articles.filter(unread_pred()).contains(a));
        r.articles.lemma_filter_contains_rev(unread_pred(), a);
        let j = choose|j: int| 0 <= j < r.articles.len() && r.articles[j] == a;
        assert(r.articles[j] == a);
    }
}

/// Once every article is marked read the unread listing is empty.
pub proof fn law_mark_all_read_empties_unread(s: StoreView)
    ensures
        listed_articles(all_read(s), true).len() == 0,
        all_read(s).articles.len() == s.articles.len(),
{
    let r = all_read(s);
    if listed_articles(r, true).len() > 0 {
        r.articles.lemma_filter_pred(unread_pred(), 0);
        let a = listed_articles(r, true)[0];
        assert(r.articles.filter(unread_pred()).contains(a));
        r.articles.lemma_filter_contains_rev(unread_pred(), a);
        let j = choose|j: int| 0 <= j < r.articles.len() && r.articles[j] == a;
        assert(r.articles[j] == a);
        assert(r.articles[j].is_read);
    }
}

/// Pruning a feed keeps exactly the articles that are not that feed's or
/// whose GUID was seen: afterwards every article of the feed has a seen GUID,
/// and every article that should stay is still there. Feeds are untouched.
pub proof fn law_prune_keeps_seen(s: StoreView, feed_id: i64, seen: Seq<Seq<char>>)
    ensures
        forall|k: int| 0 <= k < pruned(s, feed_id, seen).articles.len()
            && (#[trigger] pruned(s, feed_id, seen).articles[k]).feed_id == feed_id
            ==> seen.contains(pruned(s, feed_id, seen).articles[k].guid),
        forall|i: int| 0 <= i < s.articles.len() && survives_prune(s.articles[i], feed_id, seen)
            ==> pruned(s, feed_id, seen).articles.contains(#[trigger] s.articles[i]),
        pruned(s, feed_id, seen).feeds == s.feeds,
{
    let p = prune_keeps(feed_id, seen);
    assert forall|k: int| 0 <= k < pruned(s, feed_id, seen).articles.len()
        && (#[trigger] pruned(s, feed_id, seen).articles[k]).feed_id == feed_id
        implies seen.contains(pruned(s, feed_id, seen).articles[k].guid) by {
        s.articles.lemma_filter_pred(p, k);
    }
    assert forall|i: int| 0 <= i < s.articles.len() && survives_prune(s.articles[i], feed_id, seen)
        implies pruned(s, feed_id, seen).articles.contains(#[trigger] s.articles[i]) by {
        s.articles.lemma_filter_contains(p, i);
    }
}

/// Refreshing keeps what the feed still carries: an article added from a feed
/// and then kept by pruning that feed with its GUID among those seen is still
/// in the store.
pub proof fn law_refresh_keeps_current(s: StoreView, na: NewArticleView, id: i64, seen: Seq<Seq<char>>)
    requires
        store_wf(s),
        has_guid(s.articles, na.guid) || above_article_ids(s.articles, id),
        seen.contains(na.guid),
    ensures
        has_guid(pruned(upsert_article(s, na, id), na.feed_id, seen).articles, na.guid),
{
    law_reinsert_counts_zero(s, na, id);
    let r = upsert_article(s, na, id);
    let i = guid_index(r.articles, na.guid);
    assert(r.articles[i].guid == na.guid);
    assert(survives_prune(r.articles[i], na.feed_id, seen));
    law_prune_keeps_seen(r, na.feed_id, seen);
    let q = pruned(r, na.feed_id, seen).articles;
    assert(q.contains(r.articles[i]));
    let k = choose|k: int| 0 <= k < q.len() && q[k] == r.articles[i];
    assert(q[k].guid == na.guid);
}

/// Removing a feed leaves no feed of that id and no article of it; the other
/// feeds and articles stay.
pub proof fn law_delete_feed(s: StoreView, id: i64)
    ensures
        !has_feed_id(without_feed(s, id).feeds, id),
        forall|k: int| 0 <= k < without_feed(s, id).articles.len() ==> (#[trigger] without_feed(s, id).articles[k]).feed_id != id,
        forall|i: int| 0 <= i < s.feeds.len() && s.feeds[i].id != id ==> without_feed(s, id).feeds.contains(#[trigger] s.feeds[i]),
        forall|i: int| 0 <= i < s.articles.len() && s.articles[i].feed_id != id ==> without_feed(s, id).articles.contains(#[trigger] s.articles[i]),
{
    let r = without_feed(s, id);
    if has_feed_id(r.feeds, id) {
        let k = choose|k: int| 0 <= k < r.feeds.len() && r.feeds[k].id == id;
        s.feeds.lemma_filter_pred(feed_id_other(id), k);
    }
    assert forall|k: int| 0 <= k < r.articles.len() implies (#[trigger] r.articles[k]).feed_id != id by {
        s.articles.lemma_filter_pred(feed_of_article_other(id), k);
    }
    assert forall|i: int| 0 <= i < s.feeds.len() && s.feeds[i].id != id implies r.feeds.contains(#[trigger] s.feeds[i]) by {
        s.feeds.lemma_filter_contains(feed_id_other(id), i);
    }
    assert forall|i: int| 0 <= i < s.articles.len() && s.articles[i].feed_id != id implies r.articles.contains(#[trigger] s.articles[i]) by {
        s.articles.lemma_filter_contains(feed_of_article_other(id), i);
    }
}

/// Changes to the feeds table keep every article attached to an existing
/// feed: adding a feed, setting a feed's caching headers, and removing a
/// feed (which removes its articles).
pub proof fn law_feed_changes_keep_refs(
    s: StoreView,
    nf: NewFeedView,
    new_id: i64,
    id: i64,
    etag: Option<Seq<char>>,
    last_modified: Option<Seq<char>>,
)
    requires
        refs_intact(s),
    ensures
        refs_intact(upsert_feed(s, nf, new_id)),
        refs_intact(with_metadata(s, id, etag, last_modified)),
        refs_intact(without_feed(s, id)),
{
    let r = upsert_feed(s, nf, new_id);
    assert forall|i: int| 0 <= i < r.articles.len() implies has_feed_id(r.feeds, #[trigger] r.articles[i].feed_id) by {
        let fid = s.articles[i].feed_id;
        assert(has_feed_id(s.feeds, fid));
        let k = choose|k: int| 0 <= k < s.feeds.len() && s.feeds[k].id == fid;
        assert(r.feeds[k].id == fid);
    }
    let m = with_metadata(s, id, etag, last_modified);
    assert forall|i: int| 0 <= i < m.articles.len() implies has_feed_id(m.feeds, #[trigger] m.articles[i].feed_id) by {
        let fid = s.articles[i].feed_id;
        assert(has_feed_id(s.feeds, fid));
        let k = choose|k: int| 0 <= k < s.feeds.len() && s.feeds[k].id == fid;
        assert(m.feeds[k].id == fid);
    }
    let w = without_feed(s, id);
    assert forall|i: int| 0 <= i < w.articles.len() implies has_feed_id(w.feeds, #[trigger] w.articles[i].feed_id) by {
        let a = w.articles[i];
        s.articles.lemma_filter_pred(feed_of_article_other(id), i);
        assert(s.articles.filter(feed_of_article_other(id)).contains(a));
        s.articles.lemma_filter_contains_rev(feed_of_article_other(id), a);
        let j = choose|j: int| 0 <= j < s.articles.len() && s.articles[j] == a;
        assert(has_feed_id(s.feeds, s.articles[j].feed_id));
        let k = choose|k: int| 0 <= k < s.feeds.len() && s.feeds[k].id == a.feed_id;
        s.feeds.lemma_filter_contains(feed_id_other(id), k);
        let q = choose|q: int| 0 <= q < w.feeds.len() && w.feeds[q] == s.feeds[k];
        assert(w.feeds[q].id == a.feed_id);
    }
}

/// Changes to the articles table keep every article attached to an existing
/// feed: adding an article where that may proceed, marking one or all read,
/// and pruning.
pub proof fn law_article_changes_keep_refs(
    s: StoreView,
    na: NewArticleView,
    new_id: i64,
    id: i64,
    feed_id: i64,
    seen: Seq<Seq<char>>,
)
    requires
        refs_intact(s),
        store_wf(s),
        article_insertable(s, na),
    ensures
        refs_intact(upsert_article(s, na, new_id)),
        refs_intact(all_read(s)),
        refs_intact(one_read(s, id)),
        refs_intact(pruned(s, feed_id, seen)),
{
    let r = upsert_article(s, na, new_id);
    assert forall|i: int| 0 <= i < r.articles.len() implies has_feed_id(r.feeds, #[trigger] r.articles[i].feed_id) by {
        if i < s.articles.len() {
            assert(has_feed_id(s.feeds, s.articles[i].feed_id));
        }
    }
    let a1 = all_read(s);
    assert forall|i: int| 0 <= i < a1.articles.len() implies has_feed_id(a1.feeds, #[trigger] a1.articles[i].feed_id) by {
        assert(has_feed_id(s.feeds, s.articles[i].feed_id));
    }
    let o = one_read(s, id);
    assert forall|i: int| 0 <= i < o.articles.len() implies has_feed_id(o.feeds, #[trigger] o.articles[i].feed_id) by {
        assert(has_feed_id(s.feeds, s.articles[i].feed_id));
    }
    let p = pruned(s, feed_id, seen);
    assert forall|i: int| 0 <= i < p.articles.len() implies has_feed_id(p.feeds, #[trigger] p.articles[i].feed_id) by {
        let a = p.articles[i];
        s.articles.lemma_filter_pred(prune_keeps(feed_id, seen), i);
        assert(s.articles.filter(prune_keeps(feed_id, seen)).contains(a));
        s.articles.lemma_filter_contains_rev(prune_keeps(feed_id, seen), a);
        let j = choose|j: int| 0 <= j < s.articles.len() && s.articles[j] == a;
        assert(has_feed_id(s.feeds, s.articles[j].feed_id));
    }
}


// ---------------------------------------------------------------------------
// Importing the same list twice.

/// The feeds of `fs` that carry URL `u`, in order.
pub open spec fn with_url(fs: Seq<NewFeedView>, u: Seq<char>) -> Seq<NewFeedView>
    decreases fs.len(),
{
    if fs.len() == 0 {
        Seq::empty()
    } else if fs.last().url == u {
        with_url(fs.drop_last(), u).push(fs.last())
    } else {
        with_url(fs.drop_last(), u)
    }
}

/// A feed record after the feeds `fs` of its URL are added over it in turn.
pub open spec fn updated_by(x: FeedView, fs: Seq<NewFeedView>) -> FeedView
    decreases fs.len(),
{
    if fs.len() == 0 {
        x
    } else {
        updated_feed(updated_by(x, fs.drop_last()), fs.last())
    }
}

/// Every outcome reports a stored feed.
pub open spec fn all_imported(os: Seq<ImportOutcomeView>) -> bool {
    forall|i: int| 0 <= i < os.len() ==> (#[trigger] os[i]) is Imported
}

/// Adding feeds keeps a record's id and URL and leaves it the title of the
/// last feed added.
proof fn lemma_updated_by_keeps(x: FeedView, fs: Seq<NewFeedView>)
    ensures
        updated_by(x, fs).id == x.id,
        updated_by(x, fs).url == x.url,
        fs.len() > 0 ==> updated_by(x, fs).title == fs.last().title,
        fs.len() == 0 ==> updated_by(x, fs) == x,
    decreases fs.len(),
{
    if fs.len() > 0 {
        lemma_updated_by_keeps(x, fs.drop_last());
    }
}

/// The etag after adding feeds depends on the etag before, not on the rest
/// of the record.
proof fn lemma_updated_by_etag(x: FeedView, y: FeedView, fs: Seq<NewFeedView>)
    requires
        x.etag == y.etag,
    ensures
        updated_by(x, fs).etag == updated_by(y, fs).etag,
    decreases fs.len(),
{
    if fs.len() > 0 {
        lemma_updated_by_etag(x, y, fs.drop_last());
    }
}

/// The last-modified value after adding feeds depends on the one before, not
/// on the rest of the record.
proof fn lemma_updated_by_modified(x: FeedView, y: FeedView, fs: Seq<NewFeedView>)
    requires
        x.last_modified == y.last_modified,
    ensures
        updated_by(x, fs).last_modified == updated_by(y, fs).last_modified,
    decreases fs.len(),
{
    if fs.len() > 0 {
        lemma_updated_by_modified(x, y, fs.drop_last());
    }
}

/// Replaying stored feeds whose URLs are all in the store changes no
/// record but by the feeds of its own URL, and adds none.
proof fn lemma_replay_known(t: StoreView, fs: Seq<NewFeedView>, os: Seq<ImportOutcomeView>)
    requires
        urls_unique(t.feeds),
        os.len() == fs.len(),
        all_imported(os),
        forall|i: int| 0 <= i < fs.len() ==> has_url(t.feeds, (#[trigger] fs[i]).url),
    ensures
        replay_imports(t, fs, os).feeds.len() == t.feeds.len(),
        forall|j: int| 0 <= j < t.feeds.len() ==> #[trigger] replay_imports(t, fs, os).feeds[j]
            == updated_by(t.feeds[j], with_url(fs, t.feeds[j].url)),
    decreases fs.len(),
{
    if fs.len() > 0 {
        let fs0 = fs.drop_last();
        let os0 = os.drop_last();
        assert forall|i: int| 0 <= i < os0.len() implies (#[trigger] os0[i]) is Imported by {
            assert(os0[i] == os[i]);
        }
        assert forall|i: int| 0 <= i < fs0.len() implies has_url(t.feeds, (#[trigger] fs0[i]).url) by {
            assert(fs0[i] == fs[i]);
        }
        lemma_replay_known(t, fs0, os0);
        let prev = replay_imports(t, fs0, os0);
        let f = fs.last();
        assert(os[os.len() - 1] is Imported);
        assert(has_url(t.feeds, fs[fs.len() - 1].url));
        let w = choose|i: int| 0 <= i < t.feeds.len() && t.feeds[i].url == f.url;
        assert(prev.feeds[w] == updated_by(t.feeds[w], with_url(fs0, t.feeds[w].url)));
        lemma_updated_by_keeps(t.feeds[w], with_url(fs0, t.feeds[w].url));
        assert(prev.feeds[w].url == f.url);
        assert(has_url(prev.feeds, f.url));
        let k = url_index(prev.feeds, f.url);
        let r = replay_imports(t, fs, os);
        assert(r == upsert_feed(prev, f, os.last()->Imported_0));
        assert forall|j: int| 0 <= j < t.feeds.len() implies #[trigger] r.feeds[j]
            == updated_by(t.feeds[j], with_url(fs, t.feeds[j].url)) by {
            lemma_updated_by_keeps(t.feeds[j], with_url(fs0, t.feeds[j].url));
            lemma_updated_by_keeps(t.feeds[k], with_url(fs0, t.feeds[k].url));
            assert(prev.feeds[k] == updated_by(t.feeds[k], with_url(fs0, t.feeds[k].url)));
            assert(prev.feeds[j] == updated_by(t.feeds[j], with_url(fs0, t.feeds[j].url)));
            if j != k {
                assert(t.feeds[j].url != t.feeds[k].url);
                assert(r.feeds[j] == prev.feeds[j]);
                assert(with_url(fs, t.feeds[j].url) == with_url(fs0, t.feeds[j].url));
            } else {
                let occ = with_url(fs0, t.feeds[k].url);
                assert(with_url(fs, t.feeds[k].url) == occ.push(f));
                assert(occ.push(f).drop_last() =~= occ);
            }
        }
    }
}

/// After feeds are replayed over a store, each record is unchanged by
/// adding once more the feeds of its URL, and every URL replayed is there.
proof fn lemma_replay_settles(s: StoreView, fs: Seq<NewFeedView>, os: Seq<ImportOutcomeView>)
    requires
        urls_unique(s.feeds),
        os.len() == fs.len(),
        all_imported(os),
    ensures
        urls_unique(replay_imports(s, fs, os).feeds),
        forall|i: int| 0 <= i < fs.len() ==> has_url(replay_imports(s, fs, os).feeds, (#[trigger] fs[i]).url),
        forall|j: int| 0 <= j < replay_imports(s, fs, os).feeds.len() ==> {
            let x = #[trigger] replay_imports(s, fs, os).feeds[j];
            updated_by(x, with_url(fs, x.url)) == x
        },
    decreases fs.len(),
{
    if fs.len() > 0 {
        let fs0 = fs.drop_last();
        let os0 = os.drop_last();
        assert forall|i: int| 0 <= i < os0.len() implies (#[trigger] os0[i]) is Imported by {
            assert(os0[i] == os[i]);
        }
        lemma_replay_settles(s, fs0, os0);
        let prev = replay_imports(s, fs0, os0);
        let f = fs.last();
        assert(os[os.len() - 1] is Imported);
        let id = os.last()->Imported_0;
        let r = replay_imports(s, fs, os);
        assert(r == upsert_feed(prev, f, id));
        if has_url(prev.feeds, f.url) {
            let k = url_index(prev.feeds, f.url);
            assert forall|a: int, b: int| 0 <= a < r.feeds.len() && 0 <= b < r.feeds.len() && a != b
                implies r.feeds[a].url != r.feeds[b].url by {
                assert(prev.feeds[a].url != prev.feeds[b].url);
            }
            assert forall|i: int| 0 <= i < fs.len() implies has_url(r.feeds, (#[trigger] fs[i]).url) by {
                if i < fs0.len() {
                    assert(fs0[i] == fs[i]);
                    assert(has_url(prev.feeds, fs0[i].url));
                    let w = choose|w: int| 0 <= w < prev.feeds.len() && prev.feeds[w].url == fs0[i].url;
                    assert(r.feeds[w].url == fs[i].url);
                } else {
                    assert(r.feeds[k].url == f.url);
                }
            }
            assert forall|j: int| 0 <= j < r.feeds.len() implies {
                let x = #[trigger] r.feeds[j];
                updated_by(x, with_url(fs, x.url)) == x
            } by {
                let x = r.feeds[j];
                if j == k {
                    let y = prev.feeds[k];
                    let occ = with_url(fs0, y.url);
                    assert(updated_by(y, occ) == y);
                    assert(x == updated_feed(y, f));
                    assert(with_url(fs, x.url) == occ.push(f));
                    assert(occ.push(f).drop_last() =~= occ);
                    lemma_updated_by_keeps(x, occ);
                    lemma_updated_by_keeps(y, occ);
                    lemma_updated_by_keeps(x, occ.push(f));
                    if f.etag is None {
                        lemma_updated_by_etag(x, y, occ);
                    }
                    if f.last_modified is None {
                        lemma_updated_by_modified(x, y, occ);
                    }
                } else {
                    assert(x == prev.feeds[j]);
                    assert(prev.feeds[j].url != prev.feeds[k].url);
                }
            }
        } else {
            assert forall|a: int, b: int| 0 <= a < r.feeds.len() && 0 <= b < r.feeds.len() && a != b
                implies r.feeds[a].url != r.feeds[b].url by {
                if a < prev.feeds.len() && b < prev.feeds.len() {
                    assert(prev.feeds[a].url != prev.feeds[b].url);
                } else if a < prev.feeds.len() {
                    assert(!(0 <= a < prev.feeds.len() && prev.feeds[a].url == f.url));
                } else if b < prev.feeds.len() {
                    assert(!(0 <= b < prev.feeds.len() && prev.feeds[b].url == f.url));
                }
            }
            let n = prev.feeds.len() as int;
            assert(r.feeds[n].url == f.url);
            assert forall|i: int| 0 <= i < fs.len() implies has_url(r.feeds, (#[trigger] fs[i]).url) by {
                if i < fs0.len() {
                    assert(fs0[i] == fs[i]);
                    assert(has_url(prev.feeds, fs0[i].url));
                    let w = choose|w: int| 0 <= w < prev.feeds.len() && prev.feeds[w].url == fs0[i].url;
                    assert(r.feeds[w].url == fs[i].url);
                }
            }
            assert forall|j: int| 0 <= j < r.feeds.len() implies {
                let x = #[trigger] r.feeds[j];
                updated_by(x, with_url(fs, x.url)) == x
            } by {
                let x = r.feeds[j];
                if j == n {
                    // no earlier feed carries this URL
                    if with_url(fs0, f.url).len() > 0 {
                        lemma_with_url_in(fs0, f.url);
                        let i = choose|i: int| 0 <= i < fs0.len() && fs0[i].url == f.url;
                        assert(fs[i] == fs0[i]);
                        assert(has_url(prev.feeds, fs0[i].url));
                    }
                    assert(with_url(fs, f.url) == with_url(fs0, f.url).push(f));
                    assert(with_url(fs, f.url) =~= seq![f]);
                    assert(seq![f].drop_last() =~= Seq::<NewFeedView>::empty());
                    assert(x == created_feed(f, id));
                    assert(updated_by(x, Seq::<NewFeedView>::empty()) == x);
                    assert(updated_by(x, seq![f]) == updated_feed(x, f));
                } else {
                    assert(x == prev.feeds[j]);
                    assert(prev.feeds[j].url != f.url);
                    assert(with_url(fs, x.url) == with_url(fs0, x.url));
                    assert(updated_by(prev.feeds[j], with_url(fs0, prev.feeds[j].url)) == prev.feeds[j]);
                }
            }
        }
    }
}

/// Some feed of `fs` carries URL `u`.
pub open spec fn has_url_in(fs: Seq<NewFeedView>, u: Seq<char>) -> bool {
    exists|i: int| 0 <= i < fs.len() && fs[i].url == u
}

proof fn lemma_with_url_in(fs: Seq<NewFeedView>, u: Seq<char>)
    requires
        with_url(fs, u).len() > 0,
    ensures
        has_url_in(fs, u),
    decreases fs.len(),
{
    if fs.len() > 0 {
        if fs.last().url == u {
            assert(fs[fs.len() - 1].url == u);
        } else {
            lemma_with_url_in(fs.drop_last(), u);
            let i = choose|i: int| 0 <= i < fs.drop_last().len() && fs.drop_last()[i].url == u;
            assert(fs[i] == fs.drop_last()[i]);
        }
    }
}

/// Importing a list of feeds a second time, where every feed was stored both
/// times, leaves the feeds table as the first import left it: the same
/// feeds, with the same ids, URLs, titles and caching values, in the same
/// order.
pub proof fn law_reimport_keeps_feeds(
    s: StoreView,
    fs: Seq<NewFeedView>,
    first: Seq<ImportOutcomeView>,
    second: Seq<ImportOutcomeView>,
)
    requires
        store_wf(s),
        first.len() == fs.len(),
        second.len() == fs.len(),
        all_imported(first),
        all_imported(second),
    ensures
        replay_imports(replay_imports(s, fs, first), fs, second).feeds == replay_imports(s, fs, first).feeds,
{
    let t = replay_imports(s, fs, first);
    lemma_replay_settles(s, fs, first);
    lemma_replay_known(t, fs, second);
    let r = replay_imports(t, fs, second);
    assert(r.feeds =~= t.feeds);
}


/// The feeds of `fs` that carry URL `u` and were stored, by `os`, in order.
pub open spec fn with_url_stored(fs: Seq<NewFeedView>, os: Seq<ImportOutcomeView>, u: Seq<char>) -> Seq<NewFeedView>
    decreases fs.len(),
{
    if fs.len() == 0 || os.len() != fs.len() {
        Seq::empty()
    } else if os.last() is Imported && fs.last().url == u {
        with_url_stored(fs.drop_last(), os.drop_last(), u).push(fs.last())
    } else {
        with_url_stored(fs.drop_last(), os.drop_last(), u)
    }
}

/// No two feeds of the list share a URL.
pub open spec fn urls_distinct(fs: Seq<NewFeedView>) -> bool {
    forall|i: int, j: int| 0 <= i < j < fs.len() ==> fs[i].url != fs[j].url
}

/// Replaying feeds whose URLs are all in the store, some stored and some
/// failed, changes no record but by the stored feeds of its own URL.
proof fn lemma_replay_known_some(t: StoreView, fs: Seq<NewFeedView>, os: Seq<ImportOutcomeView>)
    requires
        urls_unique(t.feeds),
        os.len() == fs.len(),
        forall|i: int| 0 <= i < fs.len() ==> has_url(t.feeds, (#[trigger] fs[i]).url),
    ensures
        replay_imports(t, fs, os).feeds.len() == t.feeds.len(),
        forall|j: int| 0 <= j < t.feeds.len() ==> #[trigger] replay_imports(t, fs, os).feeds[j]
            == updated_by(t.feeds[j], with_url_stored(fs, os, t.feeds[j].url)),
    decreases fs.len(),
{
    if fs.len() > 0 {
        let fs0 = fs.drop_last();
        let os0 = os.drop_last();
        assert forall|i: int| 0 <= i < fs0.len() implies has_url(t.feeds, (#[trigger] fs0[i]).url) by {
            assert(fs0[i] == fs[i]);
        }
        lemma_replay_known_some(t, fs0, os0);
        let prev = replay_imports(t, fs0, os0);
        let f = fs.last();
        let r = replay_imports(t, fs, os);
        match os.last() {
            ImportOutcomeView::Imported(id, _) => {
                assert(has_url(t.feeds, fs[fs.len() - 1].url));
                let w = choose|i: int| 0 <= i < t.feeds.len() && t.feeds[i].url == f.url;
                assert(prev.feeds[w] == updated_by(t.feeds[w], with_url_stored(fs0, os0, t.feeds[w].url)));
                lemma_updated_by_keeps(t.feeds[w], with_url_stored(fs0, os0, t.feeds[w].url));
                assert(prev.feeds[w].url == f.url);
                let k = url_index(prev.feeds, f.url);
                assert(r == upsert_feed(prev, f, id));
                assert forall|j: int| 0 <= j < t.feeds.len() implies #[trigger] r.feeds[j]
                    == updated_by(t.feeds[j], with_url_stored(fs, os, t.feeds[j].url)) by {
                    lemma_updated_by_keeps(t.feeds[j], with_url_stored(fs0, os0, t.feeds[j].url));
                    lemma_updated_by_keeps(t.feeds[k], with_url_stored(fs0, os0, t.feeds[k].url));
                    assert(prev.feeds[k] == updated_by(t.feeds[k], with_url_stored(fs0, os0, t.feeds[k].url)));
                    assert(prev.feeds[j] == updated_by(t.feeds[j], with_url_stored(fs0, os0, t.feeds[j].url)));
                    if j != k {
                        assert(t.feeds[j].url != t.feeds[k].url);
                        assert(r.feeds[j] == prev.feeds[j]);
                        assert(with_url_stored(fs, os, t.feeds[j].url) == with_url_stored(fs0, os0, t.feeds[j].url));
                    } else {
                        let occ = with_url_stored(fs0, os0, t.feeds[k].url);
                        assert(with_url_stored(fs, os, t.feeds[k].url) == occ.push(f));
                        assert(occ.push(f).drop_last() =~= occ);
                    }
                }
            },
            ImportOutcomeView::Failed(_, _) => {
                assert(r == prev);
                assert forall|j: int| 0 <= j < t.feeds.len() implies #[trigger] r.feeds[j]
                    == updated_by(t.feeds[j], with_url_stored(fs, os, t.feeds[j].url)) by {
                    assert(with_url_stored(fs, os, t.feeds[j].url) == with_url_stored(fs0, os0, t.feeds[j].url));
                    assert(prev.feeds[j] == updated_by(t.feeds[j], with_url_stored(fs0, os0, t.feeds[j].url)));
                }
            },
        }
    }
}

/// Where no two feeds share a URL, the stored feeds of a URL are none, or
/// all the feeds of that URL, which are at most one.
proof fn lemma_distinct_stored(fs: Seq<NewFeedView>, os: Seq<ImportOutcomeView>, u: Seq<char>)
    requires
        urls_distinct(fs),
        os.len() == fs.len(),
    ensures
        with_url(fs, u).len() <= 1,
        with_url_stored(fs, os, u).len() == 0 || with_url_stored(fs, os, u) == with_url(fs, u),
    decreases fs.len(),
{
    if fs.len() > 0 {
        let fs0 = fs.drop_last();
        let os0 = os.drop_last();
        assert forall|i: int, j: int| 0 <= i < j < fs0.len() implies fs0[i].url != fs0[j].url by {
            assert(fs0[i] == fs[i] && fs0[j] == fs[j]);
        }
        lemma_distinct_stored(fs0, os0, u);
        if fs.last().url == u {
            if with_url(fs0, u).len() > 0 {
                lemma_with_url_in(fs0, u);
                let i = choose|i: int| 0 <= i < fs0.len() && fs0[i].url == u;
                assert(fs[i] == fs0[i]);
                assert(fs[i].url != fs[fs.len() - 1].url);
            }
            assert(with_url_stored(fs0, os0, u).len() == 0);
        }
    }
}

/// Importing a list of feeds in which no two share a URL a second time,
/// where every feed was stored the first time and whatever became of each
/// the second time, leaves the feeds table as the first import left it.
pub proof fn law_reimport_keeps_feeds_despite_failures(
    s: StoreView,
    fs: Seq<NewFeedView>,
    first: Seq<ImportOutcomeView>,
    second: Seq<ImportOutcomeView>,
)
    requires
        store_wf(s),
        urls_distinct(fs),
        first.len() == fs.len(),
        second.len() == fs.len(),
        all_imported(first),
    ensures
        replay_imports(replay_imports(s, fs, first), fs, second).feeds == replay_imports(s, fs, first).feeds,
{
    let t = replay_imports(s, fs, first);
    lemma_replay_settles(s, fs, first);
    lemma_replay_known_some(t, fs, second);
    let r = replay_imports(t, fs, second);
    assert forall|j: int| 0 <= j < t.feeds.len() implies r.feeds[j] == t.feeds[j] by {
        let x = t.feeds[j];
        lemma_distinct_stored(fs, second, x.url);
        lemma_updated_by_keeps(x, with_url_stored(fs, second, x.url));
        assert(updated_by(x, with_url(fs, x.url)) == x);
    }
    assert(r.feeds =~= t.feeds);
}

// ---------------------------------------------------------------------------
// Refreshing a feed.

/// The tables after the refresh events `evs` are applied in turn, each with
/// success; `ids` gives the id SQLite hands each event's new row, if any.
pub open spec fn events_applied(s: StoreView, evs: Seq<RefreshEventView>, ids: Seq<i64>) -> StoreView
    decreases evs.len(),
{
    if evs.len() == 0 || ids.len() != evs.len() {
        s
    } else {
        let prev = events_applied(s, evs.drop_last(), ids.drop_last());
        match evs.last() {
            RefreshEventView::Article(a) => upsert_article(prev, a, ids.last()),
            RefreshEventView::FeedFinished(id, guids) => pruned(prev, id, guids),
            RefreshEventView::Metadata(id, e, l) => with_metadata(prev, id, e, l),
        }
    }
}

/// Adding an article loses no GUID.
proof fn lemma_upsert_keeps_guid(s: StoreView, na: NewArticleView, id: i64, g: Seq<char>)
    requires
        has_guid(s.articles, g),
    ensures
        has_guid(upsert_article(s, na, id).articles, g),
{
    let w = choose|i: int| 0 <= i < s.articles.len() && s.articles[i].guid == g;
    let r = upsert_article(s, na, id);
    if has_guid(s.articles, na.guid) {
        let i = guid_index(s.articles, na.guid);
        assert(r.articles[w].guid == g);
    } else {
        assert(r.articles[w].guid == g);
    }
}

/// Adding an article leaves its GUID in the tables.
proof fn lemma_upsert_has_guid(s: StoreView, na: NewArticleView, id: i64)
    ensures
        has_guid(upsert_article(s, na, id).articles, na.guid),
{
    let r = upsert_article(s, na, id);
    if has_guid(s.articles, na.guid) {
        let i = guid_index(s.articles, na.guid);
        assert(r.articles[i].guid == na.guid);
    } else {
        assert(r.articles[s.articles.len() as int].guid == na.guid);
    }
}

/// After the article events of the first `n` entries, every one of those
/// entries' GUIDs is in the tables.
proof fn lemma_articles_applied(s: StoreView, feed_id: i64, es: Seq<ParsedEntryView>, ids: Seq<i64>, n: int)
    requires
        0 <= n <= es.len(),
        ids.len() == es.len(),
    ensures
        forall|i: int| 0 <= i < n ==> has_guid(
            events_applied(
                s,
                es.take(n).map_values(|e: ParsedEntryView| RefreshEventView::Article(entry_article(feed_id, e))),
                ids.take(n),
            ).articles,
            (#[trigger] es[i]).id,
        ),
    decreases n,
{
    if n > 0 {
        lemma_articles_applied(s, feed_id, es, ids, n - 1);
        let evs = es.take(n).map_values(|e: ParsedEntryView| RefreshEventView::Article(entry_article(feed_id, e)));
        let evs0 = es.take(n - 1).map_values(|e: ParsedEntryView| RefreshEventView::Article(entry_article(feed_id, e)));
        assert(evs.drop_last() =~= evs0);
        assert(ids.take(n).drop_last() =~= ids.take(n - 1));
        let prev = events_applied(s, evs0, ids.take(n - 1));
        let na = entry_article(feed_id, es[n - 1]);
        assert(evs.last() == RefreshEventView::Article(na));
        let r = events_applied(s, evs, ids.take(n));
        assert(r == upsert_article(prev, na, ids[n - 1]));
        assert forall|i: int| 0 <= i < n implies has_guid(r.articles, (#[trigger] es[i]).id) by {
            if i < n - 1 {
                lemma_upsert_keeps_guid(prev, na, ids[n - 1], es[i].id);
            } else {
                lemma_upsert_has_guid(prev, na, ids[n - 1]);
            }
        }
    }
}

/// Refreshing a feed with the events of its parsed body, each applied with
/// success, leaves the tables holding an article for every entry of the
/// feed, and no article of the feed whose GUID is not among the entries.
pub proof fn law_refresh_matches_entries(s: StoreView, feed_id: i64, p: ParsedFeedView, ids: Seq<i64>)
    requires
        ids.len() == p.entries.len() + 1,
    ensures
        forall|i: int| 0 <= i < p.entries.len() ==> has_guid(
            events_applied(s, parsed_events(feed_id, p), ids).articles,
            (#[trigger] p.entries[i]).id,
        ),
        forall|k: int| 0 <= k < events_applied(s, parsed_events(feed_id, p), ids).articles.len()
            && (#[trigger] events_applied(s, parsed_events(feed_id, p), ids).articles[k]).feed_id == feed_id
            ==> p.entries.map_values(|e: ParsedEntryView| e.id).contains(
                events_applied(s, parsed_events(feed_id, p), ids).articles[k].guid),
{
    let es = p.entries;
    let n = es.len() as int;
    let arts = es.map_values(|e: ParsedEntryView| RefreshEventView::Article(entry_article(feed_id, e)));
    let seen = es.map_values(|e: ParsedEntryView| e.id);
    let evs = parsed_events(feed_id, p);
    let aids = ids.take(n);
    lemma_articles_applied(s, feed_id, es, aids, n);
    assert(es.take(n) =~= es);
    assert(aids.take(n) =~= aids);
    assert(evs.drop_last() =~= arts);
    assert(ids.drop_last() =~= aids);
    let prev = events_applied(s, arts, aids);
    assert(evs.last() == RefreshEventView::FeedFinished(feed_id, seen));
    let r = events_applied(s, evs, ids);
    assert(r == pruned(prev, feed_id, seen));
    law_prune_keeps_seen(prev, feed_id, seen);
    assert forall|i: int| 0 <= i < n implies has_guid(r.articles, (#[trigger] es[i]).id) by {
        assert(has_guid(prev.articles, es[i].id));
        let w = choose|w: int| 0 <= w < prev.articles.len() && prev.articles[w].guid == es[i].id;
        assert(seen[i] == es[i].id);
        assert(seen.contains(es[i].id));
        assert(survives_prune(prev.articles[w], feed_id, seen));
        assert(r.articles.contains(prev.articles[w]));
        let k = choose|k: int| 0 <= k < r.articles.len() && r.articles[k] == prev.articles[w];
        assert(r.articles[k].guid == es[i].id);
    }
}

} // verus!
