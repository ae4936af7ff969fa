//! The two tables, feeds and articles, and the rules by which they change:
//! adding a feed updates one of the same URL in place, adding an article
//! updates one of the same GUID in place, and so on. The spec functions here
//! are the model; `Store` holds the tables and implements each rule exactly.
use vstd::prelude::*;
use crate::models::{
    articles_view, feeds_view, Article, ArticleView, Feed, FeedView, NewArticle, NewArticleView,
    NewFeed, NewFeedView,
};
use crate::text::{clone_opt, opt_view};

verus! {

broadcast use vstd::seq_lib::group_seq_properties;

/// The contents of both tables, in the order of their ids.
pub struct StoreView {
    pub feeds: Seq<FeedView>,
    pub articles: Seq<ArticleView>,
}

// ---------------------------------------------------------------------------
// Well-formedness: ids grow along each table, URLs and GUIDs are unique.

pub open spec fn feed_ids_increasing(feeds: Seq<FeedView>) -> bool {
    forall|i: int, j: int| 0 <= i < j < feeds.len() ==> feeds[i].id < feeds[j].id
}

pub open spec fn urls_unique(feeds: Seq<FeedView>) -> bool {
    forall|i: int, j: int|
        0 <= i < feeds.len() && 0 <= j < feeds.len() && i != j ==> feeds[i].url != feeds[j].url
}

pub open spec fn article_ids_increasing(articles: Seq<ArticleView>) -> bool {
    forall|i: int, j: int| 0 <= i < j < articles.len() ==> articles[i].id < articles[j].id
}

pub open spec fn guids_unique(articles: Seq<ArticleView>) -> bool {
    forall|i: int, j: int|
        0 <= i < articles.len() && 0 <= j < articles.len() && i != j ==> articles[i].guid
            != articles[j].guid
}

pub open spec fn store_wf(s: StoreView) -> bool {
    &&& feed_ids_increasing(s.feeds)
    &&& urls_unique(s.feeds)
    &&& article_ids_increasing(s.articles)
    &&& guids_unique(s.articles)
}

/// Every article belongs to a feed that is in the store.
pub open spec fn refs_intact(s: StoreView) -> bool {
    forall|i: int| 0 <= i < s.articles.len() ==> has_feed_id(s.feeds, #[trigger] s.articles[i].feed_id)
}

// ---------------------------------------------------------------------------
// Lookups.

pub open spec fn has_url(feeds: Seq<FeedView>, url: Seq<char>) -> bool {
    exists|i: int| 0 <= i < feeds.len() && feeds[i].url == url
}

pub open spec fn url_index(feeds: Seq<FeedView>, url: Seq<char>) -> int {
    choose|i: int| 0 <= i < feeds.len() && feeds[i].url == url
}

pub open spec fn has_feed_id(feeds: Seq<FeedView>, id: i64) -> bool {
    exists|i: int| 0 <= i < feeds.len() && feeds[i].id == id
}

pub open spec fn has_guid(articles: Seq<ArticleView>, guid: Seq<char>) -> bool {
    exists|i: int| 0 <= i < articles.len() && articles[i].guid == guid
}

pub open spec fn guid_index(articles: Seq<ArticleView>, guid: Seq<char>) -> int {
    choose|i: int| 0 <= i < articles.len() && articles[i].guid == guid
}

pub open spec fn has_article_id(articles: Seq<ArticleView>, id: i64) -> bool {
    exists|i: int| 0 <= i < articles.len() && articles[i].id == id
}

/// `id` is larger than every feed id in the table.
pub open spec fn above_feed_ids(feeds: Seq<FeedView>, id: i64) -> bool {
    forall|i: int| 0 <= i < feeds.len() ==> feeds[i].id < id
}

/// `id` is larger than every article id in the table.
pub open spec fn above_article_ids(articles: Seq<ArticleView>, id: i64) -> bool {
    forall|i: int| 0 <= i < articles.len() ==> articles[i].id < id
}

/// A new value where one is given, else the value that was there.
pub open spec fn new_or_old(new: Option<Seq<char>>, old: Option<Seq<char>>) -> Option<Seq<char>> {
    if new is Some { new } else { old }
}

// ---------------------------------------------------------------------------
// Adding a feed: a feed of the same URL has its title replaced and keeps its
// etag and last-modified values where the new ones are missing; otherwise a
// feed is appended under the fresh id.

pub open spec fn updated_feed(old: FeedView, nf: NewFeedView) -> FeedView {
    FeedView {
        id: old.id,
        url: old.url,
        title: nf.title,
        etag: new_or_old(nf.etag, old.etag),
        last_modified: new_or_old(nf.last_modified, old.last_modified),
    }
}

pub open spec fn created_feed(nf: NewFeedView, id: i64) -> FeedView {
    FeedView { id, url: nf.url, title: nf.title, etag: nf.etag, last_modified: nf.last_modified }
}

pub open spec fn upsert_feed(s: StoreView, nf: NewFeedView, new_id: i64) -> StoreView {
    if has_url(s.feeds, nf.url) {
        let i = url_index(s.feeds, nf.url);
        StoreView { feeds: s.feeds.update(i, updated_feed(s.feeds[i], nf)), articles: s.articles }
    } else {
        StoreView { feeds: s.feeds.push(created_feed(nf, new_id)), articles: s.articles }
    }
}

/// The id that adding `nf` answers with.
pub open spec fn upsert_feed_id(s: StoreView, nf: NewFeedView, new_id: i64) -> i64 {
    if has_url(s.feeds, nf.url) {
        s.feeds[url_index(s.feeds, nf.url)].id
    } else {
        new_id
    }
}

// ---------------------------------------------------------------------------
// Adding an article: an article of the same GUID (of whatever feed) has its
// title, link, summary and date replaced and keeps its content where the new
// one is missing; its feed and read flag stay. Otherwise an unread article is
// appended under the fresh id, provided its feed exists.

pub open spec fn updated_article(old: ArticleView, na: NewArticleView) -> ArticleView {
    ArticleView {
        id: old.id,
        feed_id: old.feed_id,
        guid: old.guid,
        title: na.title,
        url: na.url,
        summary: na.summary,
        content: new_or_old(na.content, old.content),
        published_at: na.published_at,
        is_read: old.is_read,
    }
}

pub open spec fn created_article(na: NewArticleView, id: i64) -> ArticleView {
    ArticleView {
        id,
        feed_id: na.feed_id,
        guid: na.guid,
        title: na.title,
        url: na.url,
        summary: na.summary,
        content: na.content,
        published_at: na.published_at,
        is_read: false,
    }
}

pub open spec fn upsert_article(s: StoreView, na: NewArticleView, new_id: i64) -> StoreView {
    if has_guid(s.articles, na.guid) {
        let i = guid_index(s.articles, na.guid);
        StoreView {
            feeds: s.feeds,
            articles: s.articles.update(i, updated_article(s.articles[i], na)),
        }
    } else {
        StoreView { feeds: s.feeds, articles: s.articles.push(created_article(na, new_id)) }
    }
}

/// Adding `na` may proceed: its GUID is known already, or its feed exists.
pub open spec fn article_insertable(s: StoreView, na: NewArticleView) -> bool {
    has_guid(s.articles, na.guid) || has_feed_id(s.feeds, na.feed_id)
}

/// The number of articles that adding `na` creates.
pub open spec fn insert_count(s: StoreView, na: NewArticleView) -> usize {
    if has_guid(s.articles, na.guid) { 0 } else { 1 }
}

// ---------------------------------------------------------------------------
// The other changes and queries.

pub open spec fn unread_pred() -> spec_fn(ArticleView) -> bool {
    |a: ArticleView| !a.is_read
}

pub open spec fn feed_id_other(id: i64) -> spec_fn(FeedView) -> bool {
    |f: FeedView| f.id != id
}

pub open spec fn feed_of_article_other(id: i64) -> spec_fn(ArticleView) -> bool {
    |a: ArticleView| a.feed_id != id
}

pub open spec fn prune_keeps(feed_id: i64, seen: Seq<Seq<char>>) -> spec_fn(ArticleView) -> bool {
    |a: ArticleView| survives_prune(a, feed_id, seen)
}

pub open spec fn listed_articles(s: StoreView, unread_only: bool) -> Seq<ArticleView> {
    if unread_only {
        s.articles.filter(unread_pred())
    } else {
        s.articles
    }
}

pub open spec fn with_metadata_feed(
    f: FeedView,
    id: i64,
    etag: Option<Seq<char>>,
    last_modified: Option<Seq<char>>,
) -> FeedView {
    if f.id == id {
        FeedView { id: f.id, url: f.url, title: f.title, etag, last_modified }
    } else {
        f
    }
}

pub open spec fn with_metadata(
    s: StoreView,
    id: i64,
    etag: Option<Seq<char>>,
    last_modified: Option<Seq<char>>,
) -> StoreView {
    StoreView {
        feeds: Seq::new(s.feeds.len(), |i: int| with_metadata_feed(s.feeds[i], id, etag, last_modified)),
        articles: s.articles,
    }
}

/// Removing a feed removes its articles too.
pub open spec fn without_feed(s: StoreView, id: i64) -> StoreView {
    StoreView {
        feeds: s.feeds.filter(feed_id_other(id)),
        articles: s.articles.filter(feed_of_article_other(id)),
    }
}

pub open spec fn read_article(a: ArticleView) -> ArticleView {
    ArticleView { is_read: true, ..a }
}

pub open spec fn all_read(s: StoreView) -> StoreView {
    StoreView { feeds: s.feeds, articles: Seq::new(s.articles.len(), |i: int| read_article(s.articles[i])) }
}

pub open spec fn one_read(s: StoreView, id: i64) -> StoreView {
    StoreView {
        feeds: s.feeds,
        articles: Seq::new(
            s.articles.len(),
            |i: int| if s.articles[i].id == id { read_article(s.articles[i]) } else { s.articles[i] },
        ),
    }
}

/// An article survives pruning of feed `feed_id` unless it belongs to that
/// feed and its GUID is not among `seen`.
pub open spec fn survives_prune(a: ArticleView, feed_id: i64, seen: Seq<Seq<char>>) -> bool {
    !(a.feed_id == feed_id && !seen.contains(a.guid))
}

pub open spec fn pruned(s: StoreView, feed_id: i64, seen: Seq<Seq<char>>) -> StoreView {
    StoreView {
        feeds: s.feeds,
        articles: s.articles.filter(prune_keeps(feed_id, seen)),
    }
}

/// The number of articles that pruning removes.
pub open spec fn prune_count(s: StoreView, feed_id: i64, seen: Seq<Seq<char>>) -> int {
    s.articles.len() - pruned(s, feed_id, seen).articles.len()
}

/// The views of a slice of strings.
pub open spec fn strings_view(s: Seq<String>) -> Seq<Seq<char>> {
    s.map_values(|x: String| x@)
}


// ---------------------------------------------------------------------------
// Filtering keeps the tables well formed.

proof fn lemma_filter_articles_wf(s: Seq<ArticleView>, p: spec_fn(ArticleView) -> bool)
    requires
        article_ids_increasing(s),
        guids_unique(s),
    ensures
        article_ids_increasing(s.filter(p)),
        guids_unique(s.filter(p)),
        forall|k: int| 0 <= k < s.filter(p).len() ==> s.contains(#[trigger] s.filter(p)[k]),
    decreases s.len(),
{
    reveal(Seq::filter);
    if s.len() > 0 {
        let d = s.drop_last();
        lemma_filter_articles_wf(d, p);
        let fd = d.filter(p);
        assert forall|k: int| 0 <= k < fd.len() implies fd[k].id < s.last().id && fd[k].guid
            != s.last().guid by {
            assert(d.contains(fd[k]));
            let j = choose|j: int| 0 <= j < d.len() && d[j] == fd[k];
            assert(s[j] == fd[k]);
            assert(s[j].id < s[s.len() - 1].id);
        }
        assert forall|k: int| 0 <= k < fd.len() implies s.contains(#[trigger] fd[k]) by {
            assert(d.contains(fd[k]));
            let j = choose|j: int| 0 <= j < d.len() && d[j] == fd[k];
            assert(s[j] == fd[k]);
        }
        if p(s.last()) {
            assert(s.filter(p) == fd.push(s.last()));
            assert(s.contains(s[s.len() - 1]));
        } else {
            assert(s.filter(p) == fd);
        }
    }
}

proof fn lemma_filter_feeds_wf(s: Seq<FeedView>, p: spec_fn(FeedView) -> bool)
    requires
        feed_ids_increasing(s),
        urls_unique(s),
    ensures
        feed_ids_increasing(s.filter(p)),
        urls_unique(s.filter(p)),
        forall|k: int| 0 <= k < s.filter(p).len() ==> s.contains(#[trigger] s.filter(p)[k]),
    decreases s.len(),
{
    reveal(Seq::filter);
    if s.len() > 0 {
        let d = s.drop_last();
        lemma_filter_feeds_wf(d, p);
        let fd = d.filter(p);
        assert forall|k: int| 0 <= k < fd.len() implies fd[k].id < s.last().id && fd[k].url
            != s.last().url by {
            assert(d.contains(fd[k]));
            let j = choose|j: int| 0 <= j < d.len() && d[j] == fd[k];
            assert(s[j] == fd[k]);
            assert(s[j].id < s[s.len() - 1].id);
        }
        assert forall|k: int| 0 <= k < fd.len() implies s.contains(#[trigger] fd[k]) by {
            assert(d.contains(fd[k]));
            let j = choose|j: int| 0 <= j < d.len() && d[j] == fd[k];
            assert(s[j] == fd[k]);
        }
        if p(s.last()) {
            assert(s.filter(p) == fd.push(s.last()));
            assert(s.contains(s[s.len() - 1]));
        } else {
            assert(s.filter(p) == fd);
        }
    }
}

// ---------------------------------------------------------------------------
// The tables.

pub struct Store {
    feeds: Vec<Feed>,
    articles: Vec<Article>,
}

impl View for Store {
    type V = StoreView;

    closed spec fn view(&self) -> StoreView {
        StoreView { feeds: feeds_view(self.feeds@), articles: articles_view(self.articles@) }
    }
}

impl Store {
    pub open spec fn wf(&self) -> bool {
        store_wf(self@)
    }

    /// An empty store.
    pub fn new() -> (r: Store)
        ensures
            r@.feeds.len() == 0,
            r@.articles.len() == 0,
            r.wf(),
    {
        Store { feeds: Vec::new(), articles: Vec::new() }
    }

    /// The position of the feed with URL `url`.
    pub fn feed_position(&self, url: &String) -> (r: Option<usize>)
        requires
            self.wf(),
        ensures
            match r {
                Some(i) => {
                    &&& has_url(self@.feeds, url@)
                    &&& i as int == url_index(self@.feeds, url@)
                    &&& i < self@.feeds.len()
                },
                None => !has_url(self@.feeds, url@),
            },
    {
        let mut i: usize = 0;
        while i < self.feeds.len()
            invariant
                self.wf(),
                i <= self.feeds.len(),
                forall|j: int| 0 <= j < i ==> self@.feeds[j].url != url@,
            decreases self.feeds.len() - i,
        {
            if self.feeds[i].url == *url {
                proof {
                    assert(self@.feeds[i as int].url == url@);
                    let k = url_index(self@.feeds, url@);
                    assert(self@.feeds[k].url == url@);
                    assert(urls_unique(self@.feeds));
                    assert(k == i);
                }
                return Some(i);
            }
            i = i + 1;
        }
        None
    }

    /// The position of the article with GUID `guid`.
    pub fn guid_position(&self, guid: &String) -> (r: Option<usize>)
        requires
            self.wf(),
        ensures
            match r {
                Some(i) => {
                    &&& has_guid(self@.articles, guid@)
                    &&& i as int == guid_index(self@.articles, guid@)
                    &&& i < self@.articles.len()
                },
                None => !has_guid(self@.articles, guid@),
            },
    {
        let mut i: usize = 0;
        while i < self.articles.len()
            invariant
                self.wf(),
                i <= self.articles.len(),
                forall|j: int| 0 <= j < i ==> self@.articles[j].guid != guid@,
            decreases self.articles.len() - i,
        {
            if self.articles[i].guid == *guid {
                proof {
                    assert(self@.articles[i as int].guid == guid@);
                    let k = guid_index(self@.articles, guid@);
                    assert(self@.articles[k].guid == guid@);
                    assert(guids_unique(self@.articles));
                    assert(k == i);
                }
                return Some(i);
            }
            i = i + 1;
        }
        None
    }

    /// Whether a feed with id `id` is in the store.
    pub fn has_feed(&self, id: i64) -> (r: bool)
        ensures
            r == has_feed_id(self@.feeds, id),
    {
        let mut i: usize = 0;
        while i < self.feeds.len()
            invariant
                i <= self.feeds.len(),
                forall|j: int| 0 <= j < i ==> self@.feeds[j].id != id,
            decreases self.feeds.len() - i,
        {
            if self.feeds[i].id == id {
                assert(self@.feeds[i as int].id == id);
                return true;
            }
            i = i + 1;
        }
        false
    }

    /// Whether `id` is above every feed id.
    pub fn feed_id_fresh(&self, id: i64) -> (r: bool)
        requires
            self.wf(),
        ensures
            r == above_feed_ids(self@.feeds, id),
    {
        let n = self.feeds.len();
        if n == 0 {
            true
        } else {
            let last = self.feeds[n - 1].id;
            proof {
                assert(self@.feeds[n - 1].id == last);
                if last < id {
                    assert forall|i: int| 0 <= i < self@.feeds.len() implies self@.feeds[i].id < id by {
                        if i < n - 1 {
                            assert(self@.feeds[i].id < self@.feeds[n - 1].id);
                        }
                    }
                }
            }
            last < id
        }
    }

    /// Whether `id` is above every article id.
    pub fn article_id_fresh(&self, id: i64) -> (r: bool)
        requires
            self.wf(),
        ensures
            r == above_article_ids(self@.articles, id),
    {
        let n = self.articles.len();
        if n == 0 {
            true
        } else {
            let last = self.articles[n - 1].id;
            proof {
                assert(self@.articles[n - 1].id == last);
                if last < id {
                    assert forall|i: int| 0 <= i < self@.articles.len() implies self@.articles[i].id < id by {
                        if i < n - 1 {
                            assert(self@.articles[i].id < self@.articles[n - 1].id);
                        }
                    }
                }
            }
            last < id
        }
    }

    /// The feed at position `i`.
    pub fn feed_at(&self, i: usize) -> (r: &Feed)
        requires
            i < self@.feeds.len(),
        ensures
            r@ == self@.feeds[i as int],
    {
        &self.feeds[i]
    }

    /// The article at position `i`.
    pub fn article_at(&self, i: usize) -> (r: &Article)
        requires
            i < self@.articles.len(),
        ensures
            r@ == self@.articles[i as int],
    {
        &self.articles[i]
    }

    /// Adds `nf` as the rule for feeds says, appending it under `new_id` when
    /// its URL is new; answers with the feed's id.
    pub fn upsert_feed(&mut self, nf: &NewFeed, new_id: i64) -> (id: i64)
        requires
            old(self).wf(),
            has_url(old(self)@.feeds, nf@.url) || above_feed_ids(old(self)@.feeds, new_id),
        ensures
            final(self).wf(),
            final(self)@ == upsert_feed(old(self)@, nf@, new_id),
            id == upsert_feed_id(old(self)@, nf@, new_id),
    {
        match self.feed_position(&nf.url) {
            Some(i) => {
                let merged = merged_feed(&self.feeds[i], nf);
                let id = merged.id;
                self.feeds.set(i, merged);
                proof {
                    assert(feeds_view(self.feeds@) =~= old(self)@.feeds.update(i as int, updated_feed(old(self)@.feeds[i as int], nf@)));
                }
                id
            },
            None => {
                let f = Feed {
                    id: new_id,
                    url: nf.url.clone(),
                    title: clone_opt(&nf.title),
                    etag: clone_opt(&nf.etag),
                    last_modified: clone_opt(&nf.last_modified),
                };
                self.feeds.push(f);
                proof {
                    assert(feeds_view(self.feeds@) =~= old(self)@.feeds.push(created_feed(nf@, new_id)));
                    let fs = self@.feeds;
                    assert forall|a: int, b: int| 0 <= a < fs.len() && 0 <= b < fs.len() && a != b
                        implies fs[a].url != fs[b].url by {
                        if a == fs.len() - 1 {
                            assert(old(self)@.feeds[b].url != nf@.url);
                        } else if b == fs.len() - 1 {
                            assert(old(self)@.feeds[a].url != nf@.url);
                        }
                    }
                }
                new_id
            },
        }
    }

    /// Adds `na` as the rule for articles says, appending it under `new_id`
    /// when its GUID is new; answers with the number of articles created.
    pub fn upsert_article(&mut self, na: &NewArticle, new_id: i64) -> (n: usize)
        requires
            old(self).wf(),
            has_guid(old(self)@.articles, na@.guid) || above_article_ids(old(self)@.articles, new_id),
        ensures
            final(self).wf(),
            final(self)@ == upsert_article(old(self)@, na@, new_id),
            n == insert_count(old(self)@, na@),
    {
        match self.guid_position(&na.guid) {
            Some(i) => {
                let merged = merged_article(&self.articles[i], na);
                self.articles.set(i, merged);
                proof {
                    assert(articles_view(self.articles@) =~= old(self)@.articles.update(i as int, updated_article(old(self)@.articles[i as int], na@)));
                }
                0
            },
            None => {
                let a = Article {
                    id: new_id,
                    feed_id: na.feed_id,
                    guid: na.guid.clone(),
                    title: na.title.clone(),
                    url: clone_opt(&na.url),
                    summary: clone_opt(&na.summary),
                    content: clone_opt(&na.content),
                    published_at: na.published_at,
                    is_read: false,
                };
                self.articles.push(a);
                proof {
                    assert(articles_view(self.articles@) =~= old(self)@.articles.push(created_article(na@, new_id)));
                    let xs = self@.articles;
                    assert forall|a: int, b: int| 0 <= a < xs.len() && 0 <= b < xs.len() && a != b
                        implies xs[a].guid != xs[b].guid by {
                        if a == xs.len() - 1 {
                            assert(old(self)@.articles[b].guid != na@.guid);
                        } else if b == xs.len() - 1 {
                            assert(old(self)@.articles[a].guid != na@.guid);
                        }
                    }
                }
                1
            },
        }
    }
}

impl Store {
    /// All feeds, in the order of their ids.
    pub fn all_feeds(&self) -> (r: Vec<Feed>)
        ensures
            feeds_view(r@) == self@.feeds,
    {
        let mut out: Vec<Feed> = Vec::new();
        let mut i: usize = 0;
        while i < self.feeds.len()
            invariant
                i <= self.feeds.len(),
                feeds_view(out@) == self@.feeds.take(i as int),
            decreases self.feeds.len() - i,
        {
            let f = self.feeds[i].clone();
            let ghost before = out@;
            out.push(f);
            proof {
                assert(feeds_view(out@) =~= feeds_view(before).push(self@.feeds[i as int]));
                assert(feeds_view(out@) =~= self@.feeds.take(i + 1));
            }
            i = i + 1;
        }
        proof {
            assert(self@.feeds.take(i as int) =~= self@.feeds);
        }
        out
    }

    /// The articles, or only the unread ones, in the order of their ids.
    pub fn list_articles(&self, unread_only: bool) -> (r: Vec<Article>)
        ensures
            articles_view(r@) == listed_articles(self@, unread_only),
    {
        let ghost all = self@.articles;
        let mut out: Vec<Article> = Vec::new();
        let mut i: usize = 0;
        while i < self.articles.len()
            invariant
                all == self@.articles,
                i <= self.articles.len(),
                articles_view(out@) == (if unread_only {
                    all.take(i as int).filter(unread_pred())
                } else {
                    all.take(i as int)
                }),
            decreases self.articles.len() - i,
        {
            proof {
                assert(all.take(i + 1) =~= all.take(i as int).push(all[i as int]));
                all.take(i as int).lemma_filter_push(all[i as int], unread_pred());
            }
            if !unread_only || !self.articles[i].is_read {
                let a = self.articles[i].clone();
                let ghost before = out@;
                out.push(a);
                proof {
                    assert(articles_view(out@) =~= articles_view(before).push(self@.articles[i as int]));
                }
            }
            i = i + 1;
        }
        proof {
            assert(all.take(i as int) =~= all);
        }
        out
    }
}

impl Store {
    /// Sets the etag and last-modified values of the feed with id `id`.
    pub fn set_metadata(&mut self, id: i64, etag: Option<String>, last_modified: Option<String>)
        requires
            old(self).wf(),
        ensures
            final(self).wf(),
            final(self)@ == with_metadata(old(self)@, id, opt_view(etag), opt_view(last_modified)),
    {
        let ghost all = self@.feeds;
        let ghost e = opt_view(etag);
        let ghost l = opt_view(last_modified);
        let mut out: Vec<Feed> = Vec::new();
        let mut i: usize = 0;
        while i < self.feeds.len()
            invariant
                all == self@.feeds,
                i <= self.feeds.len(),
                e == opt_view(etag),
                l == opt_view(last_modified),
                feeds_view(out@) == Seq::new(i as nat, |k: int| with_metadata_feed(all[k], id, e, l)),
            decreases self.feeds.len() - i,
        {
            let mut f = self.feeds[i].clone();
            if f.id == id {
                f.etag = clone_opt(&etag);
                f.last_modified = clone_opt(&last_modified);
            }
            let ghost before = out@;
            out.push(f);
            proof {
                assert(feeds_view(out@) =~= feeds_view(before).push(with_metadata_feed(all[i as int], id, e, l)));
                assert(feeds_view(out@) =~= Seq::new((i + 1) as nat, |k: int| with_metadata_feed(all[k], id, e, l)));
            }
            i = i + 1;
        }
        self.feeds = out;
        proof {
            assert(self@ =~= with_metadata(old(self)@, id, e, l));
        }
    }

    /// Marks every article read.
    pub fn mark_all_read(&mut self)
        requires
            old(self).wf(),
        ensures
            final(self).wf(),
            final(self)@ == all_read(old(self)@),
    {
        let ghost all = self@.articles;
        let mut out: Vec<Article> = Vec::new();
        let mut i: usize = 0;
        while i < self.articles.len()
            invariant
                all == self@.articles,
                i <= self.articles.len(),
                articles_view(out@) == Seq::new(i as nat, |k: int| read_article(all[k])),
            decreases self.articles.len() - i,
        {
            let mut a = self.articles[i].clone();
            a.is_read = true;
            let ghost before = out@;
            out.push(a);
            proof {
                assert(articles_view(out@) =~= articles_view(before).push(read_article(all[i as int])));
                assert(articles_view(out@) =~= Seq::new((i + 1) as nat, |k: int| read_article(all[k])));
            }
            i = i + 1;
        }
        self.articles = out;
        proof {
            assert(self@ =~= all_read(old(self)@));
        }
    }

    /// Marks the article with id `id` read.
    pub fn mark_read(&mut self, id: i64)
        requires
            old(self).wf(),
        ensures
            final(self).wf(),
            final(self)@ == one_read(old(self)@, id),
    {
        let ghost all = self@.articles;
        let mut out: Vec<Article> = Vec::new();
        let mut i: usize = 0;
        while i < self.articles.len()
            invariant
                all == self@.articles,
                i <= self.articles.len(),
                articles_view(out@) == Seq::new(
                    i as nat,
                    |k: int| if all[k].id == id { read_article(all[k]) } else { all[k] },
                ),
            decreases self.articles.len() - i,
        {
            let mut a = self.articles[i].clone();
            if a.id == id {
                a.is_read = true;
            }
            let ghost before = out@;
            out.push(a);
            proof {
                let ghost x = if all[i as int].id == id { read_article(all[i as int]) } else { all[i as int] };
                assert(articles_view(out@) =~= articles_view(before).push(x));
                assert(articles_view(out@) =~= Seq::new(
                    (i + 1) as nat,
                    |k: int| if all[k].id == id { read_article(all[k]) } else { all[k] },
                ));
            }
            i = i + 1;
        }
        self.articles = out;
        proof {
            assert(self@ =~= one_read(old(self)@, id));
        }
    }

    /// Removes the feed with id `id` and its articles.
    pub fn remove_feed(&mut self, id: i64)
        requires
            old(self).wf(),
        ensures
            final(self).wf(),
            final(self)@ == without_feed(old(self)@, id),
    {
        let ghost fs = self@.feeds;
        let ghost xs = self@.articles;
        let mut feeds: Vec<Feed> = Vec::new();
        let mut i: usize = 0;
        while i < self.feeds.len()
            invariant
                fs == self@.feeds,
                i <= self.feeds.len(),
                feeds_view(feeds@) == fs.take(i as int).filter(feed_id_other(id)),
            decreases self.feeds.len() - i,
        {
            proof {
                assert(fs.take(i + 1) =~= fs.take(i as int).push(fs[i as int]));
                fs.take(i as int).lemma_filter_push(fs[i as int], feed_id_other(id));
            }
            if self.feeds[i].id != id {
                let f = self.feeds[i].clone();
                let ghost before = feeds@;
                feeds.push(f);
                proof {
                    assert(feeds_view(feeds@) =~= feeds_view(before).push(fs[i as int]));
                }
            }
            i = i + 1;
        }
        let mut articles: Vec<Article> = Vec::new();
        let mut j: usize = 0;
        while j < self.articles.len()
            invariant
                xs == self@.articles,
                j <= self.articles.len(),
                articles_view(articles@) == xs.take(j as int).filter(feed_of_article_other(id)),
            decreases self.articles.len() - j,
        {
            proof {
                assert(xs.take(j + 1) =~= xs.take(j as int).push(xs[j as int]));
                xs.take(j as int).lemma_filter_push(xs[j as int], feed_of_article_other(id));
            }
            if self.articles[j].feed_id != id {
                let a = self.articles[j].clone();
                let ghost before = articles@;
                articles.push(a);
                proof {
                    assert(articles_view(articles@) =~= articles_view(before).push(xs[j as int]));
                }
            }
            j = j + 1;
        }
        proof {
            assert(fs.take(i as int) =~= fs);
            assert(xs.take(j as int) =~= xs);
            lemma_filter_feeds_wf(fs, feed_id_other(id));
            lemma_filter_articles_wf(xs, feed_of_article_other(id));
        }
        self.feeds = feeds;
        self.articles = articles;
        proof {
            assert(self@ =~= without_feed(old(self)@, id));
        }
    }

    /// Removes the articles of feed `feed_id` whose GUID is not in `seen`;
    /// answers with their number.
    pub fn prune(&mut self, feed_id: i64, seen: &[String]) -> (n: usize)
        requires
            old(self).wf(),
        ensures
            final(self).wf(),
            final(self)@ == pruned(old(self)@, feed_id, strings_view(seen@)),
            n == prune_count(old(self)@, feed_id, strings_view(seen@)),
    {
        let ghost xs = self@.articles;
        let ghost sv = strings_view(seen@);
        let mut articles: Vec<Article> = Vec::new();
        let mut j: usize = 0;
        while j < self.articles.len()
            invariant
                xs == self@.articles,
                sv == strings_view(seen@),
                j <= self.articles.len(),
                articles_view(articles@) == xs.take(j as int).filter(prune_keeps(feed_id, sv)),
            decreases self.articles.len() - j,
        {
            proof {
                assert(xs.take(j + 1) =~= xs.take(j as int).push(xs[j as int]));
                xs.take(j as int).lemma_filter_push(xs[j as int], prune_keeps(feed_id, sv));
            }
            let keep = self.articles[j].feed_id != feed_id || contains_string(seen, &self.articles[j].guid);
            if keep {
                let a = self.articles[j].clone();
                let ghost before = articles@;
                articles.push(a);
                proof {
                    assert(articles_view(articles@) =~= articles_view(before).push(xs[j as int]));
                }
            }
            j = j + 1;
        }
        proof {
            assert(xs.take(j as int) =~= xs);
            lemma_filter_articles_wf(xs, prune_keeps(feed_id, sv));
            xs.lemma_filter_len(prune_keeps(feed_id, sv));
        }
        let n = self.articles.len() - articles.len();
        self.articles = articles;
        proof {
            assert(self@ =~= pruned(old(self)@, feed_id, sv));
        }
        n
    }
}

/// Whether `s` is among `list`.
pub fn contains_string(list: &[String], s: &String) -> (r: bool)
    ensures
        r == strings_view(list@).contains(s@),
{
    let mut i: usize = 0;
    while i < list.len()
        invariant
            i <= list@.len(),
            forall|k: int| 0 <= k < i ==> list@[k]@ != s@,
        decreases list@.len() - i,
    {
        if list[i] == *s {
            proof {
                assert(strings_view(list@)[i as int] == s@);
            }
            return true;
        }
        i = i + 1;
    }
    proof {
        if strings_view(list@).contains(s@) {
            let k = choose|k: int| 0 <= k < strings_view(list@).len() && strings_view(list@)[k] == s@;
            assert(list@[k]@ == s@);
        }
    }
    false
}

/// Whether the feeds have growing ids and distinct URLs.
fn feeds_well_formed(v: &Vec<Feed>) -> (r: bool)
    ensures
        r == (feed_ids_increasing(feeds_view(v@)) && urls_unique(feeds_view(v@))),
{
    let ghost fv = feeds_view(v@);
    let mut i: usize = 0;
    while i < v.len()
        invariant
            fv == feeds_view(v@),
            i <= v.len(),
            forall|a: int, b: int| 0 <= a < b < i ==> fv[a].id < fv[b].id,
            forall|a: int, b: int| 0 <= a < i && 0 <= b < i && a != b ==> fv[a].url != fv[b].url,
        decreases v.len() - i,
    {
        if i > 0 && v[i - 1].id >= v[i].id {
            proof {
                assert(fv[i - 1].id >= fv[i as int].id);
            }
            return false;
        }
        let mut j: usize = 0;
        while j < i
            invariant
                fv == feeds_view(v@),
                j <= i < v.len(),
                forall|b: int| 0 <= b < j ==> fv[b].url != fv[i as int].url,
            decreases i - j,
        {
            if v[j].url == v[i].url {
                proof {
                    assert(fv[j as int].url == fv[i as int].url);
                }
                return false;
            }
            j = j + 1;
        }
        proof {
            assert forall|a: int, b: int| 0 <= a < b < i + 1 implies fv[a].id < fv[b].id by {
                if b == i && a < i - 1 {
                    assert(fv[a].id < fv[i - 1].id);
                }
            }
        }
        i = i + 1;
    }
    true
}

/// Whether the articles have growing ids and distinct GUIDs.
fn articles_well_formed(v: &Vec<Article>) -> (r: bool)
    ensures
        r == (article_ids_increasing(articles_view(v@)) && guids_unique(articles_view(v@))),
{
    let ghost xv = articles_view(v@);
    let mut i: usize = 0;
    while i < v.len()
        invariant
            xv == articles_view(v@),
            i <= v.len(),
            forall|a: int, b: int| 0 <= a < b < i ==> xv[a].id < xv[b].id,
            forall|a: int, b: int| 0 <= a < i && 0 <= b < i && a != b ==> xv[a].guid != xv[b].guid,
        decreases v.len() - i,
    {
        if i > 0 && v[i - 1].id >= v[i].id {
            proof {
                assert(xv[i - 1].id >= xv[i as int].id);
            }
            return false;
        }
        let mut j: usize = 0;
        while j < i
            invariant
                xv == articles_view(v@),
                j <= i < v.len(),
                forall|b: int| 0 <= b < j ==> xv[b].guid != xv[i as int].guid,
            decreases i - j,
        {
            if v[j].guid == v[i].guid {
                proof {
                    assert(xv[j as int].guid == xv[i as int].guid);
                }
                return false;
            }
            j = j + 1;
        }
        proof {
            assert forall|a: int, b: int| 0 <= a < b < i + 1 implies xv[a].id < xv[b].id by {
                if b == i && a < i - 1 {
                    assert(xv[a].id < xv[i - 1].id);
                }
            }
        }
        i = i + 1;
    }
    true
}

impl Store {
    /// The store holding these rows, where they are well formed: ids grow
    /// along each table and no URL or GUID occurs twice.
    pub fn from_rows(feeds: Vec<Feed>, articles: Vec<Article>) -> (r: Option<Store>)
        ensures
            r is Some <==> store_wf(StoreView { feeds: feeds_view(feeds@), articles: articles_view(articles@) }),
            r matches Some(s) ==> s@ == (StoreView { feeds: feeds_view(feeds@), articles: articles_view(articles@) }) && s.wf(),
    {
        if feeds_well_formed(&feeds) && articles_well_formed(&articles) {
            Some(Store { feeds, articles })
        } else {
            None
        }
    }
}

/// The feed `old` after adding `nf` of the same URL.
pub fn merged_feed(old: &Feed, nf: &NewFeed) -> (r: Feed)
    ensures
        r@ == updated_feed(old@, nf@),
{
    Feed {
        id: old.id,
        url: old.url.clone(),
        title: clone_opt(&nf.title),
        etag: if nf.etag.is_some() { clone_opt(&nf.etag) } else { clone_opt(&old.etag) },
        last_modified: if nf.last_modified.is_some() {
            clone_opt(&nf.last_modified)
        } else {
            clone_opt(&old.last_modified)
        },
    }
}

/// The article `old` after adding `na` of the same GUID.
pub fn merged_article(old: &Article, na: &NewArticle) -> (r: Article)
    ensures
        r@ == updated_article(old@, na@),
{
    Article {
        id: old.id,
        feed_id: old.feed_id,
        guid: old.guid.clone(),
        title: na.title.clone(),
        url: clone_opt(&na.url),
        summary: clone_opt(&na.summary),
        content: if na.content.is_some() { clone_opt(&na.content) } else { clone_opt(&old.content) },
        published_at: na.published_at,
        is_read: old.is_read,
    }
}

} // verus!
