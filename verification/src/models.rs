//! The rows of the two tables, feeds and articles, and what is handed in to
//! add one.
use vstd::prelude::*;
use crate::text::{clone_opt, opt_view};
use crate::timestamp::Timestamp;

verus! {

/// A subscribed feed.
#[derive(Debug)]
pub struct Feed {
    pub id: i64,
    pub url: String,
    pub title: Option<String>,
    pub etag: Option<String>,
    pub last_modified: Option<String>,
}

/// A stored article of a feed.
#[derive(Debug)]
pub struct Article {
    pub id: i64,
    pub feed_id: i64,
    pub guid: String,
    pub title: String,
    pub url: Option<String>,
    pub summary: Option<String>,
    pub content: Option<String>,
    pub published_at: Option<Timestamp>,
    pub is_read: bool,
}

/// A feed to be added, before it has an id.
#[derive(Debug)]
pub struct NewFeed {
    pub url: String,
    pub title: Option<String>,
    pub etag: Option<String>,
    pub last_modified: Option<String>,
}

/// An article to be added, before it has an id.
#[derive(Debug)]
pub struct NewArticle {
    pub feed_id: i64,
    pub guid: String,
    pub title: String,
    pub url: Option<String>,
    pub summary: Option<String>,
    pub content: Option<String>,
    pub published_at: Option<Timestamp>,
}

pub struct FeedView {
    pub id: i64,
    pub url: Seq<char>,
    pub title: Option<Seq<char>>,
    pub etag: Option<Seq<char>>,
    pub last_modified: Option<Seq<char>>,
}

pub struct ArticleView {
    pub id: i64,
    pub feed_id: i64,
    pub guid: Seq<char>,
    pub title: Seq<char>,
    pub url: Option<Seq<char>>,
    pub summary: Option<Seq<char>>,
    pub content: Option<Seq<char>>,
    pub published_at: Option<Timestamp>,
    pub is_read: bool,
}

pub struct NewFeedView {
    pub url: Seq<char>,
    pub title: Option<Seq<char>>,
    pub etag: Option<Seq<char>>,
    pub last_modified: Option<Seq<char>>,
}

pub struct NewArticleView {
    pub feed_id: i64,
    pub guid: Seq<char>,
    pub title: Seq<char>,
    pub url: Option<Seq<char>>,
    pub summary: Option<Seq<char>>,
    pub content: Option<Seq<char>>,
    pub published_at: Option<Timestamp>,
}

impl View for Feed {
    type V = FeedView;

    open spec fn view(&self) -> FeedView {
        FeedView {
            id: self.id,
            url: self.url@,
            title: opt_view(self.title),
            etag: opt_view(self.etag),
            last_modified: opt_view(self.last_modified),
        }
    }
}

impl View for Article {
    type V = ArticleView;

    open spec fn view(&self) -> ArticleView {
        ArticleView {
            id: self.id,
            feed_id: self.feed_id,
            guid: self.guid@,
            title: self.title@,
            url: opt_view(self.url),
            summary: opt_view(self.summary),
            content: opt_view(self.content),
            published_at: self.published_at,
            is_read: self.is_read,
        }
    }
}

impl View for NewFeed {
    type V = NewFeedView;

    open spec fn view(&self) -> NewFeedView {
        NewFeedView {
            url: self.url@,
            title: opt_view(self.title),
            etag: opt_view(self.etag),
            last_modified: opt_view(self.last_modified),
        }
    }
}

impl View for NewArticle {
    type V = NewArticleView;

    open spec fn view(&self) -> NewArticleView {
        NewArticleView {
            feed_id: self.feed_id,
            guid: self.guid@,
            title: self.title@,
            url: opt_view(self.url),
            summary: opt_view(self.summary),
            content: opt_view(self.content),
            published_at: self.published_at,
        }
    }
}

/// The views of a sequence of feeds.
pub open spec fn feeds_view(s: Seq<Feed>) -> Seq<FeedView> {
    s.map_values(|f: Feed| f@)
}

/// The views of a sequence of articles.
pub open spec fn articles_view(s: Seq<Article>) -> Seq<ArticleView> {
    s.map_values(|a: Article| a@)
}

impl Clone for Feed {
    fn clone(&self) -> (r: Self)
        ensures
            r@ == self@,
    {
        Feed {
            id: self.id,
            url: self.url.clone(),
            title: clone_opt(&self.title),
            etag: clone_opt(&self.etag),
            last_modified: clone_opt(&self.last_modified),
        }
    }
}

impl Clone for Article {
    fn clone(&self) -> (r: Self)
        ensures
            r@ == self@,
    {
        Article {
            id: self.id,
            feed_id: self.feed_id,
            guid: self.guid.clone(),
            title: self.title.clone(),
            url: clone_opt(&self.url),
            summary: clone_opt(&self.summary),
            content: clone_opt(&self.content),
            published_at: self.published_at,
            is_read: self.is_read,
        }
    }
}

impl Clone for NewFeed {
    fn clone(&self) -> (r: Self)
        ensures
            r@ == self@,
    {
        NewFeed {
            url: self.url.clone(),
            title: clone_opt(&self.title),
            etag: clone_opt(&self.etag),
            last_modified: clone_opt(&self.last_modified),
        }
    }
}

impl Clone for NewArticle {
    fn clone(&self) -> (r: Self)
        ensures
            r@ == self@,
    {
        NewArticle {
            feed_id: self.feed_id,
            guid: self.guid.clone(),
            title: self.title.clone(),
            url: clone_opt(&self.url),
            summary: clone_opt(&self.summary),
            content: clone_opt(&self.content),
            published_at: self.published_at,
        }
    }
}

} // verus!
