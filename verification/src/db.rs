//! The client of the feed database: the tables as the `Store` model holds
//! them, kept on disk in SQLite. Every change is written to the file first and
//! applied to the model once the write has succeeded.
use vstd::prelude::*;
use crate::models::{Article, ArticleView, Feed, FeedView, NewArticle, NewArticleView, NewFeed, NewFeedView};
use crate::timestamp::Timestamp;
use crate::sqlite::{params_view, SqlParamView, SqlStatement, StatementView, StmtKind, 
    column_bool, column_i64, column_opt_text, column_opt_time, column_text, execute_batch,
    last_insert_rowid, next_row, open, prepare, query_rows, SqlParam,
};
use crate::store::{
    url_index,
    above_article_ids, above_feed_ids, all_read, article_insertable, has_feed_id, has_guid, has_url,
    insert_count, listed_articles, merged_article, merged_feed, one_read, prune_count, pruned,
    store_wf, strings_view, upsert_article, upsert_feed, upsert_feed_id, with_metadata, without_feed,
    Store, StoreView,
};
use crate::models::{articles_view, feeds_view};
use crate::text::{clone_opt, opt_view};

verus! {

/// Why a database operation failed.
#[derive(Debug)]
pub enum DbError {
    /// The database file could not be opened.
    Open(rusqlite::Error),
    /// The tables could not be created.
    Schema(rusqlite::Error),
    /// SQLite reported an error.
    Sqlite(rusqlite::Error),
    /// An article was to be created for a feed that does not exist.
    UnknownFeed(i64),
    /// SQLite gave a new row an id that is not above the ids already used.
    UnexpectedRowId(i64),
    /// The rows read from the file repeat a URL or GUID, or are out of order.
    Inconsistent,
    /// A table holds more rows than can be counted.
    TooManyRows,
}

/// The statements that create the two tables where they do not exist yet.
pub const SCHEMA: &'static str = "
            CREATE TABLE IF NOT EXISTS feeds (
                id INTEGER PRIMARY KEY AUTOINCREMENT,
                url TEXT UNIQUE NOT NULL,
                title TEXT,
                etag TEXT,
                last_modified TEXT
            );

            CREATE TABLE IF NOT EXISTS articles (
                id INTEGER PRIMARY KEY AUTOINCREMENT,
                feed_id INTEGER NOT NULL,
                guid TEXT UNIQUE NOT NULL,
                title TEXT NOT NULL,
                url TEXT,
                summary TEXT,
                content TEXT,
                published_at DATETIME,
                is_read BOOLEAN NOT NULL DEFAULT 0,
                FOREIGN KEY(feed_id) REFERENCES feeds(id) ON DELETE CASCADE
            );
            ";

/// A connection to the feed database together with its contents.
pub struct DbClient {
    conn: rusqlite::Connection,
    store: Store,
    written: Ghost<Seq<StatementView>>,
}

impl View for DbClient {
    type V = StoreView;

    closed spec fn view(&self) -> StoreView {
        self.store@
    }
}

impl DbClient {
    /// The statements SQLite has carried out on the client's file since it
    /// was opened, in order.
    pub closed spec fn written(&self) -> Seq<StatementView> {
        self.written@
    }
}

/// rusqlite `Connection::execute` on the client's connection: runs the
/// statement with its values bound to `?1`, `?2`, ... in order, a `Time` as
/// rusqlite writes a `DateTime<Utc>` (`YYYY-MM-DD HH:MM:SS.fff+00:00`);
/// answers with the number of rows changed. rusqlite answers `Ok` once SQLite
/// has carried the statement out, and then the statement joins the client's
/// record of what was written; on `Err` the record stays. The client's
/// tables are not touched.
#[verifier::external_body]
fn execute(db: &mut DbClient, st: &SqlStatement) -> (r: Result<usize, rusqlite::Error>)
    ensures
        final(db)@ == old(db)@,
        r is Ok ==> final(db).written() == old(db).written().push(st@),
        r is Err ==> final(db).written() == old(db).written(),
{
    let values: Vec<Box<dyn rusqlite::ToSql>> = st.params.iter().map(|p| -> Box<dyn rusqlite::ToSql> {
        match p {
            SqlParam::Null => Box::new(rusqlite::types::Null),
            SqlParam::Int(i) => Box::new(*i),
            SqlParam::Text(s) => Box::new(s.clone()),
            SqlParam::Time(t) => Box::new(chrono::DateTime::from_timestamp(t.secs(), t.nanos()).unwrap()),
        }
    }).collect();
    db.conn.execute(st.sql.as_str(), rusqlite::params_from_iter(values.iter()))
}

fn text_param(s: &String) -> (r: SqlParam)
    ensures
        r@ == SqlParamView::Text(s@),
{
    SqlParam::Text(s.clone())
}

/// The value bound for optional text: the text, or SQL `NULL`.
pub open spec fn opt_text(o: Option<Seq<char>>) -> SqlParamView {
    match o {
        Some(t) => SqlParamView::Text(t),
        None => SqlParamView::Null,
    }
}

/// The value bound for an optional date: the date, or SQL `NULL`.
pub open spec fn opt_time(o: Option<Timestamp>) -> SqlParamView {
    match o {
        Some(t) => SqlParamView::Time(t@),
        None => SqlParamView::Null,
    }
}

fn opt_text_param(o: &Option<String>) -> (r: SqlParam)
    ensures
        r@ == opt_text(opt_view(*o)),
        o is None ==> r is Null,
        o matches Some(v) ==> (r matches SqlParam::Text(t) && t@ == v@),
{
    match o {
        Some(s) => SqlParam::Text(s.clone()),
        None => SqlParam::Null,
    }
}

fn opt_time_param(o: &Option<Timestamp>) -> (r: SqlParam)
    ensures
        r == match *o {
            Some(t) => SqlParam::Time(t),
            None => SqlParam::Null,
        },
        r@ == opt_time(*o),
{
    match o {
        Some(t) => SqlParam::Time(*t),
        None => SqlParam::Null,
    }
}

// ---------------------------------------------------------------------------
// The statements written to the file.

/// Reads every feed, in the order of their ids.
pub const FEEDS_QUERY: &'static str = "SELECT id, url, title, etag, last_modified FROM feeds ORDER BY id";
/// Reads every article, in the order of their ids.
pub const ARTICLES_QUERY: &'static str =
    "SELECT id, feed_id, guid, title, url, summary, content, published_at, is_read FROM articles ORDER BY id";
pub const FEED_UPDATE: &'static str = "UPDATE feeds SET title = ?1, etag = ?2, last_modified = ?3 WHERE id = ?4";
pub const FEED_INSERT: &'static str = "INSERT INTO feeds (url, title, etag, last_modified) VALUES (?1, ?2, ?3, ?4)";
pub const FEED_METADATA: &'static str = "UPDATE feeds SET etag = ?1, last_modified = ?2 WHERE id = ?3";
pub const FEED_DELETE: &'static str = "DELETE FROM feeds WHERE id = ?1";
pub const ARTICLE_UPDATE: &'static str =
    "UPDATE articles SET title = ?1, url = ?2, summary = ?3, content = ?4, published_at = ?5 WHERE id = ?6";
pub const ARTICLE_INSERT: &'static str =
    "INSERT INTO articles (feed_id, guid, title, url, summary, content, published_at, is_read) VALUES (?1, ?2, ?3, ?4, ?5, ?6, ?7, 0)";
pub const MARK_ALL_READ: &'static str = "UPDATE articles SET is_read = 1";
pub const MARK_READ: &'static str = "UPDATE articles SET is_read = 1 WHERE id = ?1";

/// Writes a feed's title and caching values over those of its row.
pub fn feed_update_statement(f: &Feed) -> (r: SqlStatement)
    ensures
        r.kind == StmtKind::FeedUpdate,
        r.sql@ == FEED_UPDATE@,
        params_view(r.params@) == seq![opt_text(f@.title), opt_text(f@.etag), opt_text(f@.last_modified), SqlParamView::Int(f.id)],
{
    let params = vec![opt_text_param(&f.title), opt_text_param(&f.etag), opt_text_param(&f.last_modified), SqlParam::Int(f.id)];
    proof {
        assert(params_view(params@) =~= seq![opt_text(f@.title), opt_text(f@.etag), opt_text(f@.last_modified), SqlParamView::Int(f.id)]);
    }
    SqlStatement { kind: StmtKind::FeedUpdate, sql: String::from_str(FEED_UPDATE), params }
}

/// Creates the row of a new feed.
pub fn feed_insert_statement(f: &NewFeed) -> (r: SqlStatement)
    ensures
        r.kind == StmtKind::FeedInsert,
        r.sql@ == FEED_INSERT@,
        params_view(r.params@) == seq![SqlParamView::Text(f@.url), opt_text(f@.title), opt_text(f@.etag), opt_text(f@.last_modified)],
{
    let params = vec![text_param(&f.url), opt_text_param(&f.title), opt_text_param(&f.etag), opt_text_param(&f.last_modified)];
    proof {
        assert(params_view(params@) =~= seq![SqlParamView::Text(f@.url), opt_text(f@.title), opt_text(f@.etag), opt_text(f@.last_modified)]);
    }
    SqlStatement { kind: StmtKind::FeedInsert, sql: String::from_str(FEED_INSERT), params }
}

/// Sets the caching values of feed `id`.
pub fn feed_metadata_statement(id: i64, etag: &Option<String>, last_modified: &Option<String>) -> (r: SqlStatement)
    ensures
        r.kind == StmtKind::FeedMetadata,
        r.sql@ == FEED_METADATA@,
        params_view(r.params@) == seq![opt_text(opt_view(*etag)), opt_text(opt_view(*last_modified)), SqlParamView::Int(id)],
{
    let params = vec![opt_text_param(etag), opt_text_param(last_modified), SqlParam::Int(id)];
    proof {
        assert(params_view(params@) =~= seq![opt_text(opt_view(*etag)), opt_text(opt_view(*last_modified)), SqlParamView::Int(id)]);
    }
    SqlStatement { kind: StmtKind::FeedMetadata, sql: String::from_str(FEED_METADATA), params }
}

/// Removes feed `id` (its articles go with it, by the foreign key).
pub fn feed_delete_statement(id: i64) -> (r: SqlStatement)
    ensures
        r.kind == StmtKind::FeedDelete,
        r.sql@ == FEED_DELETE@,
        params_view(r.params@) == seq![SqlParamView::Int(id)],
{
    let params = vec![SqlParam::Int(id)];
    proof {
        assert(params_view(params@) =~= seq![SqlParamView::Int(id)]);
    }
    SqlStatement { kind: StmtKind::FeedDelete, sql: String::from_str(FEED_DELETE), params }
}

/// Writes an article's title, link, summary, content and date over those of
/// its row.
pub fn article_update_statement(a: &Article) -> (r: SqlStatement)
    ensures
        r.kind == StmtKind::ArticleUpdate,
        r.sql@ == ARTICLE_UPDATE@,
        params_view(r.params@) == seq![
            SqlParamView::Text(a@.title), opt_text(a@.url), opt_text(a@.summary), opt_text(a@.content),
            opt_time(a@.published_at), SqlParamView::Int(a.id),
        ],
{
    let params = vec![
        text_param(&a.title), opt_text_param(&a.url), opt_text_param(&a.summary), opt_text_param(&a.content),
        opt_time_param(&a.published_at), SqlParam::Int(a.id),
    ];
    proof {
        assert(params_view(params@) =~= seq![
            SqlParamView::Text(a@.title), opt_text(a@.url), opt_text(a@.summary), opt_text(a@.content),
            opt_time(a@.published_at), SqlParamView::Int(a.id),
        ]);
    }
    SqlStatement { kind: StmtKind::ArticleUpdate, sql: String::from_str(ARTICLE_UPDATE), params }
}

/// Creates the row of a new, unread article.
pub fn article_insert_statement(a: &NewArticle) -> (r: SqlStatement)
    ensures
        r.kind == StmtKind::ArticleInsert,
        r.sql@ == ARTICLE_INSERT@,
        params_view(r.params@) == seq![
            SqlParamView::Int(a.feed_id), SqlParamView::Text(a@.guid), SqlParamView::Text(a@.title), opt_text(a@.url),
            opt_text(a@.summary), opt_text(a@.content), opt_time(a@.published_at),
        ],
{
    let params = vec![
        SqlParam::Int(a.feed_id), text_param(&a.guid), text_param(&a.title), opt_text_param(&a.url),
        opt_text_param(&a.summary), opt_text_param(&a.content), opt_time_param(&a.published_at),
    ];
    proof {
        assert(params_view(params@) =~= seq![
            SqlParamView::Int(a.feed_id), SqlParamView::Text(a@.guid), SqlParamView::Text(a@.title), opt_text(a@.url),
            opt_text(a@.summary), opt_text(a@.content), opt_time(a@.published_at),
        ]);
    }
    SqlStatement { kind: StmtKind::ArticleInsert, sql: String::from_str(ARTICLE_INSERT), params }
}

/// Marks every article read.
pub fn mark_all_read_statement() -> (r: SqlStatement)
    ensures
        r.kind == StmtKind::MarkAllRead,
        r.sql@ == MARK_ALL_READ@,
        params_view(r.params@) == Seq::<SqlParamView>::empty(),
{
    let params: Vec<SqlParam> = Vec::new();
    proof {
        assert(params_view(params@) =~= Seq::<SqlParamView>::empty());
    }
    SqlStatement { kind: StmtKind::MarkAllRead, sql: String::from_str(MARK_ALL_READ), params }
}

/// Marks article `id` read.
pub fn mark_read_statement(id: i64) -> (r: SqlStatement)
    ensures
        r.kind == StmtKind::MarkRead,
        r.sql@ == MARK_READ@,
        params_view(r.params@) == seq![SqlParamView::Int(id)],
{
    let params = vec![SqlParam::Int(id)];
    proof {
        assert(params_view(params@) =~= seq![SqlParamView::Int(id)]);
    }
    SqlStatement { kind: StmtKind::MarkRead, sql: String::from_str(MARK_READ), params }
}

/// The GUIDs as text values.
pub open spec fn guid_params(guids: Seq<String>) -> Seq<SqlParamView> {
    guids.map_values(|g: String| SqlParamView::Text(g@))
}

/// Removes the articles of feed `feed_id` whose GUID is not among `guids`:
/// the feed id binds `?1`, the GUIDs the placeholders after it.
pub fn prune_articles_statement(feed_id: i64, guids: &[String]) -> (r: SqlStatement)
    ensures
        r.kind == StmtKind::Prune,
        r.sql@ == prune_sql(guids@.len()),
        params_view(r.params@) == seq![SqlParamView::Int(feed_id)] + guid_params(guids@),
{
    let sql = prune_statement(guids.len());
    let mut params: Vec<SqlParam> = Vec::new();
    params.push(SqlParam::Int(feed_id));
    let mut i: usize = 0;
    while i < guids.len()
        invariant
            i <= guids@.len(),
            params_view(params@) == seq![SqlParamView::Int(feed_id)] + guid_params(guids@.take(i as int)),
        decreases guids.len() - i,
    {
        let ghost before = params@;
        params.push(text_param(&guids[i]));
        proof {
            assert(guids@.take(i + 1) =~= guids@.take(i as int).push(guids@[i as int]));
            assert(params_view(params@) =~= params_view(before).push(SqlParamView::Text(guids@[i as int]@)));
            assert(guid_params(guids@.take(i + 1)) =~= guid_params(guids@.take(i as int)).push(SqlParamView::Text(guids@[i as int]@)));
        }
        i = i + 1;
    }
    proof {
        assert(guids@.take(i as int) =~= guids@);
    }
    SqlStatement { kind: StmtKind::Prune, sql, params }
}

// ---------------------------------------------------------------------------
// What a statement does to the tables.

/// The text a bound value gives a nullable text column.
pub open spec fn text_value(p: SqlParamView) -> Option<Seq<char>> {
    match p {
        SqlParamView::Text(t) => Some(t),
        _ => None,
    }
}

/// `new` is article `old` after an `ARTICLE_UPDATE` binding `ps`: its title,
/// link, summary, content and date are the bound values; its id, feed, GUID
/// and read flag stay.
pub open spec fn article_set(old: ArticleView, new: ArticleView, ps: Seq<SqlParamView>) -> bool {
    &&& new.id == old.id
    &&& new.feed_id == old.feed_id
    &&& new.guid == old.guid
    &&& new.is_read == old.is_read
    &&& ps[0] == SqlParamView::Text(new.title)
    &&& new.url == text_value(ps[1])
    &&& new.summary == text_value(ps[2])
    &&& new.content == text_value(ps[3])
    &&& opt_time(new.published_at) == ps[4]
}

/// `a` is the row an `ARTICLE_INSERT` binding `ps` creates: unread, with the
/// bound feed, GUID, title, link, summary, content and date, under whatever
/// id SQLite gives it.
pub open spec fn article_row(a: ArticleView, ps: Seq<SqlParamView>) -> bool {
    &&& ps[0] == SqlParamView::Int(a.feed_id)
    &&& ps[1] == SqlParamView::Text(a.guid)
    &&& ps[2] == SqlParamView::Text(a.title)
    &&& a.url == text_value(ps[3])
    &&& a.summary == text_value(ps[4])
    &&& a.content == text_value(ps[5])
    &&& opt_time(a.published_at) == ps[6]
    &&& !a.is_read
}

/// Carrying out statement `st` on tables `s` gives tables `t`, as the SQL of
/// each statement says (with the foreign key's cascade for `FEED_DELETE`,
/// and `AUTOINCREMENT` picking the id of an inserted row).
pub open spec fn sql_means(s: StoreView, st: StatementView, t: StoreView) -> bool {
    let ps = st.params;
    match st.kind {
        StmtKind::MarkAllRead => ps.len() == 0 && t == all_read(s),
        StmtKind::MarkRead => ps.len() == 1 && ps[0] is Int && t == one_read(s, ps[0]->Int_0),
        StmtKind::FeedDelete => ps.len() == 1 && ps[0] is Int && t == without_feed(s, ps[0]->Int_0),
        StmtKind::FeedMetadata => ps.len() == 3 && ps[2] is Int
            && t == with_metadata(s, ps[2]->Int_0, text_value(ps[0]), text_value(ps[1])),
        StmtKind::FeedUpdate => ps.len() == 4 && ps[3] is Int && t.articles == s.articles
            && t.feeds == Seq::new(s.feeds.len(), |k: int| if s.feeds[k].id == ps[3]->Int_0 {
                FeedView {
                    id: s.feeds[k].id,
                    url: s.feeds[k].url,
                    title: text_value(ps[0]),
                    etag: text_value(ps[1]),
                    last_modified: text_value(ps[2]),
                }
            } else {
                s.feeds[k]
            }),
        StmtKind::FeedInsert => ps.len() == 4 && ps[0] is Text && t.articles == s.articles
            && t.feeds.len() == s.feeds.len() + 1 && t.feeds.drop_last() == s.feeds
            && t.feeds.last().url == ps[0]->Text_0 && t.feeds.last().title == text_value(ps[1])
            && t.feeds.last().etag == text_value(ps[2]) && t.feeds.last().last_modified == text_value(ps[3]),
        StmtKind::ArticleUpdate => ps.len() == 6 && ps[5] is Int && t.feeds == s.feeds
            && t.articles.len() == s.articles.len()
            && forall|k: int| 0 <= k < s.articles.len() ==> if s.articles[k].id == ps[5]->Int_0 {
                article_set(s.articles[k], #[trigger] t.articles[k], ps)
            } else {
                t.articles[k] == s.articles[k]
            },
        StmtKind::ArticleInsert => ps.len() == 7 && t.feeds == s.feeds
            && t.articles.len() == s.articles.len() + 1 && t.articles.drop_last() == s.articles
            && article_row(t.articles.last(), ps),
        StmtKind::Prune => ps.len() >= 1 && ps[0] is Int
            && (forall|k: int| 1 <= k < ps.len() ==> (#[trigger] ps[k]) is Text)
            && t == pruned(s, ps[0]->Int_0, ps.skip(1).map_values(|p: SqlParamView| p->Text_0)),
    }
}

/// The client wrote exactly one more statement, of kind `kind` and text
/// `sql`, and it takes the tables from `s` to `t`.
pub open spec fn wrote(
    before: Seq<StatementView>,
    after: Seq<StatementView>,
    kind: StmtKind,
    sql: Seq<char>,
    s: StoreView,
    t: StoreView,
) -> bool {
    &&& after.len() == before.len() + 1
    &&& after.drop_last() == before
    &&& after.last().kind == kind
    &&& after.last().sql == sql
    &&& sql_means(s, after.last(), t)
}

proof fn lemma_pushed(w: Seq<StatementView>, x: StatementView)
    ensures
        w.push(x).drop_last() == w,
        w.push(x).last() == x,
{
    assert(w.push(x).drop_last() =~= w);
}

/// The GUIDs bound to a pruning statement, read back as text, are the GUIDs.
proof fn lemma_prune_guids(feed_id: i64, guids: Seq<String>)
    ensures
        (seq![SqlParamView::Int(feed_id)] + guid_params(guids)).skip(1).map_values(|p: SqlParamView| p->Text_0)
            == strings_view(guids),
        forall|k: int| 1 <= k < (seq![SqlParamView::Int(feed_id)] + guid_params(guids)).len()
            ==> (#[trigger] (seq![SqlParamView::Int(feed_id)] + guid_params(guids))[k]) is Text,
{
    let ps = seq![SqlParamView::Int(feed_id)] + guid_params(guids);
    assert(ps.skip(1).map_values(|p: SqlParamView| p->Text_0) =~= strings_view(guids));
}

/// Updating the feed of a known URL changes the one row with that feed's id.
proof fn lemma_feed_update_means(s: StoreView, nf: NewFeedView, x: i64, st: StatementView, m: FeedView)
    requires
        store_wf(s),
        has_url(s.feeds, nf.url),
        m == crate::store::updated_feed(s.feeds[url_index(s.feeds, nf.url)], nf),
        st.kind == StmtKind::FeedUpdate,
        st.params == seq![opt_text(m.title), opt_text(m.etag), opt_text(m.last_modified), SqlParamView::Int(m.id)],
    ensures
        sql_means(s, st, upsert_feed(s, nf, x)),
{
    let i = url_index(s.feeds, nf.url);
    let t = upsert_feed(s, nf, x);
    let ps = st.params;
    let want = Seq::new(s.feeds.len(), |k: int| if s.feeds[k].id == ps[3]->Int_0 {
        FeedView {
            id: s.feeds[k].id,
            url: s.feeds[k].url,
            title: text_value(ps[0]),
            etag: text_value(ps[1]),
            last_modified: text_value(ps[2]),
        }
    } else {
        s.feeds[k]
    });
    assert forall|k: int| 0 <= k < s.feeds.len() implies t.feeds[k] == want[k] by {
        if k != i {
            assert(s.feeds[k].id != s.feeds[i].id);
        }
    }
    assert(t.feeds =~= want);
}

/// Updating the article of a known GUID changes the one row with that
/// article's id.
proof fn lemma_article_update_means(s: StoreView, na: NewArticleView, x: i64, st: StatementView, m: ArticleView)
    requires
        store_wf(s),
        has_guid(s.articles, na.guid),
        m == crate::store::updated_article(s.articles[crate::store::guid_index(s.articles, na.guid)], na),
        st.kind == StmtKind::ArticleUpdate,
        st.params == seq![
            SqlParamView::Text(m.title), opt_text(m.url), opt_text(m.summary), opt_text(m.content),
            opt_time(m.published_at), SqlParamView::Int(m.id),
        ],
    ensures
        sql_means(s, st, upsert_article(s, na, x)),
{
    let i = crate::store::guid_index(s.articles, na.guid);
    let t = upsert_article(s, na, x);
    assert forall|k: int| 0 <= k < s.articles.len() implies if s.articles[k].id == st.params[5]->Int_0 {
        article_set(s.articles[k], #[trigger] t.articles[k], st.params)
    } else {
        t.articles[k] == s.articles[k]
    } by {
        if k != i {
            assert(s.articles[k].id != s.articles[i].id);
        }
    }
}

/// The id SQLite gave a new row, where it lies above every id in use; else
/// `UnexpectedRowId` with it.
fn checked_feed_rowid(store: &Store, id: i64) -> (r: Result<i64, DbError>)
    requires
        store.wf(),
    ensures
        r is Ok <==> 0 < id && above_feed_ids(store@.feeds, id),
        r matches Ok(x) ==> x == id,
        r matches Err(e) ==> e matches DbError::UnexpectedRowId(x) && x == id,
{
    if id <= 0 || !store.feed_id_fresh(id) {
        Err(DbError::UnexpectedRowId(id))
    } else {
        Ok(id)
    }
}

/// The id SQLite gave a new article row, where it lies above every article id
/// in use; else `UnexpectedRowId` with it.
fn checked_article_rowid(store: &Store, id: i64) -> (r: Result<i64, DbError>)
    requires
        store.wf(),
    ensures
        r is Ok <==> 0 < id && above_article_ids(store@.articles, id),
        r matches Ok(x) ==> x == id,
        r matches Err(e) ==> e matches DbError::UnexpectedRowId(x) && x == id,
{
    if id <= 0 || !store.article_id_fresh(id) {
        Err(DbError::UnexpectedRowId(id))
    } else {
        Ok(id)
    }
}

/// Reads every feed row, in the order of their ids.
fn load_feeds(conn: &rusqlite::Connection) -> (r: Result<Vec<Feed>, DbError>)
    ensures
        r matches Ok(v) ==> v@.len() < usize::MAX,
        r matches Err(e) ==> e is Sqlite || e is TooManyRows,
{
    let mut stmt = match prepare(conn, FEEDS_QUERY) {
        Ok(s) => s,
        Err(e) => { return Err(DbError::Sqlite(e)); },
    };
    let mut rows = match query_rows(&mut stmt) {
        Ok(r) => r,
        Err(e) => { return Err(DbError::Sqlite(e)); },
    };
    let mut out: Vec<Feed> = Vec::new();
    let mut n: usize = 0;
    loop
        invariant
            out@.len() == n,
        ensures
            out@.len() < usize::MAX,
        decreases usize::MAX - n,
    {
        if n == usize::MAX {
            return Err(DbError::TooManyRows);
        }
        let row = match next_row(&mut rows) {
            Ok(Some(row)) => row,
            Ok(None) => { break; },
            Err(e) => { return Err(DbError::Sqlite(e)); },
        };
        let id = match column_i64(row, 0) { Ok(v) => v, Err(e) => { return Err(DbError::Sqlite(e)); } };
        let url = match column_text(row, 1) { Ok(v) => v, Err(e) => { return Err(DbError::Sqlite(e)); } };
        let title = match column_opt_text(row, 2) { Ok(v) => v, Err(e) => { return Err(DbError::Sqlite(e)); } };
        let etag = match column_opt_text(row, 3) { Ok(v) => v, Err(e) => { return Err(DbError::Sqlite(e)); } };
        let last_modified = match column_opt_text(row, 4) { Ok(v) => v, Err(e) => { return Err(DbError::Sqlite(e)); } };
        out.push(Feed { id, url, title, etag, last_modified });
        n = n + 1;
    }
    Ok(out)
}

/// Reads every article row, in the order of their ids.
fn load_articles(conn: &rusqlite::Connection) -> (r: Result<Vec<Article>, DbError>)
    ensures
        r matches Ok(v) ==> v@.len() < usize::MAX,
        r matches Err(e) ==> e is Sqlite || e is TooManyRows,
{
    let mut stmt = match prepare(conn, ARTICLES_QUERY) {
        Ok(s) => s,
        Err(e) => { return Err(DbError::Sqlite(e)); },
    };
    let mut rows = match query_rows(&mut stmt) {
        Ok(r) => r,
        Err(e) => { return Err(DbError::Sqlite(e)); },
    };
    let mut out: Vec<Article> = Vec::new();
    let mut n: usize = 0;
    loop
        invariant
            out@.len() == n,
        ensures
            out@.len() < usize::MAX,
        decreases usize::MAX - n,
    {
        if n == usize::MAX {
            return Err(DbError::TooManyRows);
        }
        let row = match next_row(&mut rows) {
            Ok(Some(row)) => row,
            Ok(None) => { break; },
            Err(e) => { return Err(DbError::Sqlite(e)); },
        };
        let id = match column_i64(row, 0) { Ok(v) => v, Err(e) => { return Err(DbError::Sqlite(e)); } };
        let feed_id = match column_i64(row, 1) { Ok(v) => v, Err(e) => { return Err(DbError::Sqlite(e)); } };
        let guid = match column_text(row, 2) { Ok(v) => v, Err(e) => { return Err(DbError::Sqlite(e)); } };
        let title = match column_text(row, 3) { Ok(v) => v, Err(e) => { return Err(DbError::Sqlite(e)); } };
        let url = match column_opt_text(row, 4) { Ok(v) => v, Err(e) => { return Err(DbError::Sqlite(e)); } };
        let summary = match column_opt_text(row, 5) { Ok(v) => v, Err(e) => { return Err(DbError::Sqlite(e)); } };
        let content = match column_opt_text(row, 6) { Ok(v) => v, Err(e) => { return Err(DbError::Sqlite(e)); } };
        let published_at = match column_opt_time(row, 7) { Ok(v) => v, Err(e) => { return Err(DbError::Sqlite(e)); } };
        let is_read = match column_bool(row, 8) { Ok(v) => v, Err(e) => { return Err(DbError::Sqlite(e)); } };
        out.push(Article { id, feed_id, guid, title, url, summary, content, published_at, is_read });
        n = n + 1;
    }
    Ok(out)
}

impl DbClient {
    #[verifier::type_invariant]
    pub(crate) open spec fn inv(self) -> bool {
        store_wf(self@)
    }

    /// Takes the store out, leaving an empty one in its place.
    fn take_store(&mut self) -> (r: Store)
        ensures
            final(self).written() == old(self).written(),
            r@ == old(self)@,
            r.wf(),
    {
        proof {
            use_type_invariant(&*self);
        }
        let mut store = Store::new();
        std::mem::swap(&mut self.store, &mut store);
        store
    }

    /// Opens the database at `path` (`:memory:` for one in memory), creates
    /// the tables where they are missing, reads every row in the order of its
    /// id (with `FEEDS_QUERY` and `ARTICLES_QUERY`) and holds them as
    /// `from_parts` does.
    pub fn new(path: &str) -> (r: Result<DbClient, DbError>)
        ensures
            r matches Ok(db) ==> store_wf(db@) && db.written() == Seq::<StatementView>::empty(),
            r matches Err(e) ==> e is Open || e is Schema || e is Sqlite || e is Inconsistent || e is TooManyRows,
    {
        let conn = match open(path) {
            Ok(c) => c,
            Err(e) => { return Err(DbError::Open(e)); },
        };
        match execute_batch(&conn, SCHEMA) {
            Ok(()) => {},
            Err(e) => { return Err(DbError::Schema(e)); },
        }
        let feeds = load_feeds(&conn)?;
        let articles = load_articles(&conn)?;
        DbClient::from_parts(conn, feeds, articles)
    }

    /// The client of an open connection whose tables hold these rows: its
    /// contents are the rows, where they are well formed (ids growing along
    /// each table, no URL or GUID twice); else `Inconsistent`.
    pub fn from_parts(conn: rusqlite::Connection, feeds: Vec<Feed>, articles: Vec<Article>) -> (r: Result<DbClient, DbError>)
        ensures
            r is Ok <==> store_wf(StoreView { feeds: feeds_view(feeds@), articles: articles_view(articles@) }),
            r matches Ok(db) ==> db.written() == Seq::<StatementView>::empty(),
            r matches Ok(db) ==> db@ == (StoreView { feeds: feeds_view(feeds@), articles: articles_view(articles@) }),
            r matches Err(e) ==> e is Inconsistent,
    {
        match Store::from_rows(feeds, articles) {
            Some(store) => Ok(DbClient { conn, store, written: Ghost(Seq::empty()) }),
            None => Err(DbError::Inconsistent),
        }
    }

    /// Adds a feed, or updates the feed of the same URL: its title is
    /// replaced, its etag and last-modified values only where new ones are
    /// given. Answers with the feed's id.
    pub fn insert_feed(&mut self, feed: &NewFeed) -> (r: Result<i64, DbError>)
        ensures
            store_wf(final(self)@),
            match r {
                Ok(id) => {
                    &&& final(self)@ == upsert_feed(old(self)@, feed@, id)
                    &&& id == upsert_feed_id(old(self)@, feed@, id)
                    &&& !has_url(old(self)@.feeds, feed@.url) ==> 0 < id && above_feed_ids(old(self)@.feeds, id)
                },
                Err(_) => final(self)@ == old(self)@,
            },
            r matches Err(e) ==> e is Sqlite || (e matches DbError::UnexpectedRowId(x)
                && !has_url(old(self)@.feeds, feed@.url) && !(0 < x && above_feed_ids(old(self)@.feeds, x))),
            r is Ok && has_url(old(self)@.feeds, feed@.url) ==> wrote(
                old(self).written(), final(self).written(), StmtKind::FeedUpdate, FEED_UPDATE@, old(self)@, final(self)@),
            r is Ok && !has_url(old(self)@.feeds, feed@.url) ==> wrote(
                old(self).written(), final(self).written(), StmtKind::FeedInsert, FEED_INSERT@, old(self)@, final(self)@),
            r matches Err(e) && e is Sqlite ==> final(self).written() == old(self).written(),
            r matches Err(e) && e is UnexpectedRowId ==> final(self).written().drop_last() == old(self).written()
                && final(self).written().last().kind == StmtKind::FeedInsert,
    {
        proof {
            use_type_invariant(&*self);
        }
        match self.store.feed_position(&feed.url) {
            Some(i) => {
                let merged = merged_feed(self.store.feed_at(i), feed);
                let st = feed_update_statement(&merged);
                proof {
                    lemma_feed_update_means(self@, feed@, merged.id, st@, merged@);
                }
                match execute(self, &st) {
                    Ok(_) => {},
                    Err(e) => { return Err(DbError::Sqlite(e)); },
                }
                proof {
                    lemma_pushed(old(self).written(), st@);
                }
                let mut store = self.take_store();
                let id = store.upsert_feed(feed, merged.id);
                self.store = store;
                Ok(id)
            },
            None => {
                let st = feed_insert_statement(feed);
                match execute(self, &st) {
                    Ok(_) => {},
                    Err(e) => { return Err(DbError::Sqlite(e)); },
                }
                proof {
                    lemma_pushed(old(self).written(), st@);
                }
                let new_id = checked_feed_rowid(&self.store, last_insert_rowid(&self.conn))?;
                let mut store = self.take_store();
                let id = store.upsert_feed(feed, new_id);
                self.store = store;
                proof {
                    assert(self@.feeds.drop_last() =~= old(self)@.feeds);
                }
                Ok(id)
            },
        }
    }

    /// All feeds, in the order of their ids.
    pub fn get_all_feeds(&self) -> (r: Result<Vec<Feed>, DbError>)
        ensures
            store_wf(self@),
            r matches Ok(v) && feeds_view(v@) == self@.feeds,
    {
        proof {
            use_type_invariant(self);
        }
        Ok(self.store.all_feeds())
    }

    /// Sets the etag and last-modified values of the feed with id `id`.
    pub fn update_feed_metadata(&mut self, id: i64, etag: Option<String>, last_modified: Option<String>) -> (r: Result<(), DbError>)
        ensures
            r is Ok ==> wrote(old(self).written(), final(self).written(), StmtKind::FeedMetadata, FEED_METADATA@, old(self)@, final(self)@),
            r is Err ==> final(self).written() == old(self).written(),
            store_wf(final(self)@),
            match r {
                Ok(()) => final(self)@ == with_metadata(old(self)@, id, opt_view(etag), opt_view(last_modified)),
                Err(_) => final(self)@ == old(self)@,
            },
            r matches Err(e) ==> e is Sqlite,
    {
        proof {
            use_type_invariant(&*self);
        }
        let st = feed_metadata_statement(id, &etag, &last_modified);
        match execute(self, &st) {
            Ok(_) => {},
            Err(e) => { return Err(DbError::Sqlite(e)); },
        }
        proof {
            lemma_pushed(old(self).written(), st@);
        }
        let mut store = self.take_store();
        store.set_metadata(id, etag, last_modified);
        self.store = store;
        Ok(())
    }

    /// Removes the feed with id `id` together with its articles.
    pub fn delete_feed(&mut self, id: i64) -> (r: Result<(), DbError>)
        ensures
            r is Ok ==> wrote(old(self).written(), final(self).written(), StmtKind::FeedDelete, FEED_DELETE@, old(self)@, final(self)@),
            r is Err ==> final(self).written() == old(self).written(),
            store_wf(final(self)@),
            match r {
                Ok(()) => final(self)@ == without_feed(old(self)@, id),
                Err(_) => final(self)@ == old(self)@,
            },
            r matches Err(e) ==> e is Sqlite,
    {
        proof {
            use_type_invariant(&*self);
        }
        let st = feed_delete_statement(id);
        match execute(self, &st) {
            Ok(_) => {},
            Err(e) => { return Err(DbError::Sqlite(e)); },
        }
        proof {
            lemma_pushed(old(self).written(), st@);
        }
        let mut store = self.take_store();
        store.remove_feed(id);
        self.store = store;
        Ok(())
    }

    /// Adds an article, or updates the article of the same GUID: its title,
    /// link, summary and date are replaced, its content only where a new one
    /// is given, and it stays with its feed and keeps its read flag. A new
    /// article starts unread and needs its feed to exist. Answers with the
    /// number of articles created: 1 for a new GUID, 0 for a known one.
    pub fn insert_article(&mut self, article: &NewArticle) -> (r: Result<usize, DbError>)
        ensures
            store_wf(final(self)@),
            !article_insertable(old(self)@, article@) <==> r matches Err(DbError::UnknownFeed(_)),
            r matches Err(DbError::UnknownFeed(f)) ==> f == article.feed_id,
            r matches Err(e) ==> e is Sqlite || e is UnknownFeed || (e matches DbError::UnexpectedRowId(x)
                && !has_guid(old(self)@.articles, article@.guid) && !(0 < x && above_article_ids(old(self)@.articles, x))),
            r is Ok && has_guid(old(self)@.articles, article@.guid) ==> wrote(
                old(self).written(), final(self).written(), StmtKind::ArticleUpdate, ARTICLE_UPDATE@, old(self)@, final(self)@),
            r is Ok && !has_guid(old(self)@.articles, article@.guid) ==> wrote(
                old(self).written(), final(self).written(), StmtKind::ArticleInsert, ARTICLE_INSERT@, old(self)@, final(self)@),
            r matches Err(e) && (e is Sqlite || e is UnknownFeed) ==> final(self).written() == old(self).written(),
            r matches Err(e) && e is UnexpectedRowId ==> final(self).written().drop_last() == old(self).written()
                && final(self).written().last().kind == StmtKind::ArticleInsert,
            match r {
                Ok(n) => {
                    &&& n == insert_count(old(self)@, article@)
                    &&& final(self)@ == upsert_article(old(self)@, article@, final(self)@.articles.last().id)
                    &&& n == 1 ==> 0 < final(self)@.articles.last().id
                        && above_article_ids(old(self)@.articles, final(self)@.articles.last().id)
                },
                Err(_) => final(self)@ == old(self)@,
            },
    {
        proof {
            use_type_invariant(&*self);
        }
        match self.store.guid_position(&article.guid) {
            Some(i) => {
                let merged = merged_article(self.store.article_at(i), article);
                let st = article_update_statement(&merged);
                proof {
                    lemma_article_update_means(self@, article@, merged.id, st@, merged@);
                }
                match execute(self, &st) {
                    Ok(_) => {},
                    Err(e) => { return Err(DbError::Sqlite(e)); },
                }
                proof {
                    lemma_pushed(old(self).written(), st@);
                }
                let mut store = self.take_store();
                let n = store.upsert_article(article, merged.id);
                self.store = store;
                Ok(n)
            },
            None => {
                if !self.store.has_feed(article.feed_id) {
                    return Err(DbError::UnknownFeed(article.feed_id));
                }
                let st = article_insert_statement(article);
                match execute(self, &st) {
                    Ok(_) => {},
                    Err(e) => { return Err(DbError::Sqlite(e)); },
                }
                proof {
                    lemma_pushed(old(self).written(), st@);
                }
                let new_id = checked_article_rowid(&self.store, last_insert_rowid(&self.conn))?;
                let mut store = self.take_store();
                let n = store.upsert_article(article, new_id);
                self.store = store;
                proof {
                    assert(self@.articles.drop_last() =~= old(self)@.articles);
                }
                Ok(n)
            },
        }
    }

    /// The articles, or only the unread ones, in the order of their ids.
    pub fn get_articles(&self, unread_only: bool) -> (r: Result<Vec<Article>, DbError>)
        ensures
            store_wf(self@),
            r matches Ok(v) && articles_view(v@) == listed_articles(self@, unread_only),
    {
        proof {
            use_type_invariant(self);
        }
        Ok(self.store.list_articles(unread_only))
    }

    /// Marks every article read.
    pub fn mark_read_all(&mut self) -> (r: Result<(), DbError>)
        ensures
            r is Ok ==> wrote(old(self).written(), final(self).written(), StmtKind::MarkAllRead, MARK_ALL_READ@, old(self)@, final(self)@),
            r is Err ==> final(self).written() == old(self).written(),
            store_wf(final(self)@),
            match r {
                Ok(()) => final(self)@ == all_read(old(self)@),
                Err(_) => final(self)@ == old(self)@,
            },
            r matches Err(e) ==> e is Sqlite,
    {
        proof {
            use_type_invariant(&*self);
        }
        let st = mark_all_read_statement();
        match execute(self, &st) {
            Ok(_) => {},
            Err(e) => { return Err(DbError::Sqlite(e)); },
        }
        proof {
            lemma_pushed(old(self).written(), st@);
        }
        let mut store = self.take_store();
        store.mark_all_read();
        self.store = store;
        Ok(())
    }

    /// Marks the article with id `id` read.
    pub fn mark_read(&mut self, id: i64) -> (r: Result<(), DbError>)
        ensures
            r is Ok ==> wrote(old(self).written(), final(self).written(), StmtKind::MarkRead, MARK_READ@, old(self)@, final(self)@),
            r is Err ==> final(self).written() == old(self).written(),
            store_wf(final(self)@),
            match r {
                Ok(()) => final(self)@ == one_read(old(self)@, id),
                Err(_) => final(self)@ == old(self)@,
            },
            r matches Err(e) ==> e is Sqlite,
    {
        proof {
            use_type_invariant(&*self);
        }
        let st = mark_read_statement(id);
        match execute(self, &st) {
            Ok(_) => {},
            Err(e) => { return Err(DbError::Sqlite(e)); },
        }
        proof {
            lemma_pushed(old(self).written(), st@);
        }
        let mut store = self.take_store();
        store.mark_read(id);
        self.store = store;
        Ok(())
    }

    /// Removes the articles of feed `feed_id` whose GUID is not among
    /// `seen_guids` (all of its articles where that list is empty); answers
    /// with the number removed.
    pub fn delete_articles_except(&mut self, feed_id: i64, seen_guids: &[String]) -> (r: Result<usize, DbError>)
        ensures
            r is Ok ==> wrote(old(self).written(), final(self).written(), StmtKind::Prune, prune_sql(seen_guids@.len()), old(self)@, final(self)@),
            r is Err ==> final(self).written() == old(self).written(),
            store_wf(final(self)@),
            match r {
                Ok(n) => {
                    &&& final(self)@ == pruned(old(self)@, feed_id, strings_view(seen_guids@))
                    &&& n == prune_count(old(self)@, feed_id, strings_view(seen_guids@))
                },
                Err(_) => final(self)@ == old(self)@,
            },
            r matches Err(e) ==> e is Sqlite,
    {
        proof {
            use_type_invariant(&*self);
        }
        let st = prune_articles_statement(feed_id, seen_guids);
        proof {
            lemma_prune_guids(feed_id, seen_guids@);
        }
        match execute(self, &st) {
            Ok(_) => {},
            Err(e) => { return Err(DbError::Sqlite(e)); },
        }
        proof {
            lemma_pushed(old(self).written(), st@);
        }
        let mut store = self.take_store();
        let n = store.prune(feed_id, seen_guids);
        self.store = store;
        Ok(n)
    }
}

/// `k` placeholders `?` separated by commas.
pub open spec fn placeholders(k: nat) -> Seq<char>
    decreases k,
{
    if k == 0 {
        Seq::empty()
    } else if k == 1 {
        seq!['?']
    } else {
        placeholders((k - 1) as nat) + seq![',', '?']
    }
}

/// The statement that prunes a feed's articles given `k` GUIDs to keep; the
/// feed id is its first parameter, the GUIDs follow.
pub open spec fn prune_sql(k: nat) -> Seq<char> {
    if k == 0 {
        "DELETE FROM articles WHERE feed_id = ?1"@
    } else {
        "DELETE FROM articles WHERE feed_id = ?1 AND guid NOT IN ("@ + placeholders(k) + ")"@
    }
}

/// The text of the pruning statement for `k` GUIDs to keep.
pub fn prune_statement(k: usize) -> (r: String)
    ensures
        r@ == prune_sql(k as nat),
{
    if k == 0 {
        return String::from_str("DELETE FROM articles WHERE feed_id = ?1");
    }
    let mut s = String::from_str("DELETE FROM articles WHERE feed_id = ?1 AND guid NOT IN (");
    let ghost head = s@;
    proof {
        reveal_strlit("?");
        reveal_strlit(",?");
    }
    s.append("?");
    let mut j: usize = 1;
    while j < k
        invariant
            1 <= j <= k,
            s@ == head + placeholders(j as nat),
        decreases k - j,
    {
        proof {
            reveal_strlit(",?");
        }
        s.append(",?");
        proof {
            assert(s@ =~= head + placeholders((j + 1) as nat));
        }
        j = j + 1;
    }
    s.append(")");
    s
}

} // verus!
