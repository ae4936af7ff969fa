//! What the statements the client writes do to the file: each change the
//! client makes to its tables is carried out on the file by exactly one
//! statement whose SQL makes the same change, so the file, read again,
//! holds what the client holds.
use vstd::prelude::*;
use crate::db::sql_means;
use crate::laws::law_delete_feed;
use crate::sqlite::{SqlParamView, StatementView, StmtKind};
use crate::store::{has_feed_id, StoreView};

verus! {

/// Carrying out the statements `log` in order on tables `s0` can give tables
/// `s`.
pub open spec fn replays(s0: StoreView, log: Seq<StatementView>, s: StoreView) -> bool
    decreases log.len(),
{
    if log.len() == 0 {
        s == s0
    } else {
        exists|m: StoreView| replays(s0, log.drop_last(), m) && #[trigger] sql_means(m, log.last(), s)
    }
}

/// A session stays faithful to the file: where the statements written so
/// far take the rows read at opening to the client's tables, one more
/// statement that takes those tables to new ones takes the rows read at
/// opening to the new tables.
pub proof fn law_session_replays(
    s0: StoreView,
    log: Seq<StatementView>,
    s: StoreView,
    st: StatementView,
    t: StoreView,
)
    requires
        replays(s0, log, s),
        sql_means(s, st, t),
    ensures
        replays(s0, log.push(st), t),
{
    assert(log.push(st).drop_last() =~= log);
    assert(log.push(st).last() == st);
}

/// A freshly opened client holds what the file holds: no statement written,
/// and the tables are the rows read.
pub proof fn law_opened_replays(s0: StoreView)
    ensures
        replays(s0, Seq::<StatementView>::empty(), s0),
{
}

/// Once the statement that marks every article read is carried out, the
/// file holds the same feeds and the same articles, each one read.
pub proof fn law_mark_all_read_on_file(s: StoreView, st: StatementView, t: StoreView)
    requires
        st.kind == StmtKind::MarkAllRead,
        sql_means(s, st, t),
    ensures
        t.feeds == s.feeds,
        t.articles.len() == s.articles.len(),
        forall|i: int| 0 <= i < t.articles.len() ==> (#[trigger] t.articles[i]).is_read,
        forall|i: int| 0 <= i < t.articles.len() ==> t.articles[i].id == s.articles[i].id
            && (#[trigger] t.articles[i]).guid == s.articles[i].guid,
{
}

/// Once the statement that removes feed `id` is carried out, the file holds
/// no feed of that id and no article of it, and every other feed and
/// article is still there.
pub proof fn law_delete_feed_on_file(s: StoreView, st: StatementView, t: StoreView)
    requires
        st.kind == StmtKind::FeedDelete,
        sql_means(s, st, t),
    ensures
        st.params == seq![SqlParamView::Int(st.params[0]->Int_0)],
        !has_feed_id(t.feeds, st.params[0]->Int_0),
        forall|k: int| 0 <= k < t.articles.len() ==> (#[trigger] t.articles[k]).feed_id != st.params[0]->Int_0,
        forall|i: int| 0 <= i < s.feeds.len() && s.feeds[i].id != st.params[0]->Int_0
            ==> t.feeds.contains(#[trigger] s.feeds[i]),
        forall|i: int| 0 <= i < s.articles.len() && s.articles[i].feed_id != st.params[0]->Int_0
            ==> t.articles.contains(#[trigger] s.articles[i]),
{
    assert(st.params =~= seq![SqlParamView::Int(st.params[0]->Int_0)]);
    law_delete_feed(s, st.params[0]->Int_0);
}

} // verus!
