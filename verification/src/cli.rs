//! The commands of the program and the decisions they make that need no
//! network or terminal.
use vstd::prelude::*;
use crate::db::{DbClient, DbError};
use crate::fetch::shown_title;
use crate::models::{feeds_view, Feed, FeedView};
use crate::store::{all_read, one_read, store_wf};
use crate::text::{decimal, i64_decimal, opt_view, pad_right, push_padded, repeat_char};

verus! {

#[verifier::external_type_specification]
#[verifier::external_body]
pub struct ExPathBuf(std::path::PathBuf);

/// The program's arguments: a command and an optional database path.
pub struct Cli {
    pub command: Commands,
    pub db_path: Option<std::path::PathBuf>,
}

/// What the program is asked to do.
pub enum Commands {
    /// Manage feeds (add, remove, list, import).
    Feed { command: FeedCommands },
    /// Refresh all feeds and store new articles.
    Refresh,
    /// Print articles (unread only unless `all`).
    Print { format: Format, all: bool },
    /// Mark articles read.
    MarkRead { all: bool, article_id: Option<i64> },
}

/// The feed management commands.
pub enum FeedCommands {
    /// Add a single feed URL.
    Add { url: String },
    /// Remove a feed by its id.
    Remove { id: i64 },
    /// List all feeds.
    List,
    /// Import feeds from an OPML file.
    Import { path: std::path::PathBuf },
}

/// The output format of printed articles.
#[derive(Clone, Copy, Debug, PartialEq, Eq, Structural)]
pub enum Format {
    Json,
    Markdown,
}

impl Default for Format {
    fn default() -> (r: Format)
        ensures
            r == Format::Json,
    {
        Format::Json
    }
}

// ---------------------------------------------------------------------------
// Listing feeds.

/// A line of the feed table: id, title and URL left-aligned in columns of 5,
/// 30 and 30 characters.
pub open spec fn table_line(id: Seq<char>, title: Seq<char>, url: Seq<char>) -> Seq<char> {
    pad_right(id, 5) + " "@ + pad_right(title, 30) + " "@ + pad_right(url, 30) + "\n"@
}

pub open spec fn feed_line(f: FeedView) -> Seq<char> {
    table_line(decimal(f.id as int), shown_title(f.title), f.url)
}

pub open spec fn feed_lines(fs: Seq<FeedView>) -> Seq<char>
    decreases fs.len(),
{
    if fs.len() == 0 {
        Seq::empty()
    } else {
        feed_lines(fs.drop_last()) + feed_line(fs.last())
    }
}

/// The feed table: a header, a rule of 65 dashes, one line per feed.
pub open spec fn feed_table(fs: Seq<FeedView>) -> Seq<char> {
    table_line("ID"@, "Title"@, "URL"@) + repeat_char('-', 65) + "\n"@ + feed_lines(fs)
}

fn push_table_line(out: &mut String, id: &str, title: &str, url: &str)
    ensures
        final(out)@ == old(out)@ + table_line(id@, title@, url@),
{
    let ghost s0 = out@;
    push_padded(out, id, 5);
    out.append(" ");
    push_padded(out, title, 30);
    out.append(" ");
    push_padded(out, url, 30);
    out.append("\n");
    proof {
        assert(out@ =~= s0 + table_line(id@, title@, url@));
    }
}

/// The table of feeds that `feed list` prints.
pub fn render_feed_table(feeds: &[Feed]) -> (r: String)
    ensures
        r@ == feed_table(feeds_view(feeds@)),
{
    let ghost fs = feeds_view(feeds@);
    let mut out = String::new();
    push_table_line(&mut out, "ID", "Title", "URL");
    let mut k: usize = 0;
    while k < 65
        invariant
            k <= 65,
            out@ == table_line("ID"@, "Title"@, "URL"@) + repeat_char('-', k as nat),
        decreases 65 - k,
    {
        proof {
            reveal_strlit("-");
        }
        out.append("-");
        proof {
            assert(out@ =~= table_line("ID"@, "Title"@, "URL"@) + repeat_char('-', (k + 1) as nat));
        }
        k = k + 1;
    }
    out.append("\n");
    let ghost head = out@;
    let mut i: usize = 0;
    while i < feeds.len()
        invariant
            fs == feeds_view(feeds@),
            i <= feeds@.len(),
            out@ == head + feed_lines(fs.take(i as int)),
        decreases feeds@.len() - i,
    {
        let f = &feeds[i];
        let id = i64_decimal(f.id);
        let title = crate::fetch::title_or_unknown(&f.title);
        push_table_line(&mut out, id.as_str(), title.as_str(), f.url.as_str());
        proof {
            assert(fs[i as int] == f@);
            assert(fs.take(i + 1).drop_last() =~= fs.take(i as int));
            assert(out@ =~= head + feed_lines(fs.take(i + 1)));
        }
        i = i + 1;
    }
    proof {
        assert(fs.take(i as int) =~= fs);
    }
    out
}

// ---------------------------------------------------------------------------
// Marking articles read.

/// What `mark-read` did.
#[derive(Debug, PartialEq, Eq, Structural)]
pub enum MarkReadOutcome {
    /// Every article was marked read.
    All,
    /// The article with this id was marked read.
    One(i64),
    /// Neither `--all` nor an article id was given; nothing changed.
    NothingSpecified,
}

/// `mark-read`: with `all`, marks every article read; else, given an id,
/// marks that article read; else changes nothing.
pub fn mark_read_command(db: &mut DbClient, all: bool, article_id: Option<i64>) -> (r: Result<MarkReadOutcome, DbError>)
    ensures
        store_wf(final(db)@),
        all ==> match r {
            Ok(o) => o == MarkReadOutcome::All && final(db)@ == all_read(old(db)@),
            Err(_) => final(db)@ == old(db)@,
        },
        !all && article_id is Some ==> match r {
            Ok(o) => o == MarkReadOutcome::One(article_id->0) && final(db)@ == one_read(old(db)@, article_id->0),
            Err(_) => final(db)@ == old(db)@,
        },
        !all && article_id is None ==> r == Ok::<MarkReadOutcome, DbError>(MarkReadOutcome::NothingSpecified) && final(db)@ == old(db)@,
{
    if all {
        db.mark_read_all()?;
        Ok(MarkReadOutcome::All)
    } else {
        match article_id {
            Some(id) => {
                db.mark_read(id)?;
                Ok(MarkReadOutcome::One(id))
            },
            None => {
                proof {
                    use_type_invariant(&*db);
                }
                Ok(MarkReadOutcome::NothingSpecified)
            },
        }
    }
}

} // verus!
