use rsscli::export::{first_unprintable_date, markdown_heading};
use rsscli::db::{feed_update_statement, FEED_UPDATE};
use rsscli::fetch::{response_action, ResponseAction};
use rsscli::sqlite::SqlParam;
use rsscli::cli::{mark_read_command, render_feed_table, MarkReadOutcome};
use rsscli::db::prune_statement;
use rsscli::fetch::{
    content_events, metadata_event, parse_feed, refresh_summary, request_headers, ImportOutcome, ACCEPT,
};
use rsscli::{write_articles, Article, DbClient, Feed, FetchError, Format, NewFeed, RefreshEvent, RefreshTally, Timestamp};

const RSS: &str = r#"<?xml version="1.0" encoding="UTF-8"?>
<rss version="2.0">
  <channel>
    <title>Chan</title>
    <link>http://example.com/</link>
    <description>a channel</description>
    <item>
      <title>First</title>
      <link>http://example.com/a</link>
      <guid>ga</guid>
      <description>about a</description>
    </item>
    <item>
      <link>http://example.com/b</link>
      <guid>gb</guid>
    </item>
  </channel>
</rss>"#;

const RSS_ONE: &str = r#"<?xml version="1.0" encoding="UTF-8"?>
<rss version="2.0">
  <channel>
    <title>Chan</title>
    <link>http://example.com/</link>
    <description>a channel</description>
    <item>
      <title>First</title>
      <link>http://example.com/a</link>
      <guid>ga</guid>
    </item>
  </channel>
</rss>"#;

const OPML: &str = r#"<?xml version="1.0" encoding="UTF-8"?>
<opml version="2.0">
  <head><title>subs</title></head>
  <body>
    <outline text="Top" xmlUrl="http://top.example/feed"/>
    <outline text="Folder">
      <outline text="Inner" xmlUrl="http://inner.example/feed"/>
      <outline text="Deep folder">
        <outline text="Too deep" xmlUrl="http://deep.example/feed"/>
      </outline>
    </outline>
  </body>
</opml>"#;

fn db() -> DbClient {
    DbClient::new(":memory:").expect("in-memory DB")
}

fn new_feed(url: &str) -> NewFeed {
    NewFeed { url: url.to_string(), title: Some("F".to_string()), etag: None, last_modified: None }
}

fn refresh(db: &mut DbClient, feed_id: i64, body: &str, tally: &mut RefreshTally) {
    let events = content_events(feed_id, body.as_bytes()).expect("parses");
    for ev in &events {
        db.apply_refresh_event(ev, tally).expect("applies");
    }
}

#[test]
fn refresh_events_are_articles_then_the_end_of_the_feed() {
    let events = content_events(7, RSS.as_bytes()).expect("parses");
    assert_eq!(events.len(), 3);
    match &events[0] {
        RefreshEvent::Article(a) => {
            assert_eq!(a.feed_id, 7);
            assert_eq!(a.guid, "ga");
            assert_eq!(a.title, "First");
            assert_eq!(a.url, Some("http://example.com/a".to_string()));
            assert_eq!(a.summary, Some("about a".to_string()));
        }
        _ => panic!("expected an article"),
    }
    match &events[1] {
        RefreshEvent::Article(a) => {
            assert_eq!(a.guid, "gb");
            assert_eq!(a.title, "Untitled");
            assert_eq!(a.url, Some("http://example.com/b".to_string()));
        }
        _ => panic!("expected an article"),
    }
    match &events[2] {
        RefreshEvent::FeedFinished(id, guids) => {
            assert_eq!(*id, 7);
            assert_eq!(guids, &vec!["ga".to_string(), "gb".to_string()]);
        }
        _ => panic!("expected the end of the feed"),
    }
}

#[test]
fn a_body_that_is_no_feed_gives_a_parse_error() {
    assert!(matches!(content_events(1, b"this is not a feed"), Err(FetchError::Parse(_))));
}

#[test]
fn refreshing_counts_new_and_purged_articles() {
    let mut db = db();
    let id = db.insert_feed(&new_feed("http://example.com/rss")).unwrap();
    let mut tally = RefreshTally { new_articles: 0, deleted_articles: 0 };
    refresh(&mut db, id, RSS, &mut tally);
    assert_eq!(tally.new_articles, 2);
    assert_eq!(tally.deleted_articles, 0);
    assert_eq!(db.get_articles(false).unwrap().len(), 2);

    // the same body again adds nothing
    let mut again = RefreshTally { new_articles: 0, deleted_articles: 0 };
    refresh(&mut db, id, RSS, &mut again);
    assert_eq!(again.new_articles, 0);
    assert_eq!(again.deleted_articles, 0);

    // an entry that left the feed is purged
    let mut third = RefreshTally { new_articles: 0, deleted_articles: 0 };
    refresh(&mut db, id, RSS_ONE, &mut third);
    assert_eq!(third.new_articles, 0);
    assert_eq!(third.deleted_articles, 1);
    let left = db.get_articles(false).unwrap();
    assert_eq!(left.len(), 1);
    assert_eq!(left[0].guid, "ga");
    assert_eq!(
        refresh_summary(&third),
        "Imported 0 new articles. Purged 1 articles no longer in feeds."
    );
}

#[test]
fn metadata_events_store_caching_headers() {
    assert!(metadata_event(1, None, None).is_none());
    let mut db = db();
    let id = db.insert_feed(&new_feed("u")).unwrap();
    let ev = metadata_event(id, Some("\"abc\"".to_string()), None).expect("an event");
    let mut tally = RefreshTally { new_articles: 3, deleted_articles: 4 };
    assert_eq!(db.apply_refresh_event(&ev, &mut tally).unwrap(), 0);
    assert_eq!(tally.new_articles, 3);
    assert_eq!(tally.deleted_articles, 4);
    let feeds = db.get_all_feeds().unwrap();
    assert_eq!(feeds[0].etag, Some("\"abc\"".to_string()));
    assert_eq!(feeds[0].last_modified, None);
}

#[test]
fn an_article_of_an_unknown_feed_is_refused() {
    let mut db = db();
    let events = content_events(99, RSS_ONE.as_bytes()).unwrap();
    let mut tally = RefreshTally { new_articles: 0, deleted_articles: 0 };
    assert!(db.apply_refresh_event(&events[0], &mut tally).is_err());
    assert_eq!(tally.new_articles, 0);
    assert!(db.get_articles(false).unwrap().is_empty());
}

#[test]
fn refresh_summary_spells_both_counts() {
    let t = RefreshTally { new_articles: 12, deleted_articles: 305 };
    assert_eq!(refresh_summary(&t), "Imported 12 new articles. Purged 305 articles no longer in feeds.");
}

#[test]
fn request_headers_carry_the_caching_values() {
    let plain = request_headers(&None, &None);
    assert_eq!(plain, vec![("Accept".to_string(), ACCEPT.to_string())]);
    let both = request_headers(&Some("e".to_string()), &Some("m".to_string()));
    assert_eq!(
        both,
        vec![
            ("Accept".to_string(), ACCEPT.to_string()),
            ("If-None-Match".to_string(), "e".to_string()),
            ("If-Modified-Since".to_string(), "m".to_string()),
        ]
    );
    let lm = request_headers(&None, &Some("m".to_string()));
    assert_eq!(lm[1], ("If-Modified-Since".to_string(), "m".to_string()));
}

#[test]
fn adding_a_fetched_feed_stores_its_title() {
    let mut db = db();
    let title = db
        .add_fetched_feed("http://example.com/rss", Some("e".to_string()), None, RSS.as_bytes())
        .expect("added");
    assert_eq!(title, "Chan");
    let feeds = db.get_all_feeds().unwrap();
    assert_eq!(feeds.len(), 1);
    assert_eq!(feeds[0].url, "http://example.com/rss");
    assert_eq!(feeds[0].title, Some("Chan".to_string()));
    assert_eq!(feeds[0].etag, Some("e".to_string()));
    // articles come with the next refresh, not with the feed
    assert!(db.get_articles(false).unwrap().is_empty());
}

#[test]
fn adding_a_feed_that_does_not_parse_changes_nothing() {
    let mut db = db();
    assert!(matches!(
        db.add_fetched_feed("http://example.com/x", None, None, b"<html></html>"),
        Err(FetchError::Parse(_))
    ));
    assert!(db.get_all_feeds().unwrap().is_empty());
}

#[test]
fn opml_import_reads_two_levels_of_outlines() {
    let mut db = db();
    let outcomes = db.import_opml(OPML).expect("valid OPML");
    assert_eq!(outcomes.len(), 2);
    match &outcomes[0] {
        ImportOutcome::Imported(_, t) => assert_eq!(t, "Top"),
        _ => panic!("expected an import"),
    }
    match &outcomes[1] {
        ImportOutcome::Imported(_, t) => assert_eq!(t, "Inner"),
        _ => panic!("expected an import"),
    }
    let feeds = db.get_all_feeds().unwrap();
    let urls: Vec<&str> = feeds.iter().map(|f| f.url.as_str()).collect();
    assert_eq!(urls, vec!["http://top.example/feed", "http://inner.example/feed"]);
    assert_eq!(feeds[1].title, Some("Inner".to_string()));
}

#[test]
fn opml_that_does_not_parse_is_an_error() {
    let mut db = db();
    assert!(matches!(db.import_opml("<not-opml"), Err(FetchError::Opml(_))));
    assert!(db.get_all_feeds().unwrap().is_empty());
}

#[test]
fn feed_table_has_padded_columns() {
    let feeds = vec![
        Feed { id: 1, url: "http://a".to_string(), title: Some("Alpha".to_string()), etag: None, last_modified: None },
        Feed { id: 22, url: "http://b".to_string(), title: None, etag: None, last_modified: None },
    ];
    let expected = format!(
        "{:<5} {:<30} {:<30}\n{}\n{:<5} {:<30} {:<30}\n{:<5} {:<30} {:<30}\n",
        "ID", "Title", "URL", "-".repeat(65), 1, "Alpha", "http://a", 22, "Unknown", "http://b"
    );
    assert_eq!(render_feed_table(&feeds), expected);
    // a title longer than its column is not cut
    let long = vec![Feed {
        id: 3,
        url: "u".to_string(),
        title: Some("x".repeat(40)),
        etag: None,
        last_modified: None,
    }];
    assert!(render_feed_table(&long).contains(&format!("3     {} u", "x".repeat(40))));
}

#[test]
fn mark_read_command_outcomes() {
    let mut db = db();
    let fid = db.insert_feed(&new_feed("u")).unwrap();
    let mut tally = RefreshTally { new_articles: 0, deleted_articles: 0 };
    refresh(&mut db, fid, RSS, &mut tally);
    assert_eq!(mark_read_command(&mut db, false, None).unwrap(), MarkReadOutcome::NothingSpecified);
    assert_eq!(db.get_articles(true).unwrap().len(), 2);
    let first = db.get_articles(true).unwrap()[0].id;
    assert_eq!(mark_read_command(&mut db, false, Some(first)).unwrap(), MarkReadOutcome::One(first));
    assert_eq!(db.get_articles(true).unwrap().len(), 1);
    assert_eq!(mark_read_command(&mut db, true, Some(first)).unwrap(), MarkReadOutcome::All);
    assert!(db.get_articles(true).unwrap().is_empty());
}

#[test]
fn prune_statement_lists_one_placeholder_per_guid() {
    assert_eq!(prune_statement(0), "DELETE FROM articles WHERE feed_id = ?1");
    assert_eq!(prune_statement(1), "DELETE FROM articles WHERE feed_id = ?1 AND guid NOT IN (?)");
    assert_eq!(prune_statement(3), "DELETE FROM articles WHERE feed_id = ?1 AND guid NOT IN (?,?,?)");
}

fn dated_article() -> Article {
    Article {
        id: 5,
        feed_id: 2,
        guid: "g".to_string(),
        title: "T".to_string(),
        url: None,
        summary: Some("S".to_string()),
        content: None,
        published_at: Some(Timestamp::new(1704067200, 0).unwrap()),
        is_read: true,
    }
}

#[test]
fn markdown_spells_the_date_in_rfc2822() {
    let mut buf = Vec::new();
    write_articles(&mut buf, &[dated_article()], Format::Markdown).unwrap();
    assert_eq!(
        String::from_utf8(buf).unwrap(),
        "## [T]()\n*Published at: Mon, 1 Jan 2024 00:00:00 +0000*\n\n**Summary:**\nS\n\n\n---\n\n"
    );
}

#[test]
fn json_output_is_exact() {
    let mut buf = Vec::new();
    write_articles(&mut buf, &[dated_article()], Format::Json).unwrap();
    let expected = "[\n  {\n    \"id\": 5,\n    \"feed_id\": 2,\n    \"guid\": \"g\",\n    \"title\": \"T\",\n    \"url\": null,\n    \"summary\": \"S\",\n    \"content\": null,\n    \"published_at\": \"2024-01-01T00:00:00Z\",\n    \"is_read\": true\n  }\n]\n";
    assert_eq!(String::from_utf8(buf).unwrap(), expected);
}

#[test]
fn writing_appends_to_what_the_writer_holds() {
    let mut buf = b"head\n".to_vec();
    write_articles(&mut buf, &[], Format::Json).unwrap();
    assert_eq!(String::from_utf8(buf).unwrap(), "head\n[]\n");
    let mut md = b"x".to_vec();
    write_articles(&mut md, &[], Format::Markdown).unwrap();
    assert_eq!(md, b"x".to_vec());
}

#[test]
fn parsing_gives_the_title_and_every_entry() {
    let p = parse_feed(RSS.as_bytes()).expect("parses");
    assert_eq!(p.title, Some("Chan".to_string()));
    assert_eq!(p.entries.len(), 2);
    assert!(matches!(parse_feed(b"{ not a feed"), Err(FetchError::Parse(_))));
}

const PODCAST: &str = r#"<?xml version="1.0" encoding="UTF-8"?>
<rss version="2.0" xmlns:itunes="http://www.itunes.com/dtds/podcast-1.0.dtd">
  <channel>
    <title>Pod</title>
    <link>http://example.com/</link>
    <description>d</description>
    <item>
      <title>Ep</title>
      <link>http://example.com/ep</link>
      <guid>ep1</guid>
      <itunes:duration>DURATION</itunes:duration>
    </item>
  </channel>
</rss>"#;

#[test]
fn safe_play_times_are_parsed() {
    let body = PODCAST.replace("DURATION", "01:02:03");
    assert!(!rsscli::scan::panic_risky(body.as_bytes()));
    let p = parse_feed(body.as_bytes()).expect("parses");
    assert_eq!(p.entries.len(), 1);
    assert_eq!(p.entries[0].id, "ep1");
}

#[test]
fn play_times_feed_rs_cannot_read_are_refused() {
    let long = PODCAST.replace("DURATION", "123456789012345678901234");
    assert!(rsscli::scan::panic_risky(long.as_bytes()));
    assert!(matches!(parse_feed(long.as_bytes()), Err(FetchError::Unsupported)));
    let split = PODCAST.replace("DURATION", "12345678<!-- x > y -->90123456789");
    assert!(rsscli::scan::panic_risky(split.as_bytes()));
    let arabic = PODCAST.replace("DURATION", "\u{663}");
    assert!(rsscli::scan::panic_risky(arabic.as_bytes()));
    let referenced = PODCAST.replace("DURATION", "&#1635;");
    assert!(rsscli::scan::panic_risky(referenced.as_bytes()));
    // without a play time, long digit runs and other scripts are harmless
    let plain = RSS.replace("about a", "\u{663} 123456789012345678901234");
    assert!(!rsscli::scan::panic_risky(plain.as_bytes()));
    assert!(parse_feed(plain.as_bytes()).is_ok());
    // nor do words that merely look like play-time names
    let prose = PODCAST.replace("DURATION", "12:00").replace("Pod", "Caf\u{e9} time ");
    assert!(!rsscli::scan::panic_risky(prose.as_bytes()));
    assert!(parse_feed(prose.as_bytes()).is_ok());
    // a MediaRSS time attribute is a play time too
    let attr = RSS.replace("<guid>ga</guid>", "<guid>ga</guid><thumb time=\"99999999999999999999\"/>");
    assert!(rsscli::scan::panic_risky(attr.as_bytes()));
    let short_attr = RSS.replace("<guid>ga</guid>", "<guid>ga</guid><thumb time=\"12:00:01\"/>");
    assert!(!rsscli::scan::panic_risky(short_attr.as_bytes()));
}

#[test]
fn addresses_next_to_other_scripts_are_refused() {
    let editor = "<rss version=\"2.0\"><channel><title>t</title><managingEditor>a@b.co\u{2014}x</managingEditor></channel></rss>";
    assert!(rsscli::scan::panic_risky(editor.as_bytes()));
    assert!(matches!(parse_feed(editor.as_bytes()), Err(FetchError::Unsupported)));
    let before = "<rss version=\"2.0\"><channel><title>t</title><managingEditor>name\u{2014}a@b.co</managingEditor></channel></rss>";
    assert!(rsscli::scan::panic_risky(before.as_bytes()));
    // the usual forms, with names in other scripts, are read
    let usual = "<rss version=\"2.0\"><channel><title>t</title><managingEditor>jose@example.com (Jos\u{e9} Garc\u{ed}a)</managingEditor><webMaster>Jos\u{e9} &lt;jose@example.com&gt;</webMaster></channel></rss>";
    assert!(!rsscli::scan::panic_risky(usual.as_bytes()));
    assert!(parse_feed(usual.as_bytes()).is_ok());
    // an address spelt with a character reference for its `@`
    let reference = "<rss version=\"2.0\"><channel><title>t</title><managingEditor>a&#64;b.co</managingEditor></channel></rss>";
    assert!(rsscli::scan::panic_risky(reference.as_bytes()));
}

#[test]
fn response_statuses_decide_what_happens() {
    assert_eq!(response_action(200), ResponseAction::Read);
    assert_eq!(response_action(304), ResponseAction::Skip);
    assert_eq!(response_action(301), ResponseAction::Read);
    assert_eq!(response_action(404), ResponseAction::Fail);
    assert_eq!(response_action(503), ResponseAction::Fail);
    assert_eq!(response_action(600), ResponseAction::Read);
}

#[test]
fn statements_bind_their_values_in_order() {
    let f = Feed {
        id: 4,
        url: "u".to_string(),
        title: Some("T".to_string()),
        etag: Some("e".to_string()),
        last_modified: None,
    };
    let st = feed_update_statement(&f);
    assert_eq!(st.sql, FEED_UPDATE);
    assert!(matches!(&st.params[0], SqlParam::Text(t) if t == "T"));
    assert!(matches!(&st.params[1], SqlParam::Text(t) if t == "e"));
    assert!(matches!(&st.params[2], SqlParam::Null));
    assert!(matches!(&st.params[3], SqlParam::Int(4)));
    let pr = rsscli::db::prune_articles_statement(9, &["a".to_string(), "b".to_string()]);
    assert_eq!(pr.sql, "DELETE FROM articles WHERE feed_id = ?1 AND guid NOT IN (?,?)");
    assert_eq!(pr.params.len(), 3);
    assert!(matches!(&pr.params[0], SqlParam::Int(9)));
    assert!(matches!(&pr.params[2], SqlParam::Text(t) if t == "b"));
}

#[test]
fn a_database_in_a_missing_directory_cannot_be_opened() {
    assert!(matches!(
        DbClient::new("/nonexistent-dir-for-rsscli/x/db.sqlite"),
        Err(rsscli::DbError::Open(_))
    ));
}

#[test]
fn importing_the_same_list_twice_keeps_the_feeds() {
    let mut db = db();
    db.import_opml(OPML).expect("valid OPML");
    let once = db.get_all_feeds().unwrap();
    db.import_opml(OPML).expect("valid OPML");
    let twice = db.get_all_feeds().unwrap();
    assert_eq!(once.len(), twice.len());
    for (a, b) in once.iter().zip(twice.iter()) {
        assert_eq!((a.id, &a.url, &a.title, &a.etag, &a.last_modified), (b.id, &b.url, &b.title, &b.etag, &b.last_modified));
    }
}

#[test]
fn markdown_stops_at_the_first_date_it_cannot_spell() {

    let mut far = dated_article();
    far.published_at = Some(Timestamp::new(300_000_000_000, 0).unwrap());
    let list = vec![dated_article(), far, dated_article()];
    assert_eq!(first_unprintable_date(&list), Some(1));
    assert_eq!(first_unprintable_date(&[dated_article()]), None);
    assert_eq!(markdown_heading(&list[1]), "## [T]()\n");
}

#[test]
fn a_client_holds_the_rows_it_is_given() {
    let conn = rusqlite::Connection::open_in_memory().unwrap();
    let feeds = vec![
        Feed { id: 2, url: "b".to_string(), title: None, etag: None, last_modified: None },
        Feed { id: 1, url: "a".to_string(), title: None, etag: None, last_modified: None },
    ];
    assert!(matches!(DbClient::from_parts(conn, feeds, vec![]), Err(rsscli::DbError::Inconsistent)));
    let conn = rusqlite::Connection::open_in_memory().unwrap();
    let feeds = vec![Feed { id: 1, url: "a".to_string(), title: None, etag: None, last_modified: None }];
    let db = DbClient::from_parts(conn, feeds, vec![]).unwrap();
    assert_eq!(db.get_all_feeds().unwrap().len(), 1);
}

#[test]
fn feeds_with_ordinary_prose_and_accents_are_added() {
    let body = RSS.replace("<title>Chan</title>", "<title>Caf\u{e9} time </title>")
        .replace("about a", "We recommend the weekend start = early");
    let mut db = db();
    let title = db.add_fetched_feed("http://example.com/cafe", None, None, body.as_bytes()).expect("added");
    assert_eq!(title.trim_end(), "Caf\u{e9} time");
    let id = db.get_all_feeds().unwrap()[0].id;
    let mut tally = RefreshTally { new_articles: 0, deleted_articles: 0 };
    refresh(&mut db, id, &body, &mut tally);
    assert_eq!(tally.new_articles, 2);
}
