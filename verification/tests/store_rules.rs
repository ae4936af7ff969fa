use rsscli::{DbClient, DbError, NewArticle, NewFeed, Timestamp};

fn db() -> DbClient {
    DbClient::new(":memory:").expect("in-memory DB")
}

fn feed(url: &str, title: Option<&str>, etag: Option<&str>, lm: Option<&str>) -> NewFeed {
    NewFeed {
        url: url.to_string(),
        title: title.map(|s| s.to_string()),
        etag: etag.map(|s| s.to_string()),
        last_modified: lm.map(|s| s.to_string()),
    }
}

fn article(feed_id: i64, guid: &str, title: &str, content: Option<&str>) -> NewArticle {
    NewArticle {
        feed_id,
        guid: guid.to_string(),
        title: title.to_string(),
        url: Some(format!("http://example.com/{}", guid)),
        summary: Some(format!("summary of {}", guid)),
        content: content.map(|s| s.to_string()),
        published_at: None,
    }
}

#[test]
fn adding_a_feed_twice_keeps_one_feed_and_its_id() {
    let mut db = db();
    let a = db.insert_feed(&feed("u1", Some("First"), Some("e1"), Some("m1"))).unwrap();
    let b = db.insert_feed(&feed("u1", Some("Second"), None, None)).unwrap();
    assert_eq!(a, b);
    let feeds = db.get_all_feeds().unwrap();
    assert_eq!(feeds.len(), 1);
    assert_eq!(feeds[0].title, Some("Second".to_string()));
    // missing caching values keep the old ones
    assert_eq!(feeds[0].etag, Some("e1".to_string()));
    assert_eq!(feeds[0].last_modified, Some("m1".to_string()));
    // given ones replace them
    db.insert_feed(&feed("u1", None, Some("e2"), None)).unwrap();
    let feeds = db.get_all_feeds().unwrap();
    assert_eq!(feeds[0].title, None);
    assert_eq!(feeds[0].etag, Some("e2".to_string()));
    assert_eq!(feeds[0].last_modified, Some("m1".to_string()));
}

#[test]
fn new_feeds_get_growing_ids() {
    let mut db = db();
    let a = db.insert_feed(&feed("a", None, None, None)).unwrap();
    let b = db.insert_feed(&feed("b", None, None, None)).unwrap();
    assert!(a > 0);
    assert!(b > a);
    let feeds = db.get_all_feeds().unwrap();
    assert_eq!(feeds.iter().map(|f| f.id).collect::<Vec<_>>(), vec![a, b]);
}

#[test]
fn update_feed_metadata_sets_both_values() {
    let mut db = db();
    let a = db.insert_feed(&feed("a", Some("A"), Some("e"), Some("m"))).unwrap();
    let b = db.insert_feed(&feed("b", Some("B"), Some("x"), Some("y"))).unwrap();
    db.update_feed_metadata(a, Some("e2".to_string()), None).unwrap();
    let feeds = db.get_all_feeds().unwrap();
    assert_eq!(feeds[0].etag, Some("e2".to_string()));
    assert_eq!(feeds[0].last_modified, None);
    assert_eq!(feeds[0].title, Some("A".to_string()));
    assert_eq!(feeds[1].id, b);
    assert_eq!(feeds[1].etag, Some("x".to_string()));
}

#[test]
fn article_for_unknown_feed_is_refused() {
    let mut db = db();
    match db.insert_article(&article(42, "g", "T", None)) {
        Err(DbError::UnknownFeed(42)) => {}
        other => panic!("unexpected: {:?}", other),
    }
    assert_eq!(db.get_articles(false).unwrap().len(), 0);
}

#[test]
fn readding_an_article_updates_it_but_keeps_feed_read_flag_and_content() {
    let mut db = db();
    let f1 = db.insert_feed(&feed("f1", None, None, None)).unwrap();
    let f2 = db.insert_feed(&feed("f2", None, None, None)).unwrap();
    assert_eq!(db.insert_article(&article(f1, "g", "Old", Some("body"))).unwrap(), 1);
    let id = db.get_articles(false).unwrap()[0].id;
    db.mark_read(id).unwrap();
    // same GUID from another feed, new title, no content
    assert_eq!(db.insert_article(&article(f2, "g", "New", None)).unwrap(), 0);
    let all = db.get_articles(false).unwrap();
    assert_eq!(all.len(), 1);
    assert_eq!(all[0].id, id);
    assert_eq!(all[0].feed_id, f1);
    assert_eq!(all[0].title, "New");
    assert_eq!(all[0].content, Some("body".to_string()));
    assert!(all[0].is_read);
    // a new content replaces the old one
    db.insert_article(&article(f2, "g", "New", Some("body2"))).unwrap();
    assert_eq!(db.get_articles(false).unwrap()[0].content, Some("body2".to_string()));
}

#[test]
fn deleting_a_feed_removes_its_articles_only() {
    let mut db = db();
    let f1 = db.insert_feed(&feed("f1", None, None, None)).unwrap();
    let f2 = db.insert_feed(&feed("f2", None, None, None)).unwrap();
    db.insert_article(&article(f1, "a", "A", None)).unwrap();
    db.insert_article(&article(f2, "b", "B", None)).unwrap();
    db.insert_article(&article(f1, "c", "C", None)).unwrap();
    db.delete_feed(f1).unwrap();
    let feeds = db.get_all_feeds().unwrap();
    assert_eq!(feeds.len(), 1);
    assert_eq!(feeds[0].id, f2);
    let all = db.get_articles(false).unwrap();
    assert_eq!(all.len(), 1);
    assert_eq!(all[0].guid, "b");
}

#[test]
fn mark_read_all_empties_the_unread_listing() {
    let mut db = db();
    let f = db.insert_feed(&feed("f", None, None, None)).unwrap();
    for g in ["a", "b", "c"] {
        db.insert_article(&article(f, g, g, None)).unwrap();
    }
    assert_eq!(db.get_articles(true).unwrap().len(), 3);
    db.mark_read_all().unwrap();
    assert_eq!(db.get_articles(true).unwrap().len(), 0);
    let all = db.get_articles(false).unwrap();
    assert_eq!(all.len(), 3);
    assert!(all.iter().all(|a| a.is_read));
}

#[test]
fn unread_listing_keeps_id_order() {
    let mut db = db();
    let f = db.insert_feed(&feed("f", None, None, None)).unwrap();
    for g in ["a", "b", "c", "d"] {
        db.insert_article(&article(f, g, g, None)).unwrap();
    }
    let all = db.get_articles(false).unwrap();
    db.mark_read(all[1].id).unwrap();
    let unread: Vec<String> = db.get_articles(true).unwrap().into_iter().map(|a| a.guid).collect();
    assert_eq!(unread, vec!["a", "c", "d"]);
}

#[test]
fn pruning_with_no_guids_removes_all_of_the_feed() {
    let mut db = db();
    let f1 = db.insert_feed(&feed("f1", None, None, None)).unwrap();
    let f2 = db.insert_feed(&feed("f2", None, None, None)).unwrap();
    db.insert_article(&article(f1, "a", "A", None)).unwrap();
    db.insert_article(&article(f1, "b", "B", None)).unwrap();
    db.insert_article(&article(f2, "c", "C", None)).unwrap();
    assert_eq!(db.delete_articles_except(f1, &[]).unwrap(), 2);
    let all = db.get_articles(false).unwrap();
    assert_eq!(all.len(), 1);
    assert_eq!(all[0].guid, "c");
}

#[test]
fn pruning_keeps_seen_guids_and_other_feeds() {
    let mut db = db();
    let f1 = db.insert_feed(&feed("f1", None, None, None)).unwrap();
    let f2 = db.insert_feed(&feed("f2", None, None, None)).unwrap();
    for g in ["a", "b", "c"] {
        db.insert_article(&article(f1, g, g, None)).unwrap();
    }
    db.insert_article(&article(f2, "z", "Z", None)).unwrap();
    let n = db
        .delete_articles_except(f1, &["c".to_string(), "a".to_string(), "nope".to_string()])
        .unwrap();
    assert_eq!(n, 1);
    let guids: Vec<String> = db.get_articles(false).unwrap().into_iter().map(|a| a.guid).collect();
    assert_eq!(guids, vec!["a", "c", "z"]);
}

#[test]
fn contents_survive_reopening_the_database() {
    let path = "file:rsscli_reopen_test?mode=memory&cache=shared";
    let mut first = DbClient::new(path).expect("open");
    let f = first.insert_feed(&feed("u", Some("T"), Some("e"), None)).unwrap();
    let when = Timestamp::new(1_700_000_000, 123_000_000).unwrap();
    let mut a = article(f, "g", "Title", Some("C"));
    a.published_at = Some(when);
    first.insert_article(&a).unwrap();
    first.insert_article(&article(f, "h", "Other", None)).unwrap();
    let read_id = first.get_articles(false).unwrap()[1].id;
    first.mark_read(read_id).unwrap();

    let second = DbClient::new(path).expect("reopen");
    let feeds = second.get_all_feeds().unwrap();
    assert_eq!(feeds.len(), 1);
    assert_eq!(feeds[0].id, f);
    assert_eq!(feeds[0].title, Some("T".to_string()));
    assert_eq!(feeds[0].etag, Some("e".to_string()));
    assert_eq!(feeds[0].last_modified, None);
    let all = second.get_articles(false).unwrap();
    assert_eq!(all.len(), 2);
    assert_eq!(all[0].guid, "g");
    assert_eq!(all[0].published_at, Some(when));
    assert_eq!(all[0].content, Some("C".to_string()));
    assert!(!all[0].is_read);
    assert!(all[1].is_read);
    assert_eq!(second.get_articles(true).unwrap().len(), 1);
    drop(first);
}

#[test]
fn timestamps_outside_chrono_range_are_refused() {
    assert!(Timestamp::new(0, 0).is_some());
    assert!(Timestamp::new(59, 1_500_000_000).is_some());
    assert!(Timestamp::new(58, 1_500_000_000).is_none());
    assert!(Timestamp::new(i64::MAX, 0).is_none());
    let t = Timestamp::new(-5, 7).unwrap();
    assert_eq!((t.secs(), t.nanos()), (-5, 7));
}
