use rsscli::{DbClient, NewArticle, NewFeed, Timestamp};

fn setup_in_memory_db() -> DbClient {
    DbClient::new(":memory:").expect("Failed to create in-memory DB")
}

fn now() -> Timestamp {
    let n = chrono::Utc::now();
    Timestamp::new(n.timestamp(), n.timestamp_subsec_nanos()).expect("representable")
}

#[test]
fn test_feed_operations() {
    let mut db = setup_in_memory_db();
    let new_feed = NewFeed {
        url: "http://example.com/rss".to_string(),
        title: Some("Example Feed".to_string()),
        etag: None,
        last_modified: None,
    };

    let id = db.insert_feed(&new_feed).expect("Failed to insert feed");
    assert!(id > 0);

    let feeds = db.get_all_feeds().expect("Failed to get feeds");
    assert_eq!(feeds.len(), 1);
    assert_eq!(feeds[0].url, "http://example.com/rss");
    assert_eq!(feeds[0].title, Some("Example Feed".to_string()));

    db.delete_feed(id).expect("Failed to delete feed");
    let feeds = db.get_all_feeds().expect("Failed to get feeds");
    assert_eq!(feeds.len(), 0);
}

#[test]
fn test_article_operations() {
    let mut db = setup_in_memory_db();
    let feed_id = db
        .insert_feed(&NewFeed {
            url: "http://example.com/rss".to_string(),
            title: Some("Example Feed".to_string()),
            etag: None,
            last_modified: None,
        })
        .expect("Failed to insert feed");

    let article = NewArticle {
        feed_id,
        guid: "guid1".to_string(),
        title: "Article 1".to_string(),
        url: Some("http://example.com/a1".to_string()),
        summary: Some("Summary 1".to_string()),
        content: Some("Content 1".to_string()),
        published_at: Some(now()),
    };

    let inserted = db
        .insert_article(&article)
        .expect("Failed to insert article");
    assert_eq!(inserted, 1);

    // Try inserting the same article again
    let reinserted = db
        .insert_article(&article)
        .expect("Failed to re-insert article");
    assert_eq!(reinserted, 0);

    let articles = db.get_articles(false).expect("Failed to get articles");
    assert_eq!(articles.len(), 1);
    assert_eq!(articles[0].guid, "guid1");
    assert_eq!(articles[0].is_read, false);

    db.mark_read(articles[0].id)
        .expect("Failed to mark as read");
    let unread = db.get_articles(true).expect("Failed to get unread");
    assert_eq!(unread.len(), 0);

    let all = db.get_articles(false).expect("Failed to get all");
    assert_eq!(all.len(), 1);
    assert!(all[0].is_read);
}

#[test]
fn test_pruning_logic() {
    let mut db = setup_in_memory_db();
    let feed_id = db
        .insert_feed(&NewFeed {
            url: "test".to_string(),
            title: None,
            etag: None,
            last_modified: None,
        })
        .expect("Insert feed");

    db.insert_article(&NewArticle {
        feed_id,
        guid: "keep".to_string(),
        title: "K".to_string(),
        url: None,
        summary: None,
        content: None,
        published_at: None,
    })
    .expect("Insert K");

    db.insert_article(&NewArticle {
        feed_id,
        guid: "prune".to_string(),
        title: "P".to_string(),
        url: None,
        summary: None,
        content: None,
        published_at: None,
    })
    .expect("Insert P");

    let deleted = db
        .delete_articles_except(feed_id, &["keep".to_string()])
        .expect("Prune");
    assert_eq!(deleted, 1);

    let remaining = db.get_articles(false).expect("Get remaining");
    assert_eq!(remaining.len(), 1);
    assert_eq!(remaining[0].guid, "keep");
}
