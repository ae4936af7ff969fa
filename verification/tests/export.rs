use rsscli::{write_articles, Article, Format, Timestamp};

fn now() -> Timestamp {
    let n = chrono::Utc::now();
    Timestamp::new(n.timestamp(), n.timestamp_subsec_nanos()).expect("representable")
}

#[test]
fn test_write_articles_json() {
    let articles = vec![Article {
        id: 1,
        feed_id: 1,
        guid: "g1".to_string(),
        title: "T1".to_string(),
        url: Some("U1".to_string()),
        summary: Some("S1".to_string()),
        content: None,
        published_at: Some(now()),
        is_read: false,
    }];

    let mut buf = Vec::new();
    write_articles(&mut buf, &articles, Format::Json).expect("Write failed");
    let output = String::from_utf8(buf).expect("Not UTF-8");
    assert!(output.contains("\"title\": \"T1\""));
    assert!(output.contains("\"guid\": \"g1\""));
}

#[test]
fn test_write_articles_markdown() {
    let articles = vec![Article {
        id: 1,
        feed_id: 1,
        guid: "g1".to_string(),
        title: "T1".to_string(),
        url: Some("U1".to_string()),
        summary: Some("S1".to_string()),
        content: Some("C1".to_string()),
        published_at: None,
        is_read: false,
    }];

    let mut buf = Vec::new();
    write_articles(&mut buf, &articles, Format::Markdown).expect("Write failed");
    let output = String::from_utf8(buf).expect("Not UTF-8");
    assert!(output.contains("## [T1](U1)"));
    assert!(output.contains("**Summary:**\nS1"));
    assert!(output.contains("**Content:**\nC1"));
}
