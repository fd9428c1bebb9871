use tgb_cli::model::{Article, RunStats};
use tgb_cli::parser::apply_article_body;
use tgb_cli::store::{export_query, merge_article};

fn sample() -> Article {
    Article::metadata("abc".into(), "测试".into(), "https://www.tgb.cn/a/abc".into(), "hot")
}

#[test]
fn metadata_articles_start_empty() {
    let a = sample();
    assert_eq!(a.parse_status, "metadata");
    assert_eq!(a.source, "hot");
    assert!(a.tags.is_empty());
    assert!(!a.body_succeeded());
    assert_eq!(RunStats::default().failed_count, 0);
}

#[test]
fn fetch_errors_are_marked() {
    let mut a = sample();
    a.mark_fetch_error("temporary network error");
    assert_eq!(a.parse_status, "fetch_error");
    assert_eq!(a.error.as_deref(), Some("temporary network error"));
    assert!(a.fetched_at.is_some());
    assert_eq!(a.title, "测试");
}

#[test]
fn applying_a_page_sets_status_hash_and_errors() {
    let mut a = sample();
    let long = "<div class=\"article-content\">这是一段足够长的测试正文，用于验证存储。</div>";
    apply_article_body(&mut a, long, 200);
    assert_eq!(a.parse_status, "parsed");
    assert!(a.body_succeeded());
    assert_eq!(a.http_status, Some(200));
    assert_eq!(a.error, None);
    assert_eq!(a.content_hash.as_deref().map(str::len), Some(64));

    let mut b = sample();
    apply_article_body(&mut b, "<div class=\"article-content\">太短</div>", 200);
    assert_eq!(b.parse_status, "too_short");
    assert_eq!(b.body_text.as_deref(), Some("太短"));
    assert_eq!(
        b.error.as_deref(),
        Some("body container found but only 2 characters were extracted")
    );

    let mut c = sample();
    apply_article_body(&mut c, "<p>无正文</p>", 404);
    assert_eq!(c.parse_status, "missing_body");
    assert_eq!(c.error.as_deref(), Some("no supported article body container found"));
    assert_eq!(c.body_text, None);
}

#[test]
fn a_parsed_article_is_not_downgraded_by_a_later_failure() {
    let mut stored = sample();
    stored.parse_status = "parsed".into();
    stored.body_text = Some("这是一段足够长的测试正文，用于验证存储。".into());
    stored.http_status = Some(200);
    let mut later = stored.copy();
    later.source = "article".into();
    later.body_text = None;
    later.http_status = None;
    later.mark_fetch_error("temporary network error");
    let merged = merge_article(&stored, &later);
    assert_eq!(merged.parse_status, "parsed");
    assert_eq!(merged.http_status, Some(200));
    assert_eq!(merged.error, None);
    assert_eq!(merged.body_text, stored.body_text);
    assert_eq!(merged.fetched_at, stored.fetched_at);
}

#[test]
fn metadata_records_keep_status_and_fill_missing_values() {
    let mut stored = sample();
    stored.parse_status = "missing_body".into();
    stored.error = Some("no body".into());
    stored.tags = vec!["精华".into()];
    stored.views = Some(3);
    let mut listed = sample();
    listed.title = "新标题".into();
    listed.author_name = Some("作者".into());
    let merged = merge_article(&stored, &listed);
    assert_eq!(merged.parse_status, "missing_body");
    assert_eq!(merged.error.as_deref(), Some("no body"));
    assert_eq!(merged.title, "新标题");
    assert_eq!(merged.author_name.as_deref(), Some("作者"));
    assert_eq!(merged.views, Some(3));
    assert_eq!(merged.tags, vec!["精华".to_string()]);
    let again = merge_article(&merged, &listed);
    assert_eq!(again.parse_status, merged.parse_status);
    assert_eq!(again.error, merged.error);
    assert_eq!(again.tags, merged.tags);
}

#[test]
fn export_query_filters() {
    let all = export_query(false, false);
    assert!(!all.contains("WHERE"));
    assert!(all.ends_with("ORDER BY a.published_at DESC, s.source_rank ASC, a.article_id"));
    let run = export_query(true, true);
    assert!(run.contains("FROM tgb_article_sources WHERE run_id = ? GROUP BY article_id"));
    assert!(run.contains(" WHERE s.article_id IS NOT NULL AND a.parse_status = 'parsed' ORDER BY"));
    assert!(export_query(false, true).contains(" WHERE a.parse_status = 'parsed' ORDER BY"));
}
