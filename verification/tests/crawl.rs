use tgb_cli::client::{
    backoff_ms, check_max_attempts, is_transient_status, next_action, retry_due, Attempt,
    RetryAction,
};
use tgb_cli::crawl::{
    article_run_outcome, author_list_path, author_page_step, body_result_step, has_room_for_body,
    has_room_for_page, hot_list_path, hot_page_step, join_base, plan_vip, raw_file_name,
    run_status, select_unseen, select_vip, sort_by_rank, validate_common, ArgError, ListPage,
    RunStatus,
};
use tgb_cli::model::{Article, RunStats};

fn art(id: &str, rank: Option<i64>, tags: &[&str]) -> Article {
    let mut a = Article::metadata(id.into(), id.into(), format!("https://www.tgb.cn/a/{id}"), "author");
    a.source_rank = rank;
    a.tags = tags.iter().map(|t| t.to_string()).collect();
    a
}

#[test]
fn transient_statuses_are_classified_conservatively() {
    assert!(is_transient_status(reqwest::StatusCode::TOO_MANY_REQUESTS.as_u16()));
    assert!(is_transient_status(reqwest::StatusCode::INTERNAL_SERVER_ERROR.as_u16()));
    assert!(!is_transient_status(reqwest::StatusCode::NOT_FOUND.as_u16()));
    assert!(!is_transient_status(reqwest::StatusCode::FORBIDDEN.as_u16()));
}

#[test]
fn retries_back_off_and_stop_at_the_last_attempt() {
    assert_eq!(backoff_ms(1), 500);
    assert_eq!(backoff_ms(3), 2000);
    assert_eq!(backoff_ms(64), u64::MAX);
    let busy = Attempt::Response { status: 503, final_url: "https://x/a".into() };
    match next_action("https://x/a", 2, 3, &busy) {
        RetryAction::Retry { message, backoff_ms } => {
            assert_eq!(message, "HTTP 503 from https://x/a");
            assert_eq!(backoff_ms, 1000);
        }
        other => panic!("unexpected {other:?}"),
    }
    assert!(matches!(next_action("https://x/a", 3, 3, &busy), RetryAction::Fail(_)));
    let missing = Attempt::Response { status: 404, final_url: "https://x/b".into() };
    assert!(matches!(next_action("https://x/b", 1, 3, &missing), RetryAction::Fail(m) if m == "HTTP 404 from https://x/b"));
    let ok = Attempt::Response { status: 200, final_url: "https://x/c".into() };
    assert!(matches!(next_action("https://x/c", 1, 1, &ok), RetryAction::Deliver));
    let down = Attempt::RequestFailed { retryable: true, detail: "timeout".into() };
    assert!(matches!(next_action("u", 1, 2, &down), RetryAction::Retry { .. }));
    let bad = Attempt::RequestFailed { retryable: false, detail: "bad".into() };
    assert!(matches!(next_action("u", 1, 2, &bad), RetryAction::Fail(m) if m == "request failed for u: bad"));
    assert!(retry_due(&busy) && retry_due(&down));
    assert!(!retry_due(&missing) && !retry_due(&ok) && !retry_due(&bad));
    assert!(check_max_attempts(0).is_err());
    assert!(check_max_attempts(1).is_ok());
}

#[test]
fn arguments_and_paths() {
    assert_eq!(validate_common(0, 0), Err(ArgError::ZeroPages));
    assert_eq!(validate_common(1, 0), Err(ArgError::ZeroConcurrency));
    assert_eq!(validate_common(1, 1), Ok(()));
    assert_eq!(ArgError::ZeroPages.message(), "--pages must be at least 1");
    assert_eq!(hot_list_path(3), "/dianzan/3-1");
    assert_eq!(author_list_path("4223", 1), "/blog/4223");
    assert_eq!(author_list_path("4223", 2), "/blog/4223?page=2");
    assert_eq!(join_base("https://www.tgb.cn", "/dianzan/1-1").unwrap(), "https://www.tgb.cn/dianzan/1-1");
    assert_eq!(join_base("nope", "/x").unwrap_err(), "invalid --base-url");
    assert_eq!(raw_file_name("author-4223-page-1"), "author-4223-page-1.html");
    assert_eq!(raw_file_name("a/b c.文"), "a_b_c__.html");
}

#[test]
fn run_status_follows_failures() {
    let mut s = RunStats::default();
    assert_eq!(run_status(&s), RunStatus::Success);
    s.failed_count = 1;
    assert_eq!(run_status(&s), RunStatus::Failed);
    s.discovered_count = 2;
    assert_eq!(run_status(&s), RunStatus::Partial);
    s.body_attempted_count = 2;
    assert_eq!(run_status(&s), RunStatus::Failed);
    s.parsed_count = 1;
    assert_eq!(run_status(&s).as_str(), "partial");
}

#[test]
fn list_pages_count_and_deduplicate() {
    let mut stats = RunStats::default();
    let mut seen = Vec::new();
    let step = hot_page_step(&mut stats, &mut seen, ListPage::Parsed(vec![art("a", Some(1), &[]), art("a", Some(2), &[]), art("b", Some(3), &[])]), "u");
    assert_eq!(step.fresh.len(), 2);
    assert!(!step.stop && step.error.is_none());
    let step = hot_page_step(&mut stats, &mut seen, ListPage::Parsed(vec![art("b", Some(1), &[]), art("c", Some(2), &[])]), "u");
    assert_eq!(step.fresh.len(), 1);
    assert_eq!(step.fresh[0].article_id, "c");
    let step = hot_page_step(&mut stats, &mut seen, ListPage::ParseFailed { message: "bad".into(), http_status: 200 }, "u2");
    let e = step.error.unwrap();
    assert_eq!((e.stage.as_str(), e.target.as_str(), e.http_status), ("parse_list", "u2", Some(200)));
    let step = hot_page_step(&mut stats, &mut seen, ListPage::FetchFailed { message: "down".into() }, "u3");
    assert_eq!(step.error.unwrap().stage, "fetch_list");
    assert!(!step.stop);
    assert_eq!(stats.list_pages_fetched, 3);
    assert_eq!(stats.failed_count, 2);
    assert_eq!(seen, vec!["a".to_string(), "b".to_string(), "c".to_string()]);

    let mut stats = RunStats::default();
    let mut seen = Vec::new();
    let step = author_page_step(&mut stats, &mut seen, ListPage::Parsed(Vec::new()), "u");
    assert!(step.stop);
    let step = author_page_step(&mut stats, &mut seen, ListPage::FetchFailed { message: "x".into() }, "u");
    assert!(step.stop);
    assert_eq!(step.error.unwrap().stage, "fetch_author_list");
    assert_eq!(stats.list_pages_fetched, 1);
}

#[test]
fn unseen_articles_keep_their_order() {
    let mut seen = vec!["x".to_string()];
    let fresh = select_unseen(&mut seen, vec![art("x", None, &[]), art("y", None, &[]), art("y", None, &[])]);
    assert_eq!(fresh.len(), 1);
    assert_eq!(fresh[0].article_id, "y");
}

#[test]
fn vip_selection_prefers_marked_then_falls_back() {
    let found = vec![art("a", Some(1), &[]), art("b", Some(2), &["精华"]), art("c", Some(3), &["置顶"]), art("d", Some(4), &["原创"])];
    let chosen = select_vip(&found, 0);
    assert_eq!(chosen.iter().map(|a| a.article_id.as_str()).collect::<Vec<_>>(), vec!["b", "c"]);
    assert!(chosen.iter().all(|a| a.source == "vip"));
    let plain = vec![art("a", Some(1), &[]), art("b", Some(5), &[]), art("c", Some(2), &[]), art("d", None, &[])];
    let chosen = select_vip(&plain, 2);
    assert_eq!(chosen.iter().map(|a| a.article_id.as_str()).collect::<Vec<_>>(), vec!["a", "c"]);
    assert!(select_vip(&plain, 0).is_empty());
    assert_eq!(plan_vip(116, Some(5), 2).unwrap(), (5, 10));
    assert_eq!(plan_vip(116, None, 1).unwrap(), (116, 116));
    assert_eq!(plan_vip(0, None, 1).unwrap_err(), "authors file contains no authors");
}

#[test]
fn bodies_are_sorted_by_rank_stably() {
    let sorted = sort_by_rank(vec![art("c", Some(3), &[]), art("n", None, &[]), art("a", Some(1), &[]), art("b", Some(3), &[])]);
    assert_eq!(sorted.iter().map(|a| a.article_id.as_str()).collect::<Vec<_>>(), vec!["a", "c", "b", "n"]);
}

#[test]
fn body_results_are_counted() {
    let mut stats = RunStats::default();
    let mut ok = art("a", Some(1), &[]);
    ok.parse_status = "parsed".into();
    ok.http_status = Some(200);
    assert!(body_result_step(&mut stats, &ok).is_none());
    let mut bad = art("b", Some(2), &[]);
    bad.mark_fetch_error("down");
    let e = body_result_step(&mut stats, &bad).unwrap();
    assert_eq!((e.stage.as_str(), e.message.as_str(), e.http_status), ("parse_body", "down", None));
    assert_eq!((stats.body_fetched_count, stats.parsed_count, stats.failed_count), (1, 1, 1));
    let (s, e) = article_run_outcome(&bad);
    assert_eq!((s.requested_pages, s.discovered_count, s.failed_count, s.body_fetched_count), (1, 1, 1, 0));
    assert_eq!(e.unwrap().stage, "article");
    let (s, e) = article_run_outcome(&ok);
    assert_eq!((s.parsed_count, s.failed_count, s.body_fetched_count), (1, 0, 1));
    assert!(e.is_none());
}

#[test]
fn counters_at_their_limit_refuse_only_the_steps_that_raise_them() {
    let full_pages = RunStats { list_pages_fetched: i64::MAX, ..RunStats::default() };
    assert!(has_room_for_page(&full_pages, &ListPage::FetchFailed { message: "x".into() }));
    assert!(!has_room_for_page(&full_pages, &ListPage::Parsed(Vec::new())));
    assert!(!has_room_for_page(&full_pages, &ListPage::ParseFailed { message: "x".into(), http_status: 200 }));
    let full_failures = RunStats { failed_count: i64::MAX, ..RunStats::default() };
    assert!(has_room_for_page(&full_failures, &ListPage::Parsed(Vec::new())));
    assert!(!has_room_for_page(&full_failures, &ListPage::FetchFailed { message: "x".into() }));
    let mut parsed = art("a", Some(1), &[]);
    parsed.parse_status = "parsed".into();
    assert!(has_room_for_body(&full_failures, &parsed));
    let failed = art("b", Some(2), &[]);
    assert!(!has_room_for_body(&full_failures, &failed));
    let full_fetches = RunStats { body_fetched_count: i64::MAX, ..RunStats::default() };
    assert!(has_room_for_body(&full_fetches, &failed));
    parsed.http_status = Some(200);
    assert!(!has_room_for_body(&full_fetches, &parsed));
}
