use tgb_cli::datetime::parse_datetime;
use tgb_cli::listing::{parse_blog_list, parse_hot_list};
use tgb_cli::parser::{
    article_id_from_url, content_hash, extract_article_body, extract_article_metadata,
    normalize_article_target, normalize_author_id, ParseErrorKind,
};

#[test]
fn parses_hot_list_and_resolves_cross_year_dates() {
    let html = r#"
    <div class="Nbbs-tiezi-lists">
      <div class="left middle-list-post">12-31 23:50</div>
      <a href="/a/abc123" title="跨年文章">跨年文章</a>
      <div class="left middle-list-user cblue cursor overhide">作者甲</div>
    </div>"#;
    let from = parse_datetime("2025-12-31 00:00").unwrap();
    let to = parse_datetime("2026-01-01 12:00").unwrap();
    let articles = parse_hot_list(html, "https://www.tgb.cn/dianzan/1-1", from, to, 1).unwrap();
    assert_eq!(articles.len(), 1);
    assert_eq!(articles[0].article_id, "abc123");
    assert!(
        articles[0]
            .published_at
            .as_deref()
            .unwrap()
            .starts_with("2025-12-31")
    );
}

#[test]
fn hot_list_entries_outside_range_are_dropped_and_ranked_by_position() {
    let html = r#"
    <div class="Nbbs-tiezi-lists">
      <div class="left middle-list-post">03-01 10:00</div>
      <a href="/a/out" title="范围外">范围外</a>
    </div>
    <div class="Nbbs-tiezi-lists">
      <div class="left middle-list-post">2026-07-27 09:30</div>
      <a href="/a/in1">  站内   标题 </a>
      <div class="left middle-list-user cblue cursor overhide">  大V   甲 </div>
    </div>
    <div class="Nbbs-tiezi-lists">
      <div class="left middle-list-post">07-27 10:00</div>
      <a href="/a/in2" title="第二篇">x</a>
    </div>"#;
    let from = parse_datetime("2026-07-27 00:00").unwrap();
    let to = parse_datetime("2026-07-27 23:59").unwrap();
    let articles = parse_hot_list(html, "https://www.tgb.cn/dianzan/2-1", from, to, 2).unwrap();
    assert_eq!(articles.len(), 2);
    assert_eq!(articles[0].article_id, "in1");
    assert_eq!(articles[0].title, "站内 标题");
    assert_eq!(articles[0].author_name.as_deref(), Some("大V 甲"));
    assert_eq!(articles[0].source_rank, Some(102));
    assert_eq!(articles[0].published_at.as_deref(), Some("2026-07-27T09:30:00+08:00"));
    assert_eq!(articles[1].title, "第二篇");
    assert_eq!(articles[1].source_rank, Some(103));
    assert_eq!(articles[1].source, "hot");
    assert_eq!(articles[1].url, "https://www.tgb.cn/a/in2");
}

#[test]
fn hot_list_rejects_an_invalid_list_address() {
    let from = parse_datetime("2026-07-27 00:00").unwrap();
    let to = parse_datetime("2026-07-27 23:59").unwrap();
    let err = parse_hot_list("<div></div>", "not a url", from, to, 1).unwrap_err();
    assert_eq!(err.kind, ParseErrorKind::InvalidListUrl);
    assert_eq!(err.message(), "invalid list URL: not a url");
}

#[test]
fn article_body_keeps_paragraphs_and_drops_script() {
    let html = r#"
    <div class="article-text p_coten">
      <p>第一段正文，有完整语义。</p>
      <p>第二段正文，继续说明观点。</p>
      <script>window.bad = "不应出现";</script>
    </div>"#;
    let (body, selector) = extract_article_body(html).unwrap();
    assert_eq!(selector, "article-text.p_coten");
    assert!(body.contains("第一段正文"));
    assert!(body.contains('\n'));
    assert!(!body.contains("window.bad"));
}

#[test]
fn body_parser_does_not_accept_arbitrary_large_div() {
    let html = format!("<div>{}</div>", "页面导航和推荐".repeat(100));
    assert!(extract_article_body(&html).is_err());
}

#[test]
fn body_text_drops_repeated_lines_and_uses_later_containers() {
    let html = "<div class=\"stock_detail\"><p>同一行</p><p>同一行</p><p> 另 一行 </p></div>";
    let (body, label) = extract_article_body(html).unwrap();
    assert_eq!(label, "stock_detail");
    assert_eq!(body, "同一行\n另 一行");
    let err = extract_article_body("<p>nothing</p>").unwrap_err();
    assert_eq!(err.kind, ParseErrorKind::NoBodyContainer);
    assert_eq!(err.message(), "no supported article body container found");
}

#[test]
fn parses_blog_metadata_and_tags() {
    let html = r#"
    <div class="article_tittle">
      <a href="a/post1" title="精选文章">精选文章</a>
      <div class="tittle_llhf">12345阅读/678回复</div>
      <div class="tittle_fbshijian">2026-07-26</div>
      <span class="tittle_jinghua">精华</span>
    </div>"#;
    let articles =
        parse_blog_list(html, "https://www.tgb.cn", "4223", Some("职业炒手"), 1).unwrap();
    assert_eq!(articles.len(), 1);
    assert_eq!(articles[0].views, Some(12345));
    assert_eq!(articles[0].replies, Some(678));
    assert!(articles[0].tags.contains(&"精华".to_string()));
}

#[test]
fn blog_entries_carry_author_date_and_all_markers() {
    let html = r#"
    <div class="article_tittle"><span>no link</span></div>
    <div class="article_tittle">
      <a href="/a/p2">第二篇</a>
      <div class="tittle_llhf">99999999999999999999阅读/5回复/7</div>
      <div class="tittle_fbshijian">2026-07-26 08:15</div>
      <span class="tittle_zhiding">置顶</span>
      <span class="tittle_yuanchuang">原创</span>
      <span class="tittle_jinghua">精华</span>
    </div>"#;
    let articles = parse_blog_list(html, "https://www.tgb.cn", "134434", None, 3).unwrap();
    assert_eq!(articles.len(), 1);
    let a = &articles[0];
    assert_eq!(a.article_id, "p2");
    assert_eq!(a.author_id.as_deref(), Some("134434"));
    assert_eq!(a.author_name, None);
    assert_eq!(a.source, "author");
    assert_eq!(a.source_rank, Some(202));
    assert_eq!(a.views, Some(5));
    assert_eq!(a.replies, Some(7));
    assert_eq!(a.tags, vec!["精华".to_string(), "置顶".to_string(), "原创".to_string()]);
    assert_eq!(a.published_raw.as_deref(), Some("2026-07-26 08:15"));
    assert_eq!(a.published_at.as_deref(), Some("2026-07-26T08:15:00+08:00"));
}

#[test]
fn blog_date_without_time_is_midnight_in_shanghai() {
    let html = r#"<div class="article_tittle"><a href="/a/p">t</a>
      <div class="tittle_fbshijian">2026-07-26</div></div>"#;
    let articles = parse_blog_list(html, "https://www.tgb.cn", "1", None, 1).unwrap();
    assert_eq!(articles[0].published_at.as_deref(), Some("2026-07-26T00:00:00+08:00"));
}

#[test]
fn article_ids_come_from_the_a_segment() {
    assert_eq!(article_id_from_url("https://www.tgb.cn/a/2rjdXpk0pCK").as_deref(), Some("2rjdXpk0pCK"));
    assert_eq!(article_id_from_url("https://www.tgb.cn/x/a/b/c").as_deref(), Some("b"));
    assert_eq!(article_id_from_url("https://www.tgb.cn/a/"), None);
    assert_eq!(article_id_from_url("not a url"), None);
}

#[test]
fn article_targets_accept_ids_and_addresses() {
    let (id, url) = normalize_article_target("https://www.tgb.cn", " /2rjdXpk0pCK/ ").unwrap();
    assert_eq!(id, "2rjdXpk0pCK");
    assert_eq!(url, "https://www.tgb.cn/a/2rjdXpk0pCK");
    let (id, url) = normalize_article_target("https://x", "https://www.tgb.cn/a/abc?x=1").unwrap();
    assert_eq!(id, "abc");
    assert_eq!(url, "https://www.tgb.cn/a/abc?x=1");
    let e = normalize_article_target("https://www.tgb.cn", "https://www.tgb.cn/blog/1").unwrap_err();
    assert_eq!(e.kind, ParseErrorKind::ArticleUrlWithoutId);
    let e = normalize_article_target("https://www.tgb.cn", "a/b").unwrap_err();
    assert_eq!(e.kind, ParseErrorKind::InvalidArticleId);
    assert_eq!(e.message(), "invalid article ID: a/b");
    let e = normalize_article_target("https://www.tgb.cn", " // ").unwrap_err();
    assert_eq!(e.kind, ParseErrorKind::InvalidArticleId);
    let e = normalize_article_target("nope", "abc").unwrap_err();
    assert_eq!(e.kind, ParseErrorKind::BaseUrlUnparsable);
    let e = normalize_article_target("mailto:x@y", "abc").unwrap_err();
    assert_eq!(e.kind, ParseErrorKind::UrlJoin);
}

#[test]
fn author_ids_come_from_numbers_or_blog_addresses() {
    assert_eq!(normalize_author_id(" 134434 ").unwrap(), "134434");
    assert_eq!(normalize_author_id("https://www.tgb.cn/blog/4223").unwrap(), "4223");
    let e = normalize_author_id("https://www.tgb.cn/blog/").unwrap_err();
    assert_eq!(e.kind, ParseErrorKind::BlogUrlWithoutId);
    assert_eq!(normalize_author_id("炒股养家").unwrap_err().kind, ParseErrorKind::AuthorNotIdOrUrl);
    assert_eq!(normalize_author_id("mailto:a@b").unwrap_err().kind, ParseErrorKind::InvalidBlogUrl);
    let e = normalize_author_id("https://www.tgb.cn/user/4223").unwrap_err();
    assert_eq!(e.kind, ParseErrorKind::BlogUrlWithoutId);
    assert_eq!(e.message(), "blog URL must contain /blog/<numeric-id>");
}

#[test]
fn article_metadata_prefers_content_then_text() {
    let html = r#"<html><head><meta property="og:title" content="  元 标题 "><title>页标题</title>
      <meta name="author" content=""></head><body><h1>  </h1><span class="p_author">作者乙</span></body></html>"#;
    let (title, author) = extract_article_metadata(html);
    assert_eq!(title.as_deref(), Some("元 标题"));
    assert_eq!(author.as_deref(), Some("作者乙"));
    let (title, author) = extract_article_metadata("<p>x</p>");
    assert_eq!(title, None);
    assert_eq!(author, None);
}

#[test]
fn content_hash_is_lowercase_sha256_hex() {
    assert_eq!(
        content_hash("abc"),
        "ba7816bf8f01cfea414140de5dae2223b00361a396177a9cb410ff61f20015ad"
    );
    assert_eq!(content_hash("").len(), 64);
}
