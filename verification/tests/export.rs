use tgb_cli::cli::ExportFormat;
use tgb_cli::export::{render, render_markdown, render_text};
use tgb_cli::model::Article;

fn sample(id: &str, title: &str) -> Article {
    Article::metadata(id.into(), title.into(), format!("https://www.tgb.cn/a/{id}"), "hot")
}

#[test]
fn jsonl_keeps_one_complete_article_per_line() {
    let article = Article::metadata(
        "x".into(),
        "标题".into(),
        "https://www.tgb.cn/a/x".into(),
        "hot",
    );
    let output = String::from_utf8(render(&[article], ExportFormat::Jsonl).unwrap()).unwrap();
    assert_eq!(output.lines().count(), 1);
    assert!(output.contains("\"article_id\":\"x\""));
}

#[test]
fn jsonl_object_matches_serde_layout() {
    let mut article = sample("x", "标题");
    article.source_rank = Some(3);
    article.http_status = Some(200);
    article.tags = vec!["精华".into(), "a\"b".into()];
    article.body_text = Some("第一行\n第二行".into());
    let output = String::from_utf8(render(&[article], ExportFormat::Jsonl).unwrap()).unwrap();
    assert_eq!(
        output,
        "{\"article_id\":\"x\",\"title\":\"标题\",\"author_id\":null,\"author_name\":null,\
         \"url\":\"https://www.tgb.cn/a/x\",\"published_at\":null,\"published_raw\":null,\
         \"source\":\"hot\",\"source_rank\":3,\"body_text\":\"第一行\\n第二行\",\
         \"content_hash\":null,\"parse_status\":\"metadata\",\"http_status\":200,\"error\":null,\
         \"fetched_at\":null,\"raw_html_path\":null,\"views\":null,\"replies\":null,\
         \"tags\":[\"精华\",\"a\\\"b\"]}\n"
    );
}

#[test]
fn jsonl_has_one_line_per_article_even_with_multiline_bodies() {
    let mut a = sample("a", "一");
    a.body_text = Some("x\ny\nz".into());
    let b = sample("b", "二");
    let output = String::from_utf8(render(&[a, b], ExportFormat::Jsonl).unwrap()).unwrap();
    assert_eq!(output.matches('\n').count(), 2);
    assert_eq!(output.lines().count(), 2);
}

#[test]
fn jsonl_of_nothing_is_empty() {
    assert!(render(&[], ExportFormat::Jsonl).unwrap().is_empty());
}

#[test]
fn csv_has_a_header_and_one_record_per_article() {
    let mut a = sample("a", "一");
    a.tags = vec!["精华".into(), "置顶".into()];
    a.source_rank = Some(7);
    let b = sample("b", "二");
    let out = String::from_utf8(render(&[a, b], ExportFormat::Csv).unwrap()).unwrap();
    let mut lines = out.lines();
    assert_eq!(
        lines.next().unwrap(),
        "article_id,title,author_id,author_name,url,published_at,published_raw,source,source_rank,\
         body_text,content_hash,parse_status,http_status,error,fetched_at,raw_html_path,views,replies,tags"
    );
    assert_eq!(
        lines.next().unwrap(),
        "a,一,,,https://www.tgb.cn/a/a,,,hot,7,,,metadata,,,,,,,\"[\"\"精华\"\",\"\"置顶\"\"]\""
    );
    assert_eq!(lines.next().unwrap(), "b,二,,,https://www.tgb.cn/a/b,,,hot,,,,metadata,,,,,,,[]");
    assert!(lines.next().is_none());
    assert!(render(&[], ExportFormat::Csv).unwrap().is_empty());
}

#[test]
fn markdown_numbers_entries_and_falls_back_to_raw_time() {
    let mut a = sample("a", "标题一");
    a.author_name = Some("作者甲".into());
    a.published_raw = Some("07-27 09:30".into());
    a.body_text = Some("正文".into());
    let b = sample("b", "标题二");
    let out = render_markdown(&[a, b]);
    assert_eq!(
        out,
        "## 1. 标题一\n\n- 作者：作者甲\n- 时间：07-27 09:30\n- 来源：hot\n- 链接：https://www.tgb.cn/a/a\n- 解析状态：metadata\n\n正文\n\n\
         ## 2. 标题二\n\n- 作者：未知\n- 时间：未知\n- 来源：hot\n- 链接：https://www.tgb.cn/a/b\n- 解析状态：metadata\n\n"
    );
    let bytes = render(&[sample("c", "三")], ExportFormat::Markdown).unwrap();
    assert!(String::from_utf8(bytes).unwrap().starts_with("## 1. 三"));
}

#[test]
fn text_export_lists_title_author_link_and_body() {
    let mut a = sample("a", "标题");
    a.body_text = Some("正文".into());
    assert_eq!(render_text(&[a]), "《标题》 - 未知\nhttps://www.tgb.cn/a/a\n正文\n\n");
    let out = render(&[sample("b", "空")], ExportFormat::Text).unwrap();
    assert_eq!(String::from_utf8(out).unwrap(), "《空》 - 未知\nhttps://www.tgb.cn/a/b\n\n\n");
}

#[test]
fn jsonl_escapes_control_characters_as_serde_json_does() {
    let mut a = sample("c", "a\u{1}b\t\u{7f}\\");
    a.body_text = Some("\r\u{8}\u{c}\u{1f}".into());
    let output = String::from_utf8(render(&[a], ExportFormat::Jsonl).unwrap()).unwrap();
    assert!(output.contains("\"title\":\"a\\u0001b\\t\u{7f}\\\\\""));
    assert!(output.contains("\"body_text\":\"\\r\\b\\f\\u001f\""));
    assert_eq!(output.lines().count(), 1);
}
