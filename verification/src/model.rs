//! The records that a crawl produces: articles, run statistics, runs and
//! recorded errors.

use vstd::prelude::*;

use crate::datetime::{is_utc_rfc3339, now_utc_rfc3339};
use crate::text::str_eq;

verus! {

/// An article as discovered on a list page and, later, fetched and parsed.
#[derive(Debug)]
pub struct Article {
    pub article_id: String,
    pub title: String,
    pub author_id: Option<String>,
    pub author_name: Option<String>,
    pub url: String,
    pub published_at: Option<String>,
    pub published_raw: Option<String>,
    pub source: String,
    pub source_rank: Option<i64>,
    pub body_text: Option<String>,
    pub content_hash: Option<String>,
    pub parse_status: String,
    pub http_status: Option<u16>,
    pub error: Option<String>,
    pub fetched_at: Option<String>,
    pub raw_html_path: Option<String>,
    pub views: Option<i64>,
    pub replies: Option<i64>,
    pub tags: Vec<String>,
}

/// The plain content of an `Article`.
pub struct ArticleView {
    pub article_id: Seq<char>,
    pub title: Seq<char>,
    pub author_id: Option<Seq<char>>,
    pub author_name: Option<Seq<char>>,
    pub url: Seq<char>,
    pub published_at: Option<Seq<char>>,
    pub published_raw: Option<Seq<char>>,
    pub source: Seq<char>,
    pub source_rank: Option<i64>,
    pub body_text: Option<Seq<char>>,
    pub content_hash: Option<Seq<char>>,
    pub parse_status: Seq<char>,
    pub http_status: Option<u16>,
    pub error: Option<Seq<char>>,
    pub fetched_at: Option<Seq<char>>,
    pub raw_html_path: Option<Seq<char>>,
    pub views: Option<i64>,
    pub replies: Option<i64>,
    pub tags: Seq<Seq<char>>,
}

impl View for Article {
    type V = ArticleView;

    open spec fn view(&self) -> ArticleView {
        ArticleView {
            article_id: self.article_id@,
            title: self.title@,
            author_id: self.author_id.deep_view(),
            author_name: self.author_name.deep_view(),
            url: self.url@,
            published_at: self.published_at.deep_view(),
            published_raw: self.published_raw.deep_view(),
            source: self.source@,
            source_rank: self.source_rank,
            body_text: self.body_text.deep_view(),
            content_hash: self.content_hash.deep_view(),
            parse_status: self.parse_status@,
            http_status: self.http_status,
            error: self.error.deep_view(),
            fetched_at: self.fetched_at.deep_view(),
            raw_html_path: self.raw_html_path.deep_view(),
            views: self.views,
            replies: self.replies,
            tags: self.tags.deep_view(),
        }
    }
}

/// The views of a list of articles.
pub open spec fn articles_view(v: Seq<Article>) -> Seq<ArticleView> {
    v.map_values(|a: Article| a@)
}

/// A copy of an optional string.
pub fn clone_opt_string(o: &Option<String>) -> (r: Option<String>)
    ensures
        r.deep_view() == o.deep_view(),
{
    match o {
        Some(s) => Some(s.clone()),
        None => None,
    }
}

/// A copy of a list of strings.
pub fn clone_strings(v: &Vec<String>) -> (r: Vec<String>)
    ensures
        r.deep_view() == v.deep_view(),
{
    let mut out: Vec<String> = Vec::new();
    let mut i: usize = 0;
    while i < v.len()
        invariant
            i <= v.len(),
            out.len() == i,
            forall|k: int| 0 <= k < i ==> (#[trigger] out@[k])@ == v@[k]@,
        decreases v.len() - i,
    {
        let c = v[i].clone();
        out.push(c);
        i = i + 1;
    }
    assert(out.deep_view() =~= v.deep_view());
    out
}

/// The parse status of an article whose body was parsed.
pub open spec fn status_parsed() -> Seq<char> {
    "parsed"@
}

/// The parse status of an article known only from a list page.
pub open spec fn status_metadata() -> Seq<char> {
    "metadata"@
}

/// The parse status of an article whose page could not be fetched.
pub open spec fn status_fetch_error() -> Seq<char> {
    "fetch_error"@
}

impl Article {
    /// A copy of the article.
    pub fn copy(&self) -> (r: Article)
        ensures
            r@ == self@,
    {
        Article {
            article_id: self.article_id.clone(),
            title: self.title.clone(),
            author_id: clone_opt_string(&self.author_id),
            author_name: clone_opt_string(&self.author_name),
            url: self.url.clone(),
            published_at: clone_opt_string(&self.published_at),
            published_raw: clone_opt_string(&self.published_raw),
            source: self.source.clone(),
            source_rank: self.source_rank,
            body_text: clone_opt_string(&self.body_text),
            content_hash: clone_opt_string(&self.content_hash),
            parse_status: self.parse_status.clone(),
            http_status: self.http_status,
            error: clone_opt_string(&self.error),
            fetched_at: clone_opt_string(&self.fetched_at),
            raw_html_path: clone_opt_string(&self.raw_html_path),
            views: self.views,
            replies: self.replies,
            tags: clone_strings(&self.tags),
        }
    }

    /// An article known from a list page only: identity, title, address and
    /// source, status `metadata`, and nothing else.
    pub fn metadata(article_id: String, title: String, url: String, source: &str) -> (r: Article)
        ensures
            r@ == (ArticleView {
                article_id: article_id@,
                title: title@,
                author_id: None,
                author_name: None,
                url: url@,
                published_at: None,
                published_raw: None,
                source: source@,
                source_rank: None,
                body_text: None,
                content_hash: None,
                parse_status: status_metadata(),
                http_status: None,
                error: None,
                fetched_at: None,
                raw_html_path: None,
                views: None,
                replies: None,
                tags: seq![],
            }),
    {
        let r = Article {
            article_id,
            title,
            author_id: None,
            author_name: None,
            url,
            published_at: None,
            published_raw: None,
            source: source.to_owned(),
            source_rank: None,
            body_text: None,
            content_hash: None,
            parse_status: "metadata".to_owned(),
            http_status: None,
            error: None,
            fetched_at: None,
            raw_html_path: None,
            views: None,
            replies: None,
            tags: Vec::new(),
        };
        assert(r.tags.deep_view() =~= Seq::<Seq<char>>::empty());
        r
    }

    /// Records that the article's page could not be fetched: status
    /// `fetch_error`, the message as error, and the current time in UTC, as
    /// RFC 3339 text, as fetch time; everything else stays.
    pub fn mark_fetch_error(&mut self, message: &str)
        ensures
            final(self)@ == (ArticleView {
                parse_status: status_fetch_error(),
                error: Some(message@),
                fetched_at: final(self)@.fetched_at,
                ..old(self)@
            }),
            final(self).fetched_at matches Some(t) && is_utc_rfc3339(t@),
    {
        self.parse_status = "fetch_error".to_owned();
        self.error = Some(message.to_owned());
        self.fetched_at = Some(now_utc_rfc3339());
    }

    /// Whether the article's body was parsed.
    pub fn body_succeeded(&self) -> (r: bool)
        ensures
            r == (self.parse_status@ == status_parsed()),
    {
        str_eq(self.parse_status.as_str(), "parsed")
    }
}

/// Counters of one crawl run.
#[derive(Debug, Clone, Copy, PartialEq, Eq, Structural)]
pub struct RunStats {
    pub requested_pages: i64,
    pub list_pages_fetched: i64,
    pub discovered_count: i64,
    pub body_attempted_count: i64,
    pub body_fetched_count: i64,
    pub parsed_count: i64,
    pub failed_count: i64,
}

impl Default for RunStats {
    fn default() -> (r: RunStats)
        ensures
            r == (RunStats {
                requested_pages: 0,
                list_pages_fetched: 0,
                discovered_count: 0,
                body_attempted_count: 0,
                body_fetched_count: 0,
                parsed_count: 0,
                failed_count: 0,
            }),
    {
        RunStats {
            requested_pages: 0,
            list_pages_fetched: 0,
            discovered_count: 0,
            body_attempted_count: 0,
            body_fetched_count: 0,
            parsed_count: 0,
            failed_count: 0,
        }
    }
}

/// A stored crawl run.
#[derive(Debug)]
pub struct CrawlRun {
    pub id: i64,
    pub command: String,
    pub status: String,
    pub started_at: String,
    pub finished_at: Option<String>,
    pub options_json: String,
    pub stats: RunStats,
}

/// A stored error of a crawl run.
#[derive(Debug)]
pub struct CrawlError {
    pub stage: String,
    pub target: String,
    pub message: String,
    pub http_status: Option<i64>,
    pub created_at: String,
}

} // verus!
