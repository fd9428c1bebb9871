//! Rules of the article store: how a new record of an article is merged with
//! the stored one, and which query selects articles for export.

use vstd::prelude::*;

use crate::model::{clone_opt_string, clone_strings, status_metadata, status_parsed, Article, ArticleView};
use crate::text::{push_str, str_eq, string_from_chars};

verus! {

/// The new value when there is one, else the old.
pub open spec fn coalesce<T>(new: Option<T>, old: Option<T>) -> Option<T> {
    if new is Some {
        new
    } else {
        old
    }
}

/// A stored parsed body meets a record that is not parsed.
pub open spec fn keeps_parsed(old: ArticleView, new: ArticleView) -> bool {
    old.parse_status == status_parsed() && new.parse_status != status_parsed()
}

/// The stored article after recording `new` over `old`: title and address
/// are replaced; other known values replace stored ones but absent values
/// never erase them; a parsed article keeps its status, HTTP status, error
/// and fetch time against any record that is not parsed; a metadata-only
/// record keeps the stored status and error; tags are replaced only by a
/// non-empty list.
pub open spec fn merged(old: ArticleView, new: ArticleView) -> ArticleView {
    let keep = keeps_parsed(old, new);
    ArticleView {
        article_id: new.article_id,
        title: new.title,
        author_id: coalesce(new.author_id, old.author_id),
        author_name: coalesce(new.author_name, old.author_name),
        url: new.url,
        published_at: coalesce(new.published_at, old.published_at),
        published_raw: coalesce(new.published_raw, old.published_raw),
        source: new.source,
        source_rank: new.source_rank,
        body_text: coalesce(new.body_text, old.body_text),
        content_hash: coalesce(new.content_hash, old.content_hash),
        parse_status: if keep {
            old.parse_status
        } else if new.parse_status == status_metadata() && old.parse_status != status_metadata() {
            old.parse_status
        } else {
            new.parse_status
        },
        http_status: if keep {
            old.http_status
        } else {
            coalesce(new.http_status, old.http_status)
        },
        error: if keep {
            old.error
        } else if new.parse_status == status_metadata() {
            old.error
        } else {
            new.error
        },
        fetched_at: if keep {
            old.fetched_at
        } else {
            coalesce(new.fetched_at, old.fetched_at)
        },
        raw_html_path: coalesce(new.raw_html_path, old.raw_html_path),
        views: coalesce(new.views, old.views),
        replies: coalesce(new.replies, old.replies),
        tags: if new.tags.len() == 0 {
            old.tags
        } else {
            new.tags
        },
    }
}

fn pick_string(new: &Option<String>, old: &Option<String>) -> (r: Option<String>)
    ensures
        r.deep_view() == coalesce(new.deep_view(), old.deep_view()),
{
    if new.is_some() {
        clone_opt_string(new)
    } else {
        clone_opt_string(old)
    }
}

fn pick_i64(new: Option<i64>, old: Option<i64>) -> (r: Option<i64>)
    ensures
        r == coalesce(new, old),
{
    if new.is_some() {
        new
    } else {
        old
    }
}

/// Merges a new record of an article into the stored one.
pub fn merge_article(old: &Article, new: &Article) -> (r: Article)
    ensures
        r@ == merged(old@, new@),
{
    let old_parsed = str_eq(old.parse_status.as_str(), "parsed");
    let new_parsed = str_eq(new.parse_status.as_str(), "parsed");
    let old_meta = str_eq(old.parse_status.as_str(), "metadata");
    let new_meta = str_eq(new.parse_status.as_str(), "metadata");
    let keep = old_parsed && !new_parsed;
    let parse_status = if keep || (new_meta && !old_meta) {
        old.parse_status.clone()
    } else {
        new.parse_status.clone()
    };
    let http_status = if keep || new.http_status.is_none() {
        old.http_status
    } else {
        new.http_status
    };
    let error = if keep || new_meta {
        clone_opt_string(&old.error)
    } else {
        clone_opt_string(&new.error)
    };
    let fetched_at = if keep {
        clone_opt_string(&old.fetched_at)
    } else {
        pick_string(&new.fetched_at, &old.fetched_at)
    };
    let tags = if new.tags.len() == 0 {
        clone_strings(&old.tags)
    } else {
        clone_strings(&new.tags)
    };
    Article {
        article_id: new.article_id.clone(),
        title: new.title.clone(),
        author_id: pick_string(&new.author_id, &old.author_id),
        author_name: pick_string(&new.author_name, &old.author_name),
        url: new.url.clone(),
        published_at: pick_string(&new.published_at, &old.published_at),
        published_raw: pick_string(&new.published_raw, &old.published_raw),
        source: new.source.clone(),
        source_rank: new.source_rank,
        body_text: pick_string(&new.body_text, &old.body_text),
        content_hash: pick_string(&new.content_hash, &old.content_hash),
        parse_status,
        http_status,
        error,
        fetched_at,
        raw_html_path: pick_string(&new.raw_html_path, &old.raw_html_path),
        views: pick_i64(new.views, old.views),
        replies: pick_i64(new.replies, old.replies),
        tags,
    }
}

/// A parsed article is never downgraded: against a later record that is
/// not parsed, its status, HTTP status, error and fetch time stay, and its
/// body stays unless the record brings one.
pub proof fn lemma_parsed_never_downgraded(old: ArticleView, new: ArticleView)
    requires
        old.parse_status == status_parsed(),
        new.parse_status != status_parsed(),
    ensures
        merged(old, new).parse_status == status_parsed(),
        merged(old, new).http_status == old.http_status,
        merged(old, new).error == old.error,
        merged(old, new).fetched_at == old.fetched_at,
        new.body_text is None ==> merged(old, new).body_text == old.body_text,
        new.content_hash is None ==> merged(old, new).content_hash == old.content_hash,
{
}

/// A metadata-only record changes neither the stored status nor the stored
/// error.
pub proof fn lemma_metadata_keeps_status(old: ArticleView, new: ArticleView)
    requires
        new.parse_status == status_metadata(),
    ensures
        merged(old, new).parse_status == old.parse_status,
        merged(old, new).error == old.error,
{
}

/// A parsed record is stored as parsed, with its own error.
pub proof fn lemma_new_parse_wins(old: ArticleView, new: ArticleView)
    requires
        new.parse_status == status_parsed(),
    ensures
        merged(old, new).parse_status == status_parsed(),
        merged(old, new).error == new.error,
        merged(old, new).body_text == coalesce(new.body_text, old.body_text),
{
    reveal_strlit("parsed");
    reveal_strlit("metadata");
    assert(status_parsed().len() != status_metadata().len());
}

/// Recording the same record twice in a row stores what recording it once
/// stores.
pub proof fn lemma_record_idempotent(old: ArticleView, new: ArticleView)
    ensures
        merged(merged(old, new), new) == merged(old, new),
{
}

/// Known values are never erased: whatever the stored article held for an
/// optional field stays when the record leaves the field absent.
pub proof fn lemma_absent_never_erases(old: ArticleView, new: ArticleView)
    ensures
        new.author_id is None ==> merged(old, new).author_id == old.author_id,
        new.author_name is None ==> merged(old, new).author_name == old.author_name,
        new.published_at is None ==> merged(old, new).published_at == old.published_at,
        new.body_text is None ==> merged(old, new).body_text == old.body_text,
        new.views is None ==> merged(old, new).views == old.views,
        new.tags.len() == 0 ==> merged(old, new).tags == old.tags,
{
}

/// Known values win: title and address always come from the new record, and
/// every optional value that the record brings replaces the stored one, as
/// does a non-empty tag list; status, HTTP status, error and fetch time
/// follow the record unless a parsed article meets a record that is not.
pub proof fn lemma_known_values_win(old: ArticleView, new: ArticleView)
    ensures
        merged(old, new).article_id == new.article_id,
        merged(old, new).title == new.title,
        merged(old, new).url == new.url,
        merged(old, new).source == new.source,
        merged(old, new).source_rank == new.source_rank,
        new.author_id is Some ==> merged(old, new).author_id == new.author_id,
        new.author_name is Some ==> merged(old, new).author_name == new.author_name,
        new.published_at is Some ==> merged(old, new).published_at == new.published_at,
        new.published_raw is Some ==> merged(old, new).published_raw == new.published_raw,
        new.body_text is Some ==> merged(old, new).body_text == new.body_text,
        new.content_hash is Some ==> merged(old, new).content_hash == new.content_hash,
        new.raw_html_path is Some ==> merged(old, new).raw_html_path == new.raw_html_path,
        new.views is Some ==> merged(old, new).views == new.views,
        new.replies is Some ==> merged(old, new).replies == new.replies,
        new.tags.len() > 0 ==> merged(old, new).tags == new.tags,
        !keeps_parsed(old, new) && new.http_status is Some ==> merged(old, new).http_status == new.http_status,
        !keeps_parsed(old, new) && new.fetched_at is Some ==> merged(old, new).fetched_at == new.fetched_at,
        !keeps_parsed(old, new) && new.parse_status != status_metadata() ==> merged(old, new).parse_status == new.parse_status
            && merged(old, new).error == new.error,
{
}

/// The query that selects articles for export: each article with the
/// smallest source and rank it was found with (in the given run only, when
/// `by_run`), only parsed ones when `only_success`, newest first.
pub open spec fn export_query_spec(by_run: bool, only_success: bool) -> Seq<char> {
    "SELECT a.article_id, a.title, a.author_id, a.author_name, a.url, a.published_at, a.published_raw, COALESCE(s.source, 'stored') AS source, s.source_rank, a.body_text, a.content_hash, a.parse_status, a.http_status, a.error, a.fetched_at, a.raw_html_path, a.views, a.replies, a.tags_json FROM tgb_articles a LEFT JOIN (SELECT article_id, MIN(source) AS source, MIN(source_rank) AS source_rank FROM tgb_article_sources"@
        + (if by_run { " WHERE run_id = ?"@ } else { seq![] })
        + " GROUP BY article_id) s ON s.article_id = a.article_id"@
        + (if by_run && only_success {
            " WHERE s.article_id IS NOT NULL AND a.parse_status = 'parsed'"@
        } else if by_run {
            " WHERE s.article_id IS NOT NULL"@
        } else if only_success {
            " WHERE a.parse_status = 'parsed'"@
        } else {
            seq![]
        })
        + " ORDER BY a.published_at DESC, s.source_rank ASC, a.article_id"@
}

/// The export query for the given filters.
pub fn export_query(by_run: bool, only_success: bool) -> (r: String)
    ensures
        r@ == export_query_spec(by_run, only_success),
{
    let mut q: Vec<char> = Vec::new();
    push_str(&mut q, "SELECT a.article_id, a.title, a.author_id, a.author_name, a.url, a.published_at, a.published_raw, COALESCE(s.source, 'stored') AS source, s.source_rank, a.body_text, a.content_hash, a.parse_status, a.http_status, a.error, a.fetched_at, a.raw_html_path, a.views, a.replies, a.tags_json FROM tgb_articles a LEFT JOIN (SELECT article_id, MIN(source) AS source, MIN(source_rank) AS source_rank FROM tgb_article_sources");
    if by_run {
        push_str(&mut q, " WHERE run_id = ?");
    }
    push_str(&mut q, " GROUP BY article_id) s ON s.article_id = a.article_id");
    if by_run && only_success {
        push_str(&mut q, " WHERE s.article_id IS NOT NULL AND a.parse_status = 'parsed'");
    } else if by_run {
        push_str(&mut q, " WHERE s.article_id IS NOT NULL");
    } else if only_success {
        push_str(&mut q, " WHERE a.parse_status = 'parsed'");
    }
    push_str(&mut q, " ORDER BY a.published_at DESC, s.source_rank ASC, a.article_id");
    assert(q@ =~= export_query_spec(by_run, only_success));
    string_from_chars(&q)
}

} // verus!
