//! Entries of list pages: the hot list, with its year-less dates resolved
//! against a time range, and author blog lists, with counters and tags.

use vstd::prelude::*;

use crate::datetime::{
    blog_date_spec, is_not_later, not_later, now_shanghai, parse_blog_date, parse_rfc3339,
    resolve_published_at_in_year, resolve_published_spec, rfc3339_parsed, FixedDateTime,
};
use crate::html::{regex_find_all, regex_found, row_view, rows_view, select_nested, strs_view, ElementView, ScrapedElement, nested_selection, opt_el};
use crate::model::{articles_view, Article, ArticleView};
use crate::numbers::{parse_i64, parse_i64_spec};
use crate::parser::{
    article_id_from_url, article_id_spec, error, error0, perr, url_is_valid, url_join, url_joined,
    url_parses, ParseError, ParseErrorKind,
};
use crate::text::{chars_of, clean_fragments, clean_inline, clean_inline_chars, join, join_strings, string_from_chars};

verus! {

/// Entry `k` of a row; no entry counts as no element.
pub open spec fn row_at(row: Seq<Option<ElementView>>, k: int) -> Option<ElementView> {
    if 0 <= k < row.len() {
        row[k]
    } else {
        None
    }
}

/// An element's text nodes joined by spaces, in inline normal form.
pub open spec fn inline_text(e: ElementView) -> Seq<char> {
    clean_inline(join(e.texts, seq![' ']))
}

/// A link's title: its `title` attribute in inline form when that is not
/// empty, else its text in inline form.
pub open spec fn link_title(e: ElementView) -> Seq<char> {
    match e.title {
        Some(t) if clean_inline(t).len() > 0 => clean_inline(t),
        _ => inline_text(e),
    }
}

/// The target of an entry's link as `(address, article ID, title)`: the link
/// must have an `href` that resolves against `base` to an address with an
/// article ID, and a non-empty title.
pub open spec fn link_target(base: Seq<char>, link: Option<ElementView>) -> Option<(Seq<char>, Seq<char>, Seq<char>)> {
    match link {
        None => None,
        Some(e) => match e.href {
            None => None,
            Some(h) => match url_joined(base, h) {
                Err(_) => None,
                Ok(u) => match article_id_spec(u) {
                    None => None,
                    Some(id) => if link_title(e).len() == 0 {
                        None
                    } else {
                        Some((u, id, link_title(e)))
                    },
                },
            },
        },
    }
}

/// The rank of the entry at `index` (from 0) on list page `page` (from 1).
pub open spec fn rank(page: int, index: int) -> int {
    (page - 1) * 100 + index + 1
}

fn row_get<'a>(row: &'a Vec<Option<ScrapedElement>>, k: usize) -> (r: Option<&'a ScrapedElement>)
    ensures
        match r {
            Some(e) => row_at(row_view(row@), k as int) == Some(e@),
            None => row_at(row_view(row@), k as int) is None,
        },
{
    if k < row.len() {
        match &row[k] {
            Some(e) => Some(e),
            None => None,
        }
    } else {
        None
    }
}

fn inline_text_exec(e: &ScrapedElement) -> (r: Vec<char>)
    ensures
        r@ == inline_text(e@),
{
    clean_fragments(&e.texts)
}

fn link_title_exec(e: &ScrapedElement) -> (r: Vec<char>)
    ensures
        r@ == link_title(e@),
{
    if let Some(t) = &e.title {
        let tc = chars_of(t.as_str());
        let v = clean_inline_chars(&tc);
        if v.len() > 0 {
            return v;
        }
    }
    inline_text_exec(e)
}

fn link_target_exec(base: &str, link: Option<&ScrapedElement>) -> (r: Option<(String, String, String)>)
    ensures
        match r {
            Some((u, id, t)) => link_target(base@, opt_ref(link)) == Some((u@, id@, t@)),
            None => link_target(base@, opt_ref(link)) is None,
        },
{
    let e = link?;
    let href = match &e.href {
        Some(h) => h,
        None => return None,
    };
    let url = match url_join(base, href.as_str()) {
        Ok(u) => u,
        Err(_) => return None,
    };
    let id = article_id_from_url(url.as_str())?;
    let title = link_title_exec(e);
    if title.len() == 0 {
        return None;
    }
    Some((url, id, string_from_chars(&title)))
}

/// The view of an optional borrowed element.
pub open spec fn opt_ref(o: Option<&ScrapedElement>) -> Option<ElementView> {
    match o {
        Some(e) => Some(e@),
        None => None,
    }
}

fn rank_exec(page: u32, index: usize) -> (r: Option<i64>)
    requires
        page >= 1,
    ensures
        r matches Some(v) ==> v == rank(page as int, index as int),
        r is None ==> rank(page as int, index as int) > i64::MAX,
{
    let v: u128 = (page as u128 - 1) * 100 + index as u128 + 1;
    if v > 9223372036854775807u128 {
        None
    } else {
        Some(v as i64)
    }
}

/// The entries of the hot list.
pub open spec fn hot_item_selector() -> Seq<char> {
    ".Nbbs-tiezi-lists"@
}

/// Date, author and link of a hot list entry.
pub open spec fn hot_inner_selectors() -> Seq<Seq<char>> {
    seq![".left.middle-list-post"@, ".left.middle-list-user.cblue.cursor.overhide"@, "a[href]"@]
}

/// An article of the hot list, from a row (date, author, link), without its
/// rank: the date, resolved against `[from, to]`, must be within the range,
/// and the link must name an article with a title.
pub open spec fn hot_entry(row: Seq<Option<ElementView>>, list_url: Seq<char>, from: crate::datetime::FixedDateTimeView, to: crate::datetime::FixedDateTimeView, year: int) -> Option<ArticleView> {
    match row_at(row, 0) {
        None => None,
        Some(d) => {
            let raw = inline_text(d);
            match resolve_published_spec(raw, from, to, year) {
                None => None,
                Some(p) => match rfc3339_parsed(p) {
                    None => None,
                    Some(pd) => if !(not_later(from, pd) && not_later(pd, to)) {
                        None
                    } else {
                        match link_target(list_url, row_at(row, 2)) {
                            None => None,
                            Some((u, id, title)) => Some(ArticleView {
                                article_id: id,
                                title,
                                author_id: None,
                                author_name: match row_at(row, 1) {
                                    Some(a) if inline_text(a).len() > 0 => Some(inline_text(a)),
                                    _ => None,
                                },
                                url: u,
                                published_at: Some(p),
                                published_raw: Some(raw),
                                source: "hot"@,
                                source_rank: None,
                                body_text: None,
                                content_hash: None,
                                parse_status: "metadata"@,
                                http_status: None,
                                error: None,
                                fetched_at: None,
                                raw_html_path: None,
                                views: None,
                                replies: None,
                                tags: seq![],
                            }),
                        }
                    },
                },
            }
        },
    }
}

/// The articles of the hot list rows, in order, each with its rank; an
/// entry whose rank does not fit in an `i64` is an error.
pub open spec fn hot_articles(rows: Seq<Seq<Option<ElementView>>>, list_url: Seq<char>, from: crate::datetime::FixedDateTimeView, to: crate::datetime::FixedDateTimeView, page: int, year: int) -> Result<Seq<ArticleView>, (ParseErrorKind, Seq<char>)>
    decreases rows.len(),
{
    if rows.len() == 0 {
        Ok(seq![])
    } else {
        match hot_articles(rows.drop_last(), list_url, from, to, page, year) {
            Err(e) => Err(e),
            Ok(prev) => match hot_entry(rows.last(), list_url, from, to, year) {
                None => Ok(prev),
                Some(a) => if rank(page, rows.len() - 1) > i64::MAX {
                    Err((ParseErrorKind::RankOverflow, seq![]))
                } else {
                    Ok(prev.push(ArticleView { source_rank: Some(rank(page, rows.len() - 1) as i64), ..a }))
                },
            },
        }
    }
}

fn hot_entry_exec(row: &Vec<Option<ScrapedElement>>, list_url: &str, from: &FixedDateTime, to: &FixedDateTime, year: i32) -> (r: Option<Article>)
    ensures
        match r {
            Some(a) => hot_entry(row_view(row@), list_url@, from@, to@, year as int) == Some(a@),
            None => hot_entry(row_view(row@), list_url@, from@, to@, year as int) is None,
        },
{
    let d = row_get(row, 0)?;
    let raw = string_from_chars(&inline_text_exec(d));
    let published = resolve_published_at_in_year(raw.as_str(), from, to, year)?;
    let pd = parse_rfc3339(published.as_str())?;
    if !(is_not_later(from, &pd) && is_not_later(&pd, to)) {
        return None;
    }
    let (url, id, title) = link_target_exec(list_url, row_get(row, 2))?;
    let author = match row_get(row, 1) {
        Some(a) => {
            let v = inline_text_exec(a);
            if v.len() > 0 {
                Some(string_from_chars(&v))
            } else {
                None
            }
        },
        None => None,
    };
    let mut article = Article::metadata(id, title, url, "hot");
    article.author_name = author;
    article.published_at = Some(published);
    article.published_raw = Some(raw);
    Some(article)
}

/// The articles of hot list rows (date, author, link), as
/// `parse_hot_list` reads them from a page.
pub fn hot_list_from_rows(rows: &Vec<Vec<Option<ScrapedElement>>>, list_url: &str, from: &FixedDateTime, to: &FixedDateTime, page: u32, year: i32) -> (r: Result<Vec<Article>, ParseError>)
    requires
        page >= 1,
    ensures
        match r {
            Ok(v) => hot_articles(rows_view(rows@), list_url@, from@, to@, page as int, year as int) == Ok::<Seq<ArticleView>, (ParseErrorKind, Seq<char>)>(articles_view(v@)),
            Err(e) => hot_articles(rows_view(rows@), list_url@, from@, to@, page as int, year as int) == Err::<Seq<ArticleView>, (ParseErrorKind, Seq<char>)>(perr(e)),
        },
{
    let ghost rv = rows_view(rows@);
    let mut out: Vec<Article> = Vec::new();
    let mut i: usize = 0;
    assert(rv.take(0) =~= Seq::<Seq<Option<ElementView>>>::empty());
    assert(articles_view(out@) =~= Seq::<ArticleView>::empty());
    while i < rows.len()
        invariant
            i <= rows.len(),
            page >= 1,
            rv == rows_view(rows@),
            hot_articles(rv.take(i as int), list_url@, from@, to@, page as int, year as int) == Ok::<Seq<ArticleView>, (ParseErrorKind, Seq<char>)>(articles_view(out@)),
        decreases rows.len() - i,
    {
        proof {
            assert(rv.take(i + 1).drop_last() == rv.take(i as int));
            assert(rv.take(i + 1).last() == rv[i as int]);
        }
        let entry = hot_entry_exec(&rows[i], list_url, from, to, year);
        if let Some(mut a) = entry {
            match rank_exec(page, i) {
                Some(k) => {
                    a.source_rank = Some(k);
                    let ghost prev = out@;
                    out.push(a);
                    assert(articles_view(out@) =~= articles_view(prev).push(a@));
                },
                None => {
                    assert(hot_articles(rv.take(i + 1), list_url@, from@, to@, page as int, year as int) is Err);
                    proof {
                        lemma_hot_err_stays(rv, list_url@, from@, to@, page as int, year as int, i + 1);
                    }
                    return Err(error0(ParseErrorKind::RankOverflow));
                },
            }
        }
        i = i + 1;
    }
    assert(rv.take(rows.len() as int) == rv);
    Ok(out)
}

proof fn lemma_hot_err_stays(rv: Seq<Seq<Option<ElementView>>>, list_url: Seq<char>, from: crate::datetime::FixedDateTimeView, to: crate::datetime::FixedDateTimeView, page: int, year: int, n: int)
    requires
        0 <= n <= rv.len(),
        hot_articles(rv.take(n), list_url, from, to, page, year) == Err::<Seq<ArticleView>, (ParseErrorKind, Seq<char>)>((ParseErrorKind::RankOverflow, seq![])),
    ensures
        hot_articles(rv, list_url, from, to, page, year) == Err::<Seq<ArticleView>, (ParseErrorKind, Seq<char>)>((ParseErrorKind::RankOverflow, seq![])),
    decreases rv.len() - n,
{
    if n < rv.len() {
        assert(rv.take(n + 1).drop_last() == rv.take(n));
        lemma_hot_err_stays(rv, list_url, from, to, page, year, n + 1);
    } else {
        assert(rv.take(n) == rv);
    }
}


/// The article's publication time parses as RFC 3339 and lies within
/// `[from, to]`.
pub open spec fn published_within(a: ArticleView, from: crate::datetime::FixedDateTimeView, to: crate::datetime::FixedDateTimeView) -> bool {
    match a.published_at {
        Some(p) => match rfc3339_parsed(p) {
            Some(pd) => not_later(from, pd) && not_later(pd, to),
            None => false,
        },
        None => false,
    }
}

/// The article has a rank within `[lo, hi]`.
pub open spec fn rank_between(a: ArticleView, lo: int, hi: int) -> bool {
    match a.source_rank {
        Some(k) => lo <= k <= hi,
        None => false,
    }
}

/// Every article of the hot list lies within the requested range: its
/// publication time parses as RFC 3339 and is neither before `from` nor
/// after `to`; and the articles come in strictly increasing rank, each from
/// the hot list.
pub proof fn lemma_hot_articles_in_range(rows: Seq<Seq<Option<ElementView>>>, list_url: Seq<char>, from: crate::datetime::FixedDateTimeView, to: crate::datetime::FixedDateTimeView, page: int, year: int)
    requires
        page >= 1,
    ensures
        hot_articles(rows, list_url, from, to, page, year) matches Ok(arts) ==> {
            &&& forall|i: int| 0 <= i < arts.len() ==> published_within(#[trigger] arts[i], from, to)
            &&& forall|i: int| 0 <= i < arts.len() ==> (#[trigger] arts[i]).source == "hot"@
            &&& forall|i: int| 0 <= i < arts.len() ==> rank_between(#[trigger] arts[i], 1, rank(page, rows.len() - 1))
            &&& forall|i: int, j: int| 0 <= i < j < arts.len() ==> arts[i].source_rank->0 < arts[j].source_rank->0
        },
    decreases rows.len(),
{
    if rows.len() > 0 {
        lemma_hot_articles_in_range(rows.drop_last(), list_url, from, to, page, year);
    }
}

/// The articles of a hot list page: the entries of `.Nbbs-tiezi-lists`,
/// once the selectors and the page address are found valid.
pub open spec fn hot_list_spec(html: Seq<char>, list_url: Seq<char>, from: crate::datetime::FixedDateTimeView, to: crate::datetime::FixedDateTimeView, page: int, year: int) -> Result<Seq<ArticleView>, (ParseErrorKind, Seq<char>)> {
    match nested_selection(html, hot_item_selector(), hot_inner_selectors()) {
        None => Err((ParseErrorKind::InvalidSelector, seq![])),
        Some(rows) => if !url_parses(list_url) {
            Err((ParseErrorKind::InvalidListUrl, list_url))
        } else {
            hot_articles(rows, list_url, from, to, page, year)
        },
    }
}

/// Results of list parsing, as plain values.
pub open spec fn list_result(r: Result<Vec<Article>, ParseError>) -> Result<Seq<ArticleView>, (ParseErrorKind, Seq<char>)> {
    match r {
        Ok(v) => Ok(articles_view(v@)),
        Err(e) => Err(perr(e)),
    }
}

/// Parses a hot list page, with the current year given.
pub fn parse_hot_list_in_year(html: &str, list_url: &str, from: &FixedDateTime, to: &FixedDateTime, page: u32, year: i32) -> (r: Result<Vec<Article>, ParseError>)
    requires
        page >= 1,
    ensures
        list_result(r) == hot_list_spec(html@, list_url@, from@, to@, page as int, year as int),
{
    let inner: Vec<&str> = vec![".left.middle-list-post", ".left.middle-list-user.cblue.cursor.overhide", "a[href]"];
    assert(strs_view(inner@) =~= hot_inner_selectors());
    let rows = match select_nested(html, ".Nbbs-tiezi-lists", &inner) {
        Some(rows) => rows,
        None => return Err(error0(ParseErrorKind::InvalidSelector)),
    };
    if !url_is_valid(list_url) {
        return Err(error(ParseErrorKind::InvalidListUrl, list_url));
    }
    hot_list_from_rows(&rows, list_url, from, to, page, year)
}

/// Parses a hot list page: the articles whose date, resolved against
/// `[from, to]`, lies within it, with ranks counted from `page`.
pub fn parse_hot_list(html: &str, list_url: &str, from: FixedDateTime, to: FixedDateTime, page: u32) -> (r: Result<Vec<Article>, ParseError>)
    requires
        page >= 1,
    ensures
        exists|y: i32| list_result(r) == hot_list_spec(html@, list_url@, from@, to@, page as int, y as int),
{
    let now = now_shanghai();
    parse_hot_list_in_year(html, list_url, &from, &to, page, now.local.year)
}

/// The entries of an author's blog list.
pub open spec fn blog_item_selector() -> Seq<char> {
    ".article_tittle"@
}

/// Link, counters, date and the elite, pinned and self-authored markers of a
/// blog entry.
pub open spec fn blog_inner_selectors() -> Seq<Seq<char>> {
    seq![
        "a[href]"@,
        ".tittle_llhf"@,
        ".tittle_fbshijian"@,
        ".tittle_jinghua"@,
        ".tittle_zhiding"@,
        ".tittle_yuanchuang"@,
    ]
}

/// The values of the texts that parse as `i64`, in order.
pub open spec fn parsed_numbers(ms: Seq<Seq<char>>) -> Seq<i64>
    decreases ms.len(),
{
    if ms.len() == 0 {
        seq![]
    } else {
        let p = parsed_numbers(ms.drop_last());
        match parse_i64_spec(ms.last()) {
            Some(v) => p.push(v),
            None => p,
        }
    }
}

/// The tags of a blog entry from its markers: elite, pinned, self-authored.
pub open spec fn blog_tags(row: Seq<Option<ElementView>>) -> Seq<Seq<char>> {
    (if row_at(row, 3) is Some { seq!["精华"@] } else { seq![] }) + (if row_at(row, 4) is Some {
        seq!["置顶"@]
    } else {
        seq![]
    }) + (if row_at(row, 5) is Some { seq!["原创"@] } else { seq![] })
}

/// An article of a blog list, from a row, without its rank: the link must
/// name an article with a title; the first two numbers of the counters are
/// views and replies; the date, if any, is parsed as a blog date.
pub open spec fn blog_entry(row: Seq<Option<ElementView>>, base_url: Seq<char>, author_id: Seq<char>, author_name: Option<Seq<char>>, year: int) -> Result<Option<ArticleView>, (ParseErrorKind, Seq<char>)> {
    match link_target(base_url, row_at(row, 0)) {
        None => Ok(None),
        Some((u, id, title)) => {
            let metrics = match row_at(row, 1) {
                Some(m) => join(m.texts, seq![' ']),
                None => seq![],
            };
            match regex_found("\\d+"@, metrics) {
                None => Err((ParseErrorKind::InvalidPattern, seq![])),
                Some(ms) => {
                    let nums = parsed_numbers(ms);
                    let raw = match row_at(row, 2) {
                        Some(d) if inline_text(d).len() > 0 => Some(inline_text(d)),
                        _ => None,
                    };
                    Ok(Some(ArticleView {
                        article_id: id,
                        title,
                        author_id: Some(author_id),
                        author_name,
                        url: u,
                        published_at: match raw {
                            Some(r) => blog_date_spec(r, year),
                            None => None,
                        },
                        published_raw: raw,
                        source: "author"@,
                        source_rank: None,
                        body_text: None,
                        content_hash: None,
                        parse_status: "metadata"@,
                        http_status: None,
                        error: None,
                        fetched_at: None,
                        raw_html_path: None,
                        views: if nums.len() > 0 { Some(nums[0]) } else { None },
                        replies: if nums.len() > 1 { Some(nums[1]) } else { None },
                        tags: blog_tags(row),
                    }))
                },
            }
        },
    }
}

/// The articles of blog list rows, in order, each with its rank.
pub open spec fn blog_articles(rows: Seq<Seq<Option<ElementView>>>, base_url: Seq<char>, author_id: Seq<char>, author_name: Option<Seq<char>>, page: int, year: int) -> Result<Seq<ArticleView>, (ParseErrorKind, Seq<char>)>
    decreases rows.len(),
{
    if rows.len() == 0 {
        Ok(seq![])
    } else {
        match blog_articles(rows.drop_last(), base_url, author_id, author_name, page, year) {
            Err(e) => Err(e),
            Ok(prev) => match blog_entry(rows.last(), base_url, author_id, author_name, year) {
                Err(e) => Err(e),
                Ok(None) => Ok(prev),
                Ok(Some(a)) => if rank(page, rows.len() - 1) > i64::MAX {
                    Err((ParseErrorKind::RankOverflow, seq![]))
                } else {
                    Ok(prev.push(ArticleView { source_rank: Some(rank(page, rows.len() - 1) as i64), ..a }))
                },
            },
        }
    }
}

fn numbers_exec(ms: &Vec<String>) -> (r: Vec<i64>)
    ensures
        r@ == parsed_numbers(ms.deep_view()),
{
    let mut out: Vec<i64> = Vec::new();
    let mut i: usize = 0;
    while i < ms.len()
        invariant
            i <= ms.len(),
            out@ == parsed_numbers(ms.deep_view().take(i as int)),
        decreases ms.len() - i,
    {
        proof {
            assert(ms.deep_view().take(i + 1).drop_last() == ms.deep_view().take(i as int));
            assert(ms.deep_view().take(i + 1).last() == ms.deep_view()[i as int]);
        }
        if let Some(v) = parse_i64(ms[i].as_str()) {
            out.push(v);
        }
        i = i + 1;
    }
    assert(ms.deep_view().take(ms.len() as int) == ms.deep_view());
    out
}

fn blog_tags_exec(row: &Vec<Option<ScrapedElement>>) -> (r: Vec<String>)
    ensures
        r.deep_view() == blog_tags(row_view(row@)),
{
    let mut tags: Vec<String> = Vec::new();
    let ghost mut t: Seq<Seq<char>> = seq![];
    if row_get(row, 3).is_some() {
        tags.push("精华".to_owned());
    }
    let ghost t1 = tags.deep_view();
    assert(t1 =~= (if row_at(row_view(row@), 3) is Some { seq!["精华"@] } else { Seq::<Seq<char>>::empty() }));
    if row_get(row, 4).is_some() {
        tags.push("置顶".to_owned());
    }
    let ghost t2 = tags.deep_view();
    assert(t2 =~= t1 + (if row_at(row_view(row@), 4) is Some { seq!["置顶"@] } else { Seq::<Seq<char>>::empty() }));
    if row_get(row, 5).is_some() {
        tags.push("原创".to_owned());
    }
    assert(tags.deep_view() =~= t2 + (if row_at(row_view(row@), 5) is Some { seq!["原创"@] } else { Seq::<Seq<char>>::empty() }));
    tags
}

fn blog_entry_exec(row: &Vec<Option<ScrapedElement>>, base_url: &str, author_id: &str, author_name: Option<&str>, year: i32) -> (r: Result<Option<Article>, ParseError>)
    ensures
        match r {
            Ok(Some(a)) => blog_entry(row_view(row@), base_url@, author_id@, opt_str(author_name), year as int) == Ok::<Option<ArticleView>, (ParseErrorKind, Seq<char>)>(Some(a@)),
            Ok(None) => blog_entry(row_view(row@), base_url@, author_id@, opt_str(author_name), year as int) == Ok::<Option<ArticleView>, (ParseErrorKind, Seq<char>)>(None),
            Err(e) => blog_entry(row_view(row@), base_url@, author_id@, opt_str(author_name), year as int) == Err::<Option<ArticleView>, (ParseErrorKind, Seq<char>)>(perr(e)),
        },
{
    let (url, id, title) = match link_target_exec(base_url, row_get(row, 0)) {
        Some(t) => t,
        None => return Ok(None),
    };
    let metrics: Vec<char> = match row_get(row, 1) {
        Some(m) => join_strings(&m.texts, " "),
        None => Vec::new(),
    };
    proof {
        reveal_strlit(" ");
        assert(" "@ =~= seq![' ']);
    }
    let metrics = string_from_chars(&metrics);
    let found = match regex_find_all("\\d+", metrics.as_str()) {
        Some(f) => f,
        None => return Err(error0(ParseErrorKind::InvalidPattern)),
    };
    let nums = numbers_exec(&found);
    let raw: Option<String> = match row_get(row, 2) {
        Some(d) => {
            let v = inline_text_exec(d);
            if v.len() > 0 {
                Some(string_from_chars(&v))
            } else {
                None
            }
        },
        None => None,
    };
    let published_at = match &raw {
        Some(r) => parse_blog_date(r.as_str(), year),
        None => None,
    };
    let mut article = Article::metadata(id, title, url, "author");
    article.author_id = Some(author_id.to_owned());
    article.author_name = match author_name {
        Some(n) => Some(n.to_owned()),
        None => None,
    };
    article.published_at = published_at;
    article.published_raw = raw;
    article.views = if nums.len() > 0 { Some(nums[0]) } else { None };
    article.replies = if nums.len() > 1 { Some(nums[1]) } else { None };
    article.tags = blog_tags_exec(row);
    Ok(Some(article))
}

/// The view of an optional string slice.
pub open spec fn opt_str(o: Option<&str>) -> Option<Seq<char>> {
    match o {
        Some(s) => Some(s@),
        None => None,
    }
}

/// The articles of blog list rows (link, counters, date, markers), as
/// `parse_blog_list` reads them from a page.
pub fn blog_list_from_rows(rows: &Vec<Vec<Option<ScrapedElement>>>, base_url: &str, author_id: &str, author_name: Option<&str>, page: u32, year: i32) -> (r: Result<Vec<Article>, ParseError>)
    requires
        page >= 1,
    ensures
        list_result(r) == blog_articles(rows_view(rows@), base_url@, author_id@, opt_str(author_name), page as int, year as int),
{
    let ghost rv = rows_view(rows@);
    let ghost an = opt_str(author_name);
    let mut out: Vec<Article> = Vec::new();
    let mut i: usize = 0;
    assert(rv.take(0) =~= Seq::<Seq<Option<ElementView>>>::empty());
    assert(articles_view(out@) =~= Seq::<ArticleView>::empty());
    while i < rows.len()
        invariant
            i <= rows.len(),
            page >= 1,
            rv == rows_view(rows@),
            an == opt_str(author_name),
            blog_articles(rv.take(i as int), base_url@, author_id@, an, page as int, year as int) == Ok::<Seq<ArticleView>, (ParseErrorKind, Seq<char>)>(articles_view(out@)),
        decreases rows.len() - i,
    {
        proof {
            assert(rv.take(i + 1).drop_last() == rv.take(i as int));
            assert(rv.take(i + 1).last() == rv[i as int]);
        }
        match blog_entry_exec(&rows[i], base_url, author_id, author_name, year) {
            Err(e) => {
                proof {
                    lemma_blog_err_stays(rv, base_url@, author_id@, an, page as int, year as int, i + 1, perr(e));
                }
                return Err(e);
            },
            Ok(None) => {},
            Ok(Some(mut a)) => {
                match rank_exec(page, i) {
                    Some(k) => {
                        a.source_rank = Some(k);
                        let ghost prev = out@;
                        out.push(a);
                        assert(articles_view(out@) =~= articles_view(prev).push(a@));
                    },
                    None => {
                        proof {
                            lemma_blog_err_stays(rv, base_url@, author_id@, an, page as int, year as int, i + 1, (ParseErrorKind::RankOverflow, seq![]));
                        }
                        return Err(error0(ParseErrorKind::RankOverflow));
                    },
                }
            },
        }
        i = i + 1;
    }
    assert(rv.take(rows.len() as int) == rv);
    Ok(out)
}

proof fn lemma_blog_err_stays(rv: Seq<Seq<Option<ElementView>>>, base_url: Seq<char>, author_id: Seq<char>, an: Option<Seq<char>>, page: int, year: int, n: int, e: (ParseErrorKind, Seq<char>))
    requires
        0 <= n <= rv.len(),
        blog_articles(rv.take(n), base_url, author_id, an, page, year) == Err::<Seq<ArticleView>, (ParseErrorKind, Seq<char>)>(e),
    ensures
        blog_articles(rv, base_url, author_id, an, page, year) == Err::<Seq<ArticleView>, (ParseErrorKind, Seq<char>)>(e),
    decreases rv.len() - n,
{
    if n < rv.len() {
        assert(rv.take(n + 1).drop_last() == rv.take(n));
        lemma_blog_err_stays(rv, base_url, author_id, an, page, year, n + 1, e);
    } else {
        assert(rv.take(n) == rv);
    }
}

/// Every article of a blog list belongs to the author it was asked for, with
/// the given author ID and name, has source `author` and status `metadata`,
/// and the articles come in strictly increasing rank within the page.
pub proof fn lemma_blog_articles_of_author(rows: Seq<Seq<Option<ElementView>>>, base_url: Seq<char>, author_id: Seq<char>, author_name: Option<Seq<char>>, page: int, year: int)
    requires
        page >= 1,
    ensures
        blog_articles(rows, base_url, author_id, author_name, page, year) matches Ok(arts) ==> {
            &&& forall|i: int| 0 <= i < arts.len() ==> (#[trigger] arts[i]).author_id == Some(author_id)
            &&& forall|i: int| 0 <= i < arts.len() ==> (#[trigger] arts[i]).author_name == author_name
            &&& forall|i: int| 0 <= i < arts.len() ==> (#[trigger] arts[i]).source == "author"@
            &&& forall|i: int| 0 <= i < arts.len() ==> (#[trigger] arts[i]).parse_status == "metadata"@
            &&& forall|i: int| 0 <= i < arts.len() ==> rank_between(#[trigger] arts[i], 1, rank(page, rows.len() - 1))
            &&& forall|i: int, j: int| 0 <= i < j < arts.len() ==> arts[i].source_rank->0 < arts[j].source_rank->0
        },
    decreases rows.len(),
{
    if rows.len() > 0 {
        lemma_blog_articles_of_author(rows.drop_last(), base_url, author_id, author_name, page, year);
    }
}

/// The articles of a blog list page carry the author they were asked for.
pub proof fn lemma_blog_list_of_author(html: Seq<char>, base_url: Seq<char>, author_id: Seq<char>, author_name: Option<Seq<char>>, page: int, year: int)
    requires
        page >= 1,
    ensures
        blog_list_spec(html, base_url, author_id, author_name, page, year) matches Ok(arts) ==> {
            &&& forall|i: int| 0 <= i < arts.len() ==> (#[trigger] arts[i]).author_id == Some(author_id)
            &&& forall|i: int| 0 <= i < arts.len() ==> (#[trigger] arts[i]).author_name == author_name
            &&& forall|i: int| 0 <= i < arts.len() ==> (#[trigger] arts[i]).source == "author"@
        },
{
    match nested_selection(html, blog_item_selector(), blog_inner_selectors()) {
        Some(rows) => lemma_blog_articles_of_author(rows, base_url, author_id, author_name, page, year),
        None => {},
    }
}

/// The articles of a blog list page: the entries of `.article_tittle`, once
/// the selectors and the site address are found valid.
pub open spec fn blog_list_spec(html: Seq<char>, base_url: Seq<char>, author_id: Seq<char>, author_name: Option<Seq<char>>, page: int, year: int) -> Result<Seq<ArticleView>, (ParseErrorKind, Seq<char>)> {
    match nested_selection(html, blog_item_selector(), blog_inner_selectors()) {
        None => Err((ParseErrorKind::InvalidSelector, seq![])),
        Some(rows) => if !url_parses(base_url) {
            Err((ParseErrorKind::InvalidBaseUrl, base_url))
        } else {
            blog_articles(rows, base_url, author_id, author_name, page, year)
        },
    }
}

/// Parses a blog list page, with the current year given.
pub fn parse_blog_list_in_year(html: &str, base_url: &str, author_id: &str, author_name: Option<&str>, page: u32, year: i32) -> (r: Result<Vec<Article>, ParseError>)
    requires
        page >= 1,
    ensures
        list_result(r) == blog_list_spec(html@, base_url@, author_id@, opt_str(author_name), page as int, year as int),
{
    let inner: Vec<&str> = vec![
        "a[href]",
        ".tittle_llhf",
        ".tittle_fbshijian",
        ".tittle_jinghua",
        ".tittle_zhiding",
        ".tittle_yuanchuang",
    ];
    assert(strs_view(inner@) =~= blog_inner_selectors());
    let rows = match select_nested(html, ".article_tittle", &inner) {
        Some(rows) => rows,
        None => return Err(error0(ParseErrorKind::InvalidSelector)),
    };
    if !url_is_valid(base_url) {
        return Err(error(ParseErrorKind::InvalidBaseUrl, base_url));
    }
    blog_list_from_rows(&rows, base_url, author_id, author_name, page, year)
}

/// Parses an author's blog list page.
pub fn parse_blog_list(html: &str, base_url: &str, author_id: &str, author_name: Option<&str>, page: u32) -> (r: Result<Vec<Article>, ParseError>)
    requires
        page >= 1,
    ensures
        exists|y: i32| list_result(r) == blog_list_spec(html@, base_url@, author_id@, opt_str(author_name), page as int, y as int),
{
    let now = now_shanghai();
    parse_blog_list_in_year(html, base_url, author_id, author_name, page, now.local.year)
}

} // verus!
