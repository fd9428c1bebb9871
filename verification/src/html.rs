//! Page content as plain values: the elements that CSS selectors pick out of
//! an HTML document, the text of an element, and pattern-based removal of
//! non-content markup.

use vstd::prelude::*;

use crate::text::{
    chars_eq, chars_of, chars_view, clean_inline, clean_inline_chars, join, join_chars,
    string_from_chars,
};

verus! {

/// What the parsing rules read of one element: its descendant text nodes, in
/// document order, and three of its attributes.
#[derive(Debug)]
pub struct ScrapedElement {
    pub texts: Vec<String>,
    pub href: Option<String>,
    pub title: Option<String>,
    pub content: Option<String>,
}

/// The plain content of a `ScrapedElement`.
pub struct ElementView {
    pub texts: Seq<Seq<char>>,
    pub href: Option<Seq<char>>,
    pub title: Option<Seq<char>>,
    pub content: Option<Seq<char>>,
}

impl View for ScrapedElement {
    type V = ElementView;

    open spec fn view(&self) -> ElementView {
        ElementView {
            texts: self.texts.deep_view(),
            href: self.href.deep_view(),
            title: self.title.deep_view(),
            content: self.content.deep_view(),
        }
    }
}

/// The view of an optional element.
pub open spec fn opt_el(o: Option<ScrapedElement>) -> Option<ElementView> {
    match o {
        Some(e) => Some(e@),
        None => None,
    }
}

/// The view of one row of optional elements.
pub open spec fn row_view(r: Seq<Option<ScrapedElement>>) -> Seq<Option<ElementView>> {
    r.map_values(|o: Option<ScrapedElement>| opt_el(o))
}

/// The view of rows of optional elements.
pub open spec fn rows_view(rows: Seq<Vec<Option<ScrapedElement>>>) -> Seq<Seq<Option<ElementView>>> {
    rows.map_values(|r: Vec<Option<ScrapedElement>>| row_view(r@))
}

/// The view of a list of string slices.
pub open spec fn strs_view(v: Seq<&str>) -> Seq<Seq<char>> {
    v.map_values(|s: &str| s@)
}

/// The view of per-selector lookups.
pub open spec fn lookups_view(v: Seq<Option<Option<ScrapedElement>>>) -> Seq<Option<Option<ElementView>>> {
    v.map_values(
        |o: Option<Option<ScrapedElement>>|
            match o {
                Some(e) => Some(opt_el(e)),
                None => None,
            },
    )
}

/// What scraper gives for a document, an outer selector and inner selectors:
/// `None` when a selector does not parse; otherwise, for each element that
/// the outer selector matches, in document order, the first descendant that
/// each inner selector matches.
pub uninterp spec fn nested_selection(html: Seq<char>, outer: Seq<char>, inner: Seq<Seq<char>>) -> Option<Seq<Seq<Option<ElementView>>>>;

/// What scraper gives for a document and a list of selectors: for each
/// selector, `None` when it does not parse, or else the first element of the
/// document that it matches.
pub uninterp spec fn first_matches(html: Seq<char>, selectors: Seq<Seq<char>>) -> Seq<Option<Option<ElementView>>>;

/// What `regex::Regex::replace_all` with an empty replacement gives; `None`
/// when the pattern does not compile.
pub uninterp spec fn regex_removed(pattern: Seq<char>, text: Seq<char>) -> Option<Seq<char>>;

/// What `regex::Regex::find_iter` gives, as the matched texts; `None` when
/// the pattern does not compile.
pub uninterp spec fn regex_found(pattern: Seq<char>, text: Seq<char>) -> Option<Seq<Seq<char>>>;

/// Parses the document with `scraper::Html::parse_document`, the selectors
/// with `scraper::Selector::parse`, and reads, for each match of `outer`, the
/// first match of each inner selector (`ElementRef::select`), through its
/// `text()` and `attr(..)`. The result is named; the contract adds only that
/// each row has one entry per inner selector, which the body's own mapping
/// makes so.
#[verifier::external_body]
pub(crate) fn select_nested(html: &str, outer: &str, inner: &Vec<&str>) -> (r: Option<Vec<Vec<Option<ScrapedElement>>>>)
    ensures
        match r {
            Some(rows) => nested_selection(html@, outer@, strs_view(inner@)) == Some(rows_view(rows@))
                && forall|i: int| 0 <= i < rows@.len() ==> (#[trigger] rows@[i]).len() == inner.len(),
            None => nested_selection(html@, outer@, strs_view(inner@)) is None,
        },
{
    let doc = scraper::Html::parse_document(html);
    let outer = scraper::Selector::parse(outer).ok()?;
    let inner = inner.iter().map(|c| scraper::Selector::parse(c).ok()).collect::<Option<Vec<_>>>()?;
    Some(doc.select(&outer).map(|item| {
        inner.iter().map(|s| {
            item.select(s).next().map(|e| ScrapedElement {
                texts: e.text().map(String::from).collect(),
                href: e.attr("href").map(String::from),
                title: e.attr("title").map(String::from),
                content: e.attr("content").map(String::from),
            })
        }).collect()
    }).collect())
}

/// Parses the document with `scraper::Html::parse_document` and each selector
/// with `scraper::Selector::parse`, and reads the first match of each
/// (`Html::select`) through its `text()` and `attr(..)`. The result is named;
/// the contract adds only that there is one entry per selector.
#[verifier::external_body]
pub(crate) fn select_first_each(html: &str, selectors: &Vec<&str>) -> (r: Vec<Option<Option<ScrapedElement>>>)
    ensures
        lookups_view(r@) == first_matches(html@, strs_view(selectors@)),
        r.len() == selectors.len(),
{
    let doc = scraper::Html::parse_document(html);
    selectors.iter().map(|c| {
        scraper::Selector::parse(c).ok().map(|s| {
            doc.select(&s).next().map(|e| ScrapedElement {
                texts: e.text().map(String::from).collect(),
                href: e.attr("href").map(String::from),
                title: e.attr("title").map(String::from),
                content: e.attr("content").map(String::from),
            })
        })
    }).collect()
}

/// Compiles the pattern with `regex::Regex::new` and calls `replace_all` with
/// an empty replacement. The result is named.
#[verifier::external_body]
pub(crate) fn regex_remove_all(pattern: &str, text: &str) -> (r: Option<String>)
    ensures
        r.deep_view() == regex_removed(pattern@, text@),
{
    Some(regex::Regex::new(pattern).ok()?.replace_all(text, "").into_owned())
}

/// Compiles the pattern with `regex::Regex::new` and collects the texts of
/// `find_iter`. The result is named.
#[verifier::external_body]
pub(crate) fn regex_find_all(pattern: &str, text: &str) -> (r: Option<Vec<String>>)
    ensures
        r.deep_view() == regex_found(pattern@, text@),
{
    Some(regex::Regex::new(pattern).ok()?.find_iter(text).map(|m| m.as_str().to_string()).collect())
}

/// The lines of an element's text: each text node in inline normal form,
/// empty ones dropped, and a line equal to the one before it dropped.
pub open spec fn text_lines(frags: Seq<Seq<char>>) -> Seq<Seq<char>>
    decreases frags.len(),
{
    if frags.len() == 0 {
        seq![]
    } else {
        let prev = text_lines(frags.drop_last());
        let c = clean_inline(frags.last());
        if c.len() == 0 || (prev.len() > 0 && prev.last() == c) {
            prev
        } else {
            prev.push(c)
        }
    }
}

/// The lines of an element's text are never empty and never repeat the
/// line just before them.
pub proof fn lemma_text_lines_distinct_neighbours(frags: Seq<Seq<char>>)
    ensures
        forall|i: int| 0 <= i < text_lines(frags).len() ==> (#[trigger] text_lines(frags)[i]).len() > 0,
        forall|i: int| 0 < i < text_lines(frags).len() ==> #[trigger] text_lines(frags)[i] != text_lines(frags)[i - 1],
    decreases frags.len(),
{
    if frags.len() > 0 {
        lemma_text_lines_distinct_neighbours(frags.drop_last());
        let prev = text_lines(frags.drop_last());
        let c = clean_inline(frags.last());
        let r = text_lines(frags);
        if !(c.len() == 0 || (prev.len() > 0 && prev.last() == c)) {
            assert(r == prev.push(c));
            assert forall|i: int| 0 <= i < r.len() implies (#[trigger] r[i]).len() > 0 by {
                if i < prev.len() {
                    assert(r[i] == prev[i]);
                }
            }
            assert forall|i: int| 0 < i < r.len() implies #[trigger] r[i] != r[i - 1] by {
                if i < prev.len() {
                    assert(r[i] == prev[i]);
                    assert(r[i - 1] == prev[i - 1]);
                } else {
                    assert(r[i - 1] == prev.last());
                }
            }
        }
    }
}

/// An element's text: its lines joined by newlines.
pub open spec fn element_text_spec(frags: Seq<Seq<char>>) -> Seq<char> {
    join(text_lines(frags), seq!['\n'])
}

/// The text of an element from its text nodes, one line per distinct run.
pub fn element_text(texts: &Vec<String>) -> (r: String)
    ensures
        r@ == element_text_spec(texts.deep_view()),
{
    let mut lines: Vec<Vec<char>> = Vec::new();
    let mut i: usize = 0;
    while i < texts.len()
        invariant
            i <= texts.len(),
            chars_view(lines@) == text_lines(texts.deep_view().take(i as int)),
        decreases texts.len() - i,
    {
        let frag = chars_of(texts[i].as_str());
        let cleaned = clean_inline_chars(&frag);
        proof {
            assert(texts.deep_view().take(i + 1).drop_last() == texts.deep_view().take(i as int));
            assert(texts.deep_view().take(i + 1).last() == texts.deep_view()[i as int]);
        }
        if cleaned.len() > 0 {
            let same = lines.len() > 0 && chars_eq(&lines[lines.len() - 1], &cleaned);
            if !same {
                let ghost before = lines@;
                lines.push(cleaned);
                assert(chars_view(lines@) =~= chars_view(before).push(cleaned@));
            }
        }
        i = i + 1;
    }
    assert(texts.deep_view().take(texts.len() as int) == texts.deep_view());
    let sep: Vec<char> = vec!['\n'];
    assert(sep@ =~= seq!['\n']);
    let joined = join_chars(&lines, &sep);
    string_from_chars(&joined)
}

/// The document with script, style and noscript elements removed, each by
/// its pattern in turn; `None` when a pattern does not compile.
pub open spec fn stripped_spec(html: Seq<char>) -> Option<Seq<char>> {
    match regex_removed(script_pattern(), html) {
        None => None,
        Some(a) => match regex_removed(style_pattern(), a) {
            None => None,
            Some(b) => regex_removed(noscript_pattern(), b),
        },
    }
}

/// Matches a script element, case-insensitively, across lines.
pub open spec fn script_pattern() -> Seq<char> {
    "(?is)<script\\b[^>]*>.*?</script\\s*>"@
}

/// Matches a style element, case-insensitively, across lines.
pub open spec fn style_pattern() -> Seq<char> {
    "(?is)<style\\b[^>]*>.*?</style\\s*>"@
}

/// Matches a noscript element, case-insensitively, across lines.
pub open spec fn noscript_pattern() -> Seq<char> {
    "(?is)<noscript\\b[^>]*>.*?</noscript\\s*>"@
}

/// Removes script, style and noscript elements from a document.
pub fn strip_non_content_tags(html: &str) -> (r: Option<String>)
    ensures
        r.deep_view() == stripped_spec(html@),
{
    let a = regex_remove_all("(?is)<script\\b[^>]*>.*?</script\\s*>", html)?;
    let b = regex_remove_all("(?is)<style\\b[^>]*>.*?</style\\s*>", a.as_str())?;
    regex_remove_all("(?is)<noscript\\b[^>]*>.*?</noscript\\s*>", b.as_str())
}

} // verus!
