//! Parsing rules for tgb.cn pages: article and author identities in
//! addresses, the entries of the hot list and of blog lists, and the body and
//! metadata of article pages.

use sha2::Digest;
use vstd::prelude::*;

use crate::datetime::{is_utc_rfc3339, now_utc_rfc3339};
use crate::html::{
    element_text, element_text_spec, first_matches, select_first_each, strip_non_content_tags,
    stripped_spec, strs_view, ElementView, ScrapedElement, opt_el, lookups_view,
};
use crate::model::{status_parsed, Article, ArticleView};
use crate::text::{
    clean_fragments, clean_inline, clean_inline_chars, dec_nat, join,
    all_digits, chars_eq, chars_of, contains_char, is_digit, push_decimal_u64, push_str,
    starts_with_chars, string_from_chars, trim, trim_chars, has_prefix,
};

verus! {

/// Why a page or a target could not be parsed.
#[derive(Debug, Clone, Copy, PartialEq, Eq, Structural)]
pub enum ParseErrorKind {
    /// A CSS selector of the rules does not parse.
    InvalidSelector,
    /// A text pattern of the rules does not compile.
    InvalidPattern,
    /// The address of a list page does not parse; the detail is the address.
    InvalidListUrl,
    /// The site address given for a blog list does not parse; the detail is
    /// the address.
    InvalidBaseUrl,
    /// The site address given for an article does not parse.
    BaseUrlUnparsable,
    /// Resolving a path against the site address failed; the detail is the
    /// reason.
    UrlJoin,
    /// No known body container with text was found.
    NoBodyContainer,
    /// A list entry's rank does not fit in an `i64`.
    RankOverflow,
    /// An article address without `/a/<article-id>`.
    ArticleUrlWithoutId,
    /// An article ID that is empty or holds `/`; the detail is the target.
    InvalidArticleId,
    /// An author given neither as a numeric ID nor as an address.
    AuthorNotIdOrUrl,
    /// A blog address without path segments.
    InvalidBlogUrl,
    /// A blog address without `/blog/<numeric-id>`.
    BlogUrlWithoutId,
}

/// A parse failure: its kind and, for some kinds, the text it concerns.
#[derive(Debug, Clone)]
pub struct ParseError {
    pub kind: ParseErrorKind,
    pub detail: String,
}

/// A parse failure as plain values.
pub open spec fn perr(e: ParseError) -> (ParseErrorKind, Seq<char>) {
    (e.kind, e.detail@)
}

/// A result as plain values.
pub open spec fn res_view<T: View>(r: Result<T, ParseError>) -> Result<T::V, (ParseErrorKind, Seq<char>)> {
    match r {
        Ok(v) => Ok(v@),
        Err(e) => Err(perr(e)),
    }
}

/// The message of a parse failure.
pub open spec fn parse_error_message(kind: ParseErrorKind, detail: Seq<char>) -> Seq<char> {
    match kind {
        ParseErrorKind::InvalidSelector => "invalid CSS selector"@,
        ParseErrorKind::InvalidPattern => "invalid text pattern"@,
        ParseErrorKind::InvalidListUrl => "invalid list URL: "@ + detail,
        ParseErrorKind::InvalidBaseUrl => "invalid base URL: "@ + detail,
        ParseErrorKind::BaseUrlUnparsable => "invalid base URL"@,
        ParseErrorKind::UrlJoin => detail,
        ParseErrorKind::NoBodyContainer => "no supported article body container found"@,
        ParseErrorKind::RankOverflow => "list entry rank out of range"@,
        ParseErrorKind::ArticleUrlWithoutId => "article URL must contain /a/<article-id>"@,
        ParseErrorKind::InvalidArticleId => "invalid article ID: "@ + detail,
        ParseErrorKind::AuthorNotIdOrUrl => "author must be a numeric ID or blog URL"@,
        ParseErrorKind::InvalidBlogUrl => "invalid blog URL"@,
        ParseErrorKind::BlogUrlWithoutId => "blog URL must contain /blog/<numeric-id>"@,
    }
}

pub(crate) fn error0(kind: ParseErrorKind) -> (r: ParseError)
    ensures
        perr(r) == (kind, Seq::<char>::empty()),
{
    ParseError { kind, detail: String::new() }
}

pub(crate) fn error(kind: ParseErrorKind, detail: &str) -> (r: ParseError)
    ensures
        perr(r) == (kind, detail@),
{
    ParseError { kind, detail: detail.to_owned() }
}

impl ParseError {
    /// The failure's message.
    pub fn message(&self) -> (r: String)
        ensures
            r@ == parse_error_message(self.kind, self.detail@),
    {
        let mut out: Vec<char> = Vec::new();
        match self.kind {
            ParseErrorKind::InvalidSelector => push_str(&mut out, "invalid CSS selector"),
            ParseErrorKind::InvalidPattern => push_str(&mut out, "invalid text pattern"),
            ParseErrorKind::InvalidListUrl => {
                push_str(&mut out, "invalid list URL: ");
                push_str(&mut out, self.detail.as_str());
            },
            ParseErrorKind::InvalidBaseUrl => {
                push_str(&mut out, "invalid base URL: ");
                push_str(&mut out, self.detail.as_str());
            },
            ParseErrorKind::BaseUrlUnparsable => push_str(&mut out, "invalid base URL"),
            ParseErrorKind::UrlJoin => push_str(&mut out, self.detail.as_str()),
            ParseErrorKind::NoBodyContainer => push_str(
                &mut out,
                "no supported article body container found",
            ),
            ParseErrorKind::RankOverflow => push_str(&mut out, "list entry rank out of range"),
            ParseErrorKind::ArticleUrlWithoutId => push_str(
                &mut out,
                "article URL must contain /a/<article-id>",
            ),
            ParseErrorKind::InvalidArticleId => {
                push_str(&mut out, "invalid article ID: ");
                push_str(&mut out, self.detail.as_str());
            },
            ParseErrorKind::AuthorNotIdOrUrl => push_str(
                &mut out,
                "author must be a numeric ID or blog URL",
            ),
            ParseErrorKind::InvalidBlogUrl => push_str(&mut out, "invalid blog URL"),
            ParseErrorKind::BlogUrlWithoutId => push_str(
                &mut out,
                "blog URL must contain /blog/<numeric-id>",
            ),
        }
        string_from_chars(&out)
    }
}

/// What `url::Url::parse` followed by `path_segments` gives, as texts; `None`
/// when the address does not parse or has no path segments.
pub uninterp spec fn url_segments(url: Seq<char>) -> Option<Seq<Seq<char>>>;

/// Whether `url::Url::parse` accepts the text.
pub uninterp spec fn url_parses(url: Seq<char>) -> bool;

/// What `url::Url::parse(base)` followed by `join(reference)` gives, as text,
/// or the error's message.
pub uninterp spec fn url_joined(base: Seq<char>, reference: Seq<char>) -> Result<Seq<char>, Seq<char>>;

/// What `sha2::Sha256::digest` gives for the bytes.
pub uninterp spec fn sha256(data: Seq<u8>) -> Seq<u8>;

/// Calls `url::Url::parse` and `path_segments`; the result is named.
#[verifier::external_body]
fn url_path_segments(url: &str) -> (r: Option<Vec<String>>)
    ensures
        r.deep_view() == url_segments(url@),
{
    Some(url::Url::parse(url).ok()?.path_segments()?.map(String::from).collect())
}

/// Calls `url::Url::parse`; the result is named.
#[verifier::external_body]
pub(crate) fn url_is_valid(url: &str) -> (r: bool)
    ensures
        r == url_parses(url@),
{
    url::Url::parse(url).is_ok()
}

/// Calls `url::Url::parse` on the base and `join` on the result, and renders
/// the joined address or the error as text. The result is named.
#[verifier::external_body]
pub(crate) fn url_join(base: &str, reference: &str) -> (r: Result<String, String>)
    ensures
        match r {
            Ok(s) => url_joined(base@, reference@) == Ok::<Seq<char>, Seq<char>>(s@),
            Err(e) => url_joined(base@, reference@) == Err::<Seq<char>, Seq<char>>(e@),
        },
{
    url::Url::parse(base).and_then(|b| b.join(reference)).map(|u| u.to_string()).map_err(|e| e.to_string())
}

/// Calls `sha2::Sha256::digest`; the result is named, and is 32 bytes long,
/// the output size of SHA-256.
#[verifier::external_body]
fn sha256_digest(data: &[u8]) -> (r: Vec<u8>)
    ensures
        r@ == sha256(data@),
        r@.len() == 32,
{
    sha2::Sha256::digest(data).to_vec()
}

/// The first segment that follows a segment equal to `key` and satisfies the
/// test for identities, searching adjacent pairs from `i` on.
pub open spec fn article_id_from(segs: Seq<Seq<char>>, i: int) -> Option<Seq<char>>
    decreases segs.len() - i,
{
    if i < 0 || i + 1 >= segs.len() {
        None
    } else if segs[i] == "a"@ && segs[i + 1].len() > 0 {
        Some(segs[i + 1])
    } else {
        article_id_from(segs, i + 1)
    }
}

/// The article ID of an address: the segment after the first `a` segment
/// that is followed by a non-empty one.
pub open spec fn article_id_spec(url: Seq<char>) -> Option<Seq<char>> {
    match url_segments(url) {
        Some(segs) => article_id_from(segs, 0),
        None => None,
    }
}

/// The article ID in an address with `/a/<article-id>`.
pub fn article_id_from_url(value: &str) -> (r: Option<String>)
    ensures
        r.deep_view() == article_id_spec(value@),
{
    let segs = url_path_segments(value)?;
    let mut i: usize = 0;
    while segs.len() > 0 && i < segs.len() - 1
        invariant
            i <= segs.len(),
            segs.deep_view() == url_segments(value@)->Some_0,
            article_id_spec(value@) == article_id_from(segs.deep_view(), i as int),
        decreases segs.len() - i,
    {
        assert(segs.deep_view()[i as int] == segs@[i as int]@);
        assert(segs.deep_view()[i + 1] == segs@[i + 1]@);
        if str_is(&segs[i], "a") && !segs[i + 1].as_str().is_empty() {
            return Some(segs[i + 1].clone());
        }
        i = i + 1;
    }
    None
}

/// Whether a string holds exactly the given text.
fn str_is(s: &String, t: &str) -> (r: bool)
    ensures
        r == (s@ == t@),
{
    crate::text::str_eq(s.as_str(), t)
}

/// The characters that remain once every leading and trailing `c` is removed
/// (`str::trim_matches` with one character).
pub open spec fn trim_char(s: Seq<char>, c: char) -> Seq<char>
    decreases s.len(),
{
    if s.len() > 0 && s[0] == c {
        trim_char(s.drop_first(), c)
    } else if s.len() > 0 && s.last() == c {
        trim_char(s.drop_last(), c)
    } else {
        s
    }
}

fn trim_char_exec(s: &Vec<char>, c: char) -> (r: Vec<char>)
    ensures
        r@ == trim_char(s@, c),
{
    let mut i: usize = 0;
    let mut j: usize = s.len();
    assert(s@.subrange(0, s.len() as int) == s@);
    while i < j && (s[i] == c || s[j - 1] == c)
        invariant
            i <= j <= s.len(),
            trim_char(s@, c) == trim_char(s@.subrange(i as int, j as int), c),
        decreases j - i,
    {
        let ghost t = s@.subrange(i as int, j as int);
        if s[i] == c {
            assert(t.drop_first() == s@.subrange(i + 1, j as int));
            i = i + 1;
        } else {
            assert(t.drop_last() == s@.subrange(i as int, j - 1));
            j = j - 1;
        }
    }
    crate::text::copy_range(s, i, j)
}

/// An article target given by the user, as `(article ID, address)`: an
/// `http(s)://` address must carry an ID; otherwise the trimmed text with
/// surrounding `/` removed is the ID, and the address is `/a/<ID>` on the
/// site.
pub open spec fn article_target_spec(base_url: Seq<char>, target: Seq<char>) -> Result<(Seq<char>, Seq<char>), (ParseErrorKind, Seq<char>)> {
    if has_prefix(target, "http://"@) || has_prefix(target, "https://"@) {
        match article_id_spec(target) {
            Some(id) => Ok((id, target)),
            None => Err((ParseErrorKind::ArticleUrlWithoutId, seq![])),
        }
    } else {
        let id = trim_char(trim(target), '/');
        if id.len() == 0 || id.contains('/') {
            Err((ParseErrorKind::InvalidArticleId, target))
        } else if !url_parses(base_url) {
            Err((ParseErrorKind::BaseUrlUnparsable, seq![]))
        } else {
            match url_joined(base_url, "/a/"@ + id) {
                Ok(u) => Ok((id, u)),
                Err(m) => Err((ParseErrorKind::UrlJoin, m)),
            }
        }
    }
}


/// Normalises an article target into `(article ID, address)`.
pub fn normalize_article_target(base_url: &str, target: &str) -> (r: Result<(String, String), ParseError>)
    ensures
        match r {
            Ok((id, url)) => article_target_spec(base_url@, target@) == Ok::<(Seq<char>, Seq<char>), (ParseErrorKind, Seq<char>)>((id@, url@)),
            Err(e) => article_target_spec(base_url@, target@) == Err::<(Seq<char>, Seq<char>), (ParseErrorKind, Seq<char>)>(perr(e)),
        },
{
    let tc = chars_of(target);
    if starts_with_chars(&tc, "http://") || starts_with_chars(&tc, "https://") {
        return match article_id_from_url(target) {
            Some(id) => Ok((id, target.to_owned())),
            None => Err(error0(ParseErrorKind::ArticleUrlWithoutId)),
        };
    }
    let trimmed = trim_chars(&tc);
    let idc = trim_char_exec(&trimmed, '/');
    if idc.len() == 0 || contains_char(&idc, '/') {
        return Err(error(ParseErrorKind::InvalidArticleId, target));
    }
    if !url_is_valid(base_url) {
        return Err(error0(ParseErrorKind::BaseUrlUnparsable));
    }
    let id = string_from_chars(&idc);
    let mut path: Vec<char> = Vec::new();
    push_str(&mut path, "/a/");
    push_str(&mut path, id.as_str());
    let path = string_from_chars(&path);
    match url_join(base_url, path.as_str()) {
        Ok(u) => Ok((id, u)),
        Err(m) => Err(error(ParseErrorKind::UrlJoin, m.as_str())),
    }
}

/// The first segment after a `blog` segment that is a non-empty run of
/// ASCII digits, searching adjacent pairs from `i` on.
pub open spec fn blog_id_from(segs: Seq<Seq<char>>, i: int) -> Option<Seq<char>>
    decreases segs.len() - i,
{
    if i < 0 || i + 1 >= segs.len() {
        None
    } else if segs[i] == "blog"@ && segs[i + 1].len() > 0 && (forall|k: int| 0 <= k < segs[i + 1].len() ==> is_digit(#[trigger] segs[i + 1][k])) {
        Some(segs[i + 1])
    } else {
        blog_id_from(segs, i + 1)
    }
}

/// An author given as a numeric ID, or as a blog address with
/// `/blog/<numeric-id>`.
pub open spec fn author_id_spec(value: Seq<char>) -> Result<Seq<char>, (ParseErrorKind, Seq<char>)> {
    let t = trim(value);
    if t.len() > 0 && (forall|k: int| 0 <= k < t.len() ==> is_digit(#[trigger] t[k])) {
        Ok(t)
    } else if !url_parses(t) {
        Err((ParseErrorKind::AuthorNotIdOrUrl, seq![]))
    } else {
        match url_segments(t) {
            None => Err((ParseErrorKind::InvalidBlogUrl, seq![])),
            Some(segs) => match blog_id_from(segs, 0) {
                Some(id) => Ok(id),
                None => Err((ParseErrorKind::BlogUrlWithoutId, seq![])),
            },
        }
    }
}

/// Normalises an author given as a numeric ID or a blog address into the ID.
pub fn normalize_author_id(value: &str) -> (r: Result<String, ParseError>)
    ensures
        res_view(r) == author_id_spec(value@),
{
    let tc = trim_str_chars(value);
    let t = string_from_chars(&tc);
    if tc.len() > 0 && all_digits(&tc) {
        return Ok(t);
    }
    if !url_is_valid(t.as_str()) {
        return Err(error0(ParseErrorKind::AuthorNotIdOrUrl));
    }
    let segs = match url_path_segments(t.as_str()) {
        Some(s) => s,
        None => return Err(error0(ParseErrorKind::InvalidBlogUrl)),
    };
    let mut i: usize = 0;
    while segs.len() > 0 && i < segs.len() - 1
        invariant
            i <= segs.len(),
            t@ == trim(value@),
            url_segments(t@) == Some(segs.deep_view()),
            url_parses(t@),
            !(t@.len() > 0 && (forall|k: int| 0 <= k < t@.len() ==> is_digit(#[trigger] t@[k]))),
            blog_id_from(segs.deep_view(), 0) == blog_id_from(segs.deep_view(), i as int),
        decreases segs.len() - i,
    {
        assert(segs.deep_view()[i as int] == segs@[i as int]@);
        assert(segs.deep_view()[i + 1] == segs@[i + 1]@);
        if str_is(&segs[i], "blog") {
            let next = chars_of(segs[i + 1].as_str());
            if next.len() > 0 && all_digits(&next) {
                let ghost sv = segs.deep_view();
                assert(forall|k: int| 0 <= k < sv[i + 1].len() ==> is_digit(#[trigger] sv[i + 1][k])) by {
                    assert(sv[i + 1] == next@);
                }
                assert(blog_id_from(sv, i as int) == Some(sv[i + 1]));
                return Ok(segs[i + 1].clone());
            }
        }
        i = i + 1;
    }
    Err(error0(ParseErrorKind::BlogUrlWithoutId))
}

fn trim_str_chars(s: &str) -> (r: Vec<char>)
    ensures
        r@ == trim(s@),
{
    crate::text::trim_str(s)
}

/// Lower-case hexadecimal digit of a value below sixteen.
pub open spec fn hex_digit(d: int) -> char {
    if d < 10 {
        crate::text::digit_char(d as nat)
    } else if d == 10 {
        'a'
    } else if d == 11 {
        'b'
    } else if d == 12 {
        'c'
    } else if d == 13 {
        'd'
    } else if d == 14 {
        'e'
    } else {
        'f'
    }
}

/// Lower-case hexadecimal notation of bytes, two digits each.
pub open spec fn hex_lower(b: Seq<u8>) -> Seq<char>
    decreases b.len(),
{
    if b.len() == 0 {
        seq![]
    } else {
        hex_lower(b.drop_last()) + seq![hex_digit(b.last() as int / 16), hex_digit(b.last() as int % 16)]
    }
}

fn hex_char(d: u8) -> (c: char)
    requires
        d < 16,
    ensures
        c == hex_digit(d as int),
{
    if d < 10 {
        let mut v: Vec<char> = Vec::new();
        push_decimal_u64(&mut v, d as u64);
        assert(v@ == seq![crate::text::digit_char(d as nat)]);
        v[0]
    } else if d == 10 {
        'a'
    } else if d == 11 {
        'b'
    } else if d == 12 {
        'c'
    } else if d == 13 {
        'd'
    } else if d == 14 {
        'e'
    } else {
        'f'
    }
}

/// The content hash of a text: the SHA-256 digest of its UTF-8 bytes, in
/// lower-case hexadecimal.
pub open spec fn content_hash_spec(text: Seq<char>) -> Seq<char> {
    hex_lower(sha256(vstd::utf8::encode_utf8(text)))
}

/// The content hash of a text.
pub fn content_hash(text: &str) -> (r: String)
    ensures
        r@ == content_hash_spec(text@),
        r@.len() == 64,
{
    let digest = sha256_digest(text.as_bytes());
    let mut out: Vec<char> = Vec::new();
    let mut i: usize = 0;
    while i < digest.len()
        invariant
            i <= digest.len(),
            out@ == hex_lower(digest@.take(i as int)),
        decreases digest.len() - i,
    {
        let b = digest[i];
        assert(digest@.take(i + 1).drop_last() == digest@.take(i as int));
        out.push(hex_char(b / 16));
        out.push(hex_char(b % 16));
        i = i + 1;
        assert(out@ =~= hex_lower(digest@.take(i as int)));
    }
    assert(digest@.take(digest.len() as int) == digest@);
    proof {
        lemma_hex_len(digest@);
    }
    string_from_chars(&out)
}

proof fn lemma_hex_len(b: Seq<u8>)
    ensures
        hex_lower(b).len() == 2 * b.len(),
    decreases b.len(),
{
    if b.len() > 0 {
        lemma_hex_len(b.drop_last());
    }
}


/// The body containers that article pages use, most specific first.
pub open spec fn body_selectors() -> Seq<Seq<char>> {
    seq![
        ".article-text.p_coten"@,
        ".stockDetailContent"@,
        ".article-content"@,
        ".stock_detail"@,
        "article[itemprop='articleBody']"@,
    ]
}

/// The label reported for each body container.
pub open spec fn body_label(i: int) -> Seq<char> {
    if i == 0 {
        "article-text.p_coten"@
    } else if i == 1 {
        "stockDetailContent"@
    } else if i == 2 {
        "article-content"@
    } else if i == 3 {
        "stock_detail"@
    } else {
        "article[itemprop=articleBody]"@
    }
}

/// The lookup of selector `i`; no entry counts as no match.
pub open spec fn lookup_at(m: Seq<Option<Option<ElementView>>>, i: int) -> Option<Option<ElementView>> {
    if 0 <= i < m.len() {
        m[i]
    } else {
        Some(None)
    }
}

/// The first body container from `i` on whose text is not empty, with its
/// index.
pub open spec fn pick_body(m: Seq<Option<Option<ElementView>>>, i: int) -> Result<(Seq<char>, int), (ParseErrorKind, Seq<char>)>
    decreases 5 - i,
{
    if i >= 5 {
        Err((ParseErrorKind::NoBodyContainer, seq![]))
    } else {
        match lookup_at(m, i) {
            None => Err((ParseErrorKind::InvalidSelector, seq![])),
            Some(None) => pick_body(m, i + 1),
            Some(Some(e)) => if element_text_spec(e.texts).len() > 0 {
                Ok((element_text_spec(e.texts), i))
            } else {
                pick_body(m, i + 1)
            },
        }
    }
}

/// The body of an article page: with script, style and noscript removed,
/// the text of the first known container that has text, and the index of
/// that container.
pub open spec fn article_body_spec(html: Seq<char>) -> Result<(Seq<char>, int), (ParseErrorKind, Seq<char>)> {
    match stripped_spec(html) {
        None => Err((ParseErrorKind::InvalidPattern, seq![])),
        Some(c) => pick_body(first_matches(c, body_selectors()), 0),
    }
}

fn lookup<'a>(m: &'a Vec<Option<Option<ScrapedElement>>>, i: usize) -> (r: Option<Option<&'a ScrapedElement>>)
    ensures
        match r {
            None => lookup_at(lookups_view(m@), i as int) is None,
            Some(None) => lookup_at(lookups_view(m@), i as int) == Some(None::<ElementView>),
            Some(Some(e)) => lookup_at(lookups_view(m@), i as int) == Some(Some(e@)),
        },
{
    if i < m.len() {
        match &m[i] {
            None => None,
            Some(None) => Some(None),
            Some(Some(e)) => Some(Some(e)),
        }
    } else {
        Some(None)
    }
}

/// Extracts an article's body text and the label of its container.
pub fn extract_article_body(html: &str) -> (r: Result<(String, &'static str), ParseError>)
    ensures
        match r {
            Ok((body, label)) => article_body_spec(html@) matches Ok((b, i)) && b == body@
                && label@ == body_label(i),
            Err(e) => article_body_spec(html@) == Err::<(Seq<char>, int), (ParseErrorKind, Seq<char>)>(perr(e)),
        },
{
    let cleaned = match strip_non_content_tags(html) {
        Some(c) => c,
        None => return Err(error0(ParseErrorKind::InvalidPattern)),
    };
    let selectors: Vec<&str> = vec![
        ".article-text.p_coten",
        ".stockDetailContent",
        ".article-content",
        ".stock_detail",
        "article[itemprop='articleBody']",
    ];
    assert(strs_view(selectors@) =~= body_selectors());
    let found = select_first_each(cleaned.as_str(), &selectors);
    let labels: Vec<&'static str> = vec![
        "article-text.p_coten",
        "stockDetailContent",
        "article-content",
        "stock_detail",
        "article[itemprop=articleBody]",
    ];
    let ghost m = lookups_view(found@);
    let mut i: usize = 0;
    while i < 5
        invariant
            i <= 5,
            labels@.len() == 5,
            forall|k: int| 0 <= k < 5 ==> (#[trigger] labels@[k])@ == body_label(k),
            m == lookups_view(found@),
            article_body_spec(html@) == pick_body(m, i as int),
        decreases 5 - i,
    {
        match lookup(&found, i) {
            None => return Err(error0(ParseErrorKind::InvalidSelector)),
            Some(None) => {},
            Some(Some(e)) => {
                let text = element_text(&e.texts);
                if !text.as_str().is_empty() {
                    return Ok((text, labels[i]));
                }
            },
        }
        i = i + 1;
    }
    Err(error0(ParseErrorKind::NoBodyContainer))
}

/// Selectors that may hold an article's title.
pub open spec fn title_selectors() -> Seq<Seq<char>> {
    seq!["h1"@, ".article-title"@, ".article_tittle h1"@, "meta[property='og:title']"@, "title"@]
}

/// Selectors that may hold an article's author.
pub open spec fn author_selectors() -> Seq<Seq<char>> {
    seq![".article-author"@, ".author-name"@, ".p_author"@, "meta[name='author']"@]
}

/// The metadata value of an element: its `content` attribute in inline form
/// when that is not empty, else its text in inline form.
pub open spec fn meta_value(e: ElementView) -> Seq<char> {
    match e.content {
        Some(c) if clean_inline(c).len() > 0 => clean_inline(c),
        _ => clean_inline(join(e.texts, seq![' '])),
    }
}

/// The first non-empty metadata value among selectors `i` to `n - 1`;
/// selectors that do not parse or match are passed over.
pub open spec fn first_meta(m: Seq<Option<Option<ElementView>>>, i: int, n: int) -> Option<Seq<char>>
    decreases n - i,
{
    if i >= n {
        None
    } else {
        match lookup_at(m, i) {
            Some(Some(e)) if meta_value(e).len() > 0 => Some(meta_value(e)),
            _ => first_meta(m, i + 1, n),
        }
    }
}

fn meta_value_exec(e: &ScrapedElement) -> (r: Vec<char>)
    ensures
        r@ == meta_value(e@),
{
    if let Some(c) = &e.content {
        let cc = chars_of(c.as_str());
        let v = clean_inline_chars(&cc);
        if v.len() > 0 {
            return v;
        }
    }
    clean_fragments(&e.texts)
}

fn first_meta_exec(html: &str, selectors: &Vec<&str>) -> (r: Option<String>)
    ensures
        r.deep_view() == first_meta(first_matches(html@, strs_view(selectors@)), 0, selectors.len() as int),
{
    let found = select_first_each(html, selectors);
    let ghost m = first_matches(html@, strs_view(selectors@));
    let mut i: usize = 0;
    while i < selectors.len()
        invariant
            i <= selectors.len(),
            m == lookups_view(found@),
            m == first_matches(html@, strs_view(selectors@)),
            first_meta(m, 0, selectors.len() as int) == first_meta(m, i as int, selectors.len() as int),
        decreases selectors.len() - i,
    {
        if let Some(Some(e)) = lookup(&found, i) {
            let v = meta_value_exec(e);
            if v.len() > 0 {
                assert(lookup_at(m, i as int) == Some(Some(e@)));
                assert(meta_value(e@).len() > 0);
                assert(first_meta(m, i as int, selectors.len() as int) == Some(meta_value(e@)));
                return Some(string_from_chars(&v));
            }
        }
        i = i + 1;
    }
    None
}

/// An article page's title and author, each the first non-empty value among
/// its selectors.
pub fn extract_article_metadata(html: &str) -> (r: (Option<String>, Option<String>))
    ensures
        r.0.deep_view() == first_meta(first_matches(html@, title_selectors()), 0, 5),
        r.1.deep_view() == first_meta(first_matches(html@, author_selectors()), 0, 4),
{
    let titles: Vec<&str> = vec!["h1", ".article-title", ".article_tittle h1", "meta[property='og:title']", "title"];
    assert(strs_view(titles@) =~= title_selectors());
    let authors: Vec<&str> = vec![".article-author", ".author-name", ".p_author", "meta[name='author']"];
    assert(strs_view(authors@) =~= author_selectors());
    (first_meta_exec(html, &titles), first_meta_exec(html, &authors))
}

/// Shortest body, in characters, that counts as parsed.
pub open spec fn min_body_chars() -> nat {
    20
}

/// The error recorded for a body that is too short.
pub open spec fn too_short_message(n: nat) -> Seq<char> {
    "body container found but only "@ + dec_nat(n) + " characters were extracted"@
}

/// An article after its page was fetched with `http_status` and its body
/// parsed: the status and a fetch time are set; a body found is stored with
/// its hash and is `parsed` from twenty characters on, `too_short` below;
/// without a body the status is `missing_body` with the reason.
pub open spec fn applied_body(a: ArticleView, html: Seq<char>, http_status: u16, fetched_at: Option<Seq<char>>) -> ArticleView {
    match article_body_spec(html) {
        Ok((body, _)) => ArticleView {
            http_status: Some(http_status),
            fetched_at,
            content_hash: Some(content_hash_spec(body)),
            body_text: Some(body),
            parse_status: if body.len() < min_body_chars() { "too_short"@ } else { "parsed"@ },
            error: if body.len() < min_body_chars() { Some(too_short_message(body.len())) } else { None },
            ..a
        },
        Err((kind, detail)) => ArticleView {
            http_status: Some(http_status),
            fetched_at,
            parse_status: "missing_body"@,
            error: Some(parse_error_message(kind, detail)),
            ..a
        },
    }
}

/// A fetched article counts as parsed exactly when a body container with at
/// least twenty characters of text was found.
pub proof fn lemma_parsed_iff_long_body(a: ArticleView, html: Seq<char>, http_status: u16, fetched_at: Option<Seq<char>>)
    ensures
        (applied_body(a, html, http_status, fetched_at).parse_status == status_parsed()) == (
        article_body_spec(html) is Ok && article_body_spec(html)->Ok_0.0.len() >= min_body_chars()),
{
    reveal_strlit("parsed");
    reveal_strlit("too_short");
    reveal_strlit("missing_body");
    assert("too_short"@.len() != status_parsed().len());
    assert("missing_body"@.len() != status_parsed().len());
}

/// Applies a fetched article page to the article, with the current time in
/// UTC, as RFC 3339 text, as fetch time.
pub fn apply_article_body(article: &mut Article, html: &str, http_status: u16)
    ensures
        final(article)@ == applied_body(old(article)@, html@, http_status, final(article)@.fetched_at),
        final(article).fetched_at matches Some(t) && is_utc_rfc3339(t@),
{
    article.http_status = Some(http_status);
    article.fetched_at = Some(now_utc_rfc3339());
    match extract_article_body(html) {
        Ok((body, _label)) => {
            let char_count = chars_of(body.as_str()).len();
            article.content_hash = Some(content_hash(body.as_str()));
            article.body_text = Some(body);
            if char_count < 20 {
                article.parse_status = "too_short".to_owned();
                let mut msg: Vec<char> = Vec::new();
                push_str(&mut msg, "body container found but only ");
                push_decimal_u64(&mut msg, char_count as u64);
                push_str(&mut msg, " characters were extracted");
                article.error = Some(string_from_chars(&msg));
            } else {
                article.parse_status = "parsed".to_owned();
                article.error = None;
            }
        },
        Err(e) => {
            article.parse_status = "missing_body".to_owned();
            article.error = Some(e.message());
        },
    }
}

} // verus!
