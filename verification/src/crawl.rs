//! The decisions of a crawl run, apart from its requests and storage:
//! argument checks, list addresses, de-duplication, selection of VIP
//! articles, run counters, the order of fetched bodies and the final status.

use vstd::prelude::*;

use crate::model::{articles_view, status_parsed, Article, ArticleView, RunStats};
use crate::parser::{url_is_valid, url_join, url_joined, url_parses};
use crate::text::{chars_of, dec_nat, push_decimal_u64, push_str, str_eq, string_from_chars};

verus! {

/// A command-line argument out of range.
#[derive(Debug, Clone, Copy, PartialEq, Eq, Structural)]
pub enum ArgError {
    /// `--pages` is zero.
    ZeroPages,
    /// `--concurrency` is zero.
    ZeroConcurrency,
}

/// The message of an argument error.
pub open spec fn arg_error_message(e: ArgError) -> Seq<char> {
    match e {
        ArgError::ZeroPages => "--pages must be at least 1"@,
        ArgError::ZeroConcurrency => "--concurrency must be at least 1"@,
    }
}

impl ArgError {
    /// The error's message.
    pub fn message(&self) -> (r: String)
        ensures
            r@ == arg_error_message(*self),
    {
        match self {
            ArgError::ZeroPages => "--pages must be at least 1".to_owned(),
            ArgError::ZeroConcurrency => "--concurrency must be at least 1".to_owned(),
        }
    }
}

/// Checks the page count and the concurrency of a crawl: both must be at
/// least one, pages checked first.
pub fn validate_common(pages: u32, concurrency: usize) -> (r: Result<(), ArgError>)
    ensures
        r == if pages == 0 {
            Err(ArgError::ZeroPages)
        } else if concurrency == 0 {
            Err(ArgError::ZeroConcurrency)
        } else {
            Ok(())
        },
{
    if pages == 0 {
        return Err(ArgError::ZeroPages);
    }
    if concurrency == 0 {
        return Err(ArgError::ZeroConcurrency);
    }
    Ok(())
}

/// A path resolved against the site address, or the reason it could not be.
pub open spec fn join_base_spec(base_url: Seq<char>, path: Seq<char>) -> Result<Seq<char>, Seq<char>> {
    if !url_parses(base_url) {
        Err("invalid --base-url"@)
    } else {
        url_joined(base_url, path)
    }
}

/// Resolves a path against the site address.
pub fn join_base(base_url: &str, path: &str) -> (r: Result<String, String>)
    ensures
        match r {
            Ok(u) => join_base_spec(base_url@, path@) == Ok::<Seq<char>, Seq<char>>(u@),
            Err(m) => join_base_spec(base_url@, path@) == Err::<Seq<char>, Seq<char>>(m@),
        },
{
    if !url_is_valid(base_url) {
        return Err("invalid --base-url".to_owned());
    }
    url_join(base_url, path)
}

/// The path of hot list page `page`.
pub open spec fn hot_list_path_spec(page: nat) -> Seq<char> {
    "/dianzan/"@ + dec_nat(page) + "-1"@
}

/// The path of hot list page `page`.
pub fn hot_list_path(page: u32) -> (r: String)
    ensures
        r@ == hot_list_path_spec(page as nat),
{
    let mut p: Vec<char> = Vec::new();
    push_str(&mut p, "/dianzan/");
    push_decimal_u64(&mut p, page as u64);
    push_str(&mut p, "-1");
    string_from_chars(&p)
}

/// The path of an author's blog list page: the blog itself for the first
/// page, with a `page` query after.
pub open spec fn author_list_path_spec(author_id: Seq<char>, page: nat) -> Seq<char> {
    if page == 1 {
        "/blog/"@ + author_id
    } else {
        "/blog/"@ + author_id + "?page="@ + dec_nat(page)
    }
}

/// The path of an author's blog list page.
pub fn author_list_path(author_id: &str, page: u32) -> (r: String)
    ensures
        r@ == author_list_path_spec(author_id@, page as nat),
{
    let mut p: Vec<char> = Vec::new();
    push_str(&mut p, "/blog/");
    push_str(&mut p, author_id);
    if page != 1 {
        push_str(&mut p, "?page=");
        push_decimal_u64(&mut p, page as u64);
    }
    string_from_chars(&p)
}

/// A file name for a raw page: letters, digits, `-` and `_` are kept, any
/// other character becomes `_`, and `.html` is appended.
pub open spec fn raw_file_name_spec(name: Seq<char>) -> Seq<char> {
    name.map_values(|c: char| if safe_char(c) { c } else { '_' }) + ".html"@
}

/// Characters kept in raw file names.
pub open spec fn safe_char(c: char) -> bool {
    ('a' <= c <= 'z') || ('A' <= c <= 'Z') || ('0' <= c <= '9') || c == '-' || c == '_'
}

/// The file name for a raw page.
pub fn raw_file_name(name: &str) -> (r: String)
    ensures
        r@ == raw_file_name_spec(name@),
{
    let cs = chars_of(name);
    let mut out: Vec<char> = Vec::new();
    let mut i: usize = 0;
    while i < cs.len()
        invariant
            i <= cs.len(),
            cs@ == name@,
            out@ == cs@.take(i as int).map_values(|c: char| if safe_char(c) { c } else { '_' }),
        decreases cs.len() - i,
    {
        let c = cs[i];
        let keep = ('a' <= c && c <= 'z') || ('A' <= c && c <= 'Z') || ('0' <= c && c <= '9') || c
            == '-' || c == '_';
        out.push(if keep { c } else { '_' });
        i = i + 1;
        assert(out@ =~= cs@.take(i as int).map_values(|c: char| if safe_char(c) { c } else { '_' }));
    }
    assert(cs@.take(cs.len() as int) == cs@);
    push_str(&mut out, ".html");
    string_from_chars(&out)
}

/// An error to record for a run.
#[derive(Debug)]
pub struct ErrorRecord {
    pub stage: String,
    pub target: String,
    pub message: String,
    pub http_status: Option<i64>,
}

/// The plain content of an `ErrorRecord`.
pub struct ErrorRecordView {
    pub stage: Seq<char>,
    pub target: Seq<char>,
    pub message: Seq<char>,
    pub http_status: Option<i64>,
}

impl View for ErrorRecord {
    type V = ErrorRecordView;

    open spec fn view(&self) -> ErrorRecordView {
        ErrorRecordView {
            stage: self.stage@,
            target: self.target@,
            message: self.message@,
            http_status: self.http_status,
        }
    }
}

/// The view of an optional error record.
pub open spec fn opt_err(o: Option<ErrorRecord>) -> Option<ErrorRecordView> {
    match o {
        Some(e) => Some(e@),
        None => None,
    }
}

/// Articles whose IDs were not seen yet, in order, and the IDs seen after
/// them: each article is kept when its ID is new, and its ID is then seen.
pub open spec fn unseen(seen: Seq<Seq<char>>, found: Seq<ArticleView>) -> (Seq<Seq<char>>, Seq<ArticleView>)
    decreases found.len(),
{
    if found.len() == 0 {
        (seen, seq![])
    } else {
        let (s, f) = unseen(seen, found.drop_last());
        let a = found.last();
        if s.contains(a.article_id) {
            (s, f)
        } else {
            (s.push(a.article_id), f.push(a))
        }
    }
}

fn contains_string(v: &Vec<String>, s: &String) -> (r: bool)
    ensures
        r == v.deep_view().contains(s@),
{
    let mut i: usize = 0;
    while i < v.len()
        invariant
            i <= v.len(),
            forall|k: int| 0 <= k < i ==> v.deep_view()[k] != s@,
        decreases v.len() - i,
    {
        if str_eq(v[i].as_str(), s.as_str()) {
            assert(v.deep_view()[i as int] == s@);
            return true;
        }
        i = i + 1;
    }
    false
}

/// Keeps the articles whose IDs were not seen yet, and marks their IDs seen.
pub fn select_unseen(seen: &mut Vec<String>, found: Vec<Article>) -> (r: Vec<Article>)
    ensures
        (final(seen).deep_view(), articles_view(r@)) == unseen(old(seen).deep_view(), articles_view(found@)),
{
    let ghost s0 = seen.deep_view();
    let ghost fv = articles_view(found@);
    let mut out: Vec<Article> = Vec::new();
    let mut i: usize = 0;
    assert(fv.take(0) =~= Seq::<ArticleView>::empty());
    assert(articles_view(out@) =~= Seq::<ArticleView>::empty());
    while i < found.len()
        invariant
            i <= found.len(),
            fv == articles_view(found@),
            (seen.deep_view(), articles_view(out@)) == unseen(s0, fv.take(i as int)),
        decreases found.len() - i,
    {
        proof {
            assert(fv.take(i + 1).drop_last() == fv.take(i as int));
            assert(fv.take(i + 1).last() == found@[i as int]@);
        }
        if !contains_string(seen, &found[i].article_id) {
            let ghost ps = seen.deep_view();
            let ghost po = out@;
            seen.push(found[i].article_id.clone());
            out.push(found[i].copy());
            assert(seen.deep_view() =~= ps.push(found@[i as int].article_id@));
            assert(articles_view(out@) =~= articles_view(po).push(found@[i as int]@));
        }
        i = i + 1;
    }
    assert(fv.take(found.len() as int) == fv);
    out
}

/// The articles kept by `unseen` have distinct IDs, none of them seen
/// before, and the IDs seen after are those seen before and theirs.
pub proof fn lemma_unseen_distinct(seen: Seq<Seq<char>>, found: Seq<ArticleView>)
    ensures
        ({
            let (s, f) = unseen(seen, found);
            &&& forall|i: int, j: int| 0 <= i < j < f.len() ==> f[i].article_id != f[j].article_id
            &&& forall|i: int| 0 <= i < f.len() ==> !seen.contains(#[trigger] f[i].article_id)
            &&& s.len() == seen.len() + f.len()
            &&& forall|i: int| 0 <= i < seen.len() ==> s[i] == seen[i]
            &&& forall|i: int| 0 <= i < f.len() ==> s[seen.len() + i] == #[trigger] f[i].article_id
        }),
    decreases found.len(),
{
    if found.len() > 0 {
        lemma_unseen_distinct(seen, found.drop_last());
        let (s, f) = unseen(seen, found.drop_last());
        let a = found.last();
        if !s.contains(a.article_id) {
            assert forall|i: int| 0 <= i < f.len() implies f[i].article_id != a.article_id by {
                assert(s[seen.len() + i] == f[i].article_id);
            }
            assert forall|i: int| 0 <= i < seen.len() implies seen[i] != a.article_id by {
                assert(s[i] == seen[i]);
            }
        }
    }
}

/// Marks of a VIP candidate: elite or pinned.
pub open spec fn is_marked(a: ArticleView) -> bool {
    a.tags.contains("精华"@) || a.tags.contains("置顶"@)
}

/// The rank by which articles are ordered; an article without rank comes
/// last.
pub open spec fn rank_key(a: ArticleView) -> int {
    match a.source_rank {
        Some(r) => r as int,
        None => i64::MAX as int,
    }
}

/// `n` as the `as i64` conversion of a `usize` gives it.
pub open spec fn wrap_i64(n: int) -> int {
    if n > i64::MAX {
        n - 0x1_0000_0000_0000_0000
    } else {
        n
    }
}

/// The marked articles, in order.
pub open spec fn marked_articles(s: Seq<ArticleView>) -> Seq<ArticleView>
    decreases s.len(),
{
    if s.len() == 0 {
        seq![]
    } else if is_marked(s.last()) {
        marked_articles(s.drop_last()).push(s.last())
    } else {
        marked_articles(s.drop_last())
    }
}

/// An article with source `vip`.
pub open spec fn vip_view(a: ArticleView) -> ArticleView {
    ArticleView { source: "vip"@, ..a }
}

/// The articles, each with source `vip`.
pub open spec fn vip_views(s: Seq<ArticleView>) -> Seq<ArticleView>
    decreases s.len(),
{
    if s.len() == 0 {
        seq![]
    } else {
        vip_views(s.drop_last()).push(vip_view(s.last()))
    }
}

/// Up to `n` of the articles whose rank is at most `limit`, in order.
pub open spec fn top_ranked(s: Seq<ArticleView>, limit: int, n: nat) -> Seq<ArticleView>
    decreases s.len(),
{
    if s.len() == 0 || n == 0 {
        seq![]
    } else if rank_key(s[0]) <= limit {
        seq![s[0]] + top_ranked(s.drop_first(), limit, (n - 1) as nat)
    } else {
        top_ranked(s.drop_first(), limit, n)
    }
}

/// The VIP articles of an author: the elite or pinned ones; when there are
/// none and `fallback_top` is positive, up to that many of those ranked
/// within it; each with source `vip`.
pub open spec fn vip_selection(discovered: Seq<ArticleView>, fallback_top: nat) -> Seq<ArticleView> {
    let marked = marked_articles(discovered);
    let chosen = if marked.len() == 0 && fallback_top > 0 {
        top_ranked(discovered, wrap_i64(fallback_top as int), fallback_top)
    } else {
        marked
    };
    vip_views(chosen)
}

fn has_tag(a: &Article, tag: &str) -> (r: bool)
    ensures
        r == a@.tags.contains(tag@),
{
    let mut i: usize = 0;
    while i < a.tags.len()
        invariant
            i <= a.tags.len(),
            forall|k: int| 0 <= k < i ==> a@.tags[k] != tag@,
        decreases a.tags.len() - i,
    {
        if str_eq(a.tags[i].as_str(), tag) {
            assert(a@.tags[i as int] == tag@);
            return true;
        }
        i = i + 1;
    }
    false
}

fn as_vip(a: &Article) -> (r: Article)
    ensures
        r@ == vip_view(a@),
{
    let mut c = a.copy();
    c.source = "vip".to_owned();
    c
}

/// Selects the VIP articles of one author's discovered articles.
pub fn select_vip(discovered: &Vec<Article>, fallback_top: usize) -> (r: Vec<Article>)
    ensures
        articles_view(r@) == vip_selection(articles_view(discovered@), fallback_top as nat),
{
    let ghost dv = articles_view(discovered@);
    let mut marked: Vec<Article> = Vec::new();
    let mut i: usize = 0;
    assert(dv.take(0) =~= Seq::<ArticleView>::empty());
    assert(articles_view(marked@) =~= Seq::<ArticleView>::empty());
    while i < discovered.len()
        invariant
            i <= discovered.len(),
            dv == articles_view(discovered@),
            articles_view(marked@) == marked_articles(dv.take(i as int)),
        decreases discovered.len() - i,
    {
        proof {
            assert(dv.take(i + 1).drop_last() == dv.take(i as int));
            assert(dv.take(i + 1).last() == discovered@[i as int]@);
        }
        if has_tag(&discovered[i], "精华") || has_tag(&discovered[i], "置顶") {
            let ghost pm = marked@;
            marked.push(discovered[i].copy());
            assert(articles_view(marked@) =~= articles_view(pm).push(discovered@[i as int]@));
        }
        i = i + 1;
    }
    assert(dv.take(discovered.len() as int) == dv);
    let ghost chosen_spec = if marked_articles(dv).len() == 0 && fallback_top > 0 {
        top_ranked(dv, wrap_i64(fallback_top as int), fallback_top as nat)
    } else {
        marked_articles(dv)
    };
    let chosen: Vec<Article> = if marked.len() == 0 && fallback_top > 0 {
        let limit: i128 = if fallback_top as u128 > 9223372036854775807u128 {
            fallback_top as i128 - 0x1_0000_0000_0000_0000i128
        } else {
            fallback_top as i128
        };
        take_ranked(discovered, limit, fallback_top)
    } else {
        marked
    };
    let mut out: Vec<Article> = Vec::new();
    let mut j: usize = 0;
    while j < chosen.len()
        invariant
            j <= chosen.len(),
            articles_view(chosen@) == chosen_spec,
            articles_view(out@) == vip_views(chosen_spec.take(j as int)),
        decreases chosen.len() - j,
    {
        let v = as_vip(&chosen[j]);
        let ghost po = out@;
        out.push(v);
        proof {
            assert(chosen_spec.take(j + 1).drop_last() == chosen_spec.take(j as int));
            assert(chosen_spec.take(j + 1).last() == chosen@[j as int]@);
            assert(articles_view(out@) =~= articles_view(po).push(v@));
        }
        j = j + 1;
    }
    assert(chosen_spec.take(chosen.len() as int) == chosen_spec);
    out
}

fn take_ranked(s: &Vec<Article>, limit: i128, n: usize) -> (r: Vec<Article>)
    ensures
        articles_view(r@) == top_ranked(articles_view(s@), limit as int, n as nat),
{
    let ghost sv = articles_view(s@);
    let mut out: Vec<Article> = Vec::new();
    let mut i: usize = 0;
    let mut left: usize = n;
    assert(sv.skip(0) == sv);
    while i < s.len() && left > 0
        invariant
            i <= s.len(),
            sv == articles_view(s@),
            top_ranked(sv, limit as int, n as nat) == articles_view(out@) + top_ranked(sv.skip(i as int), limit as int, left as nat),
        decreases s.len() - i,
    {
        let key: i128 = match s[i].source_rank {
            Some(r) => r as i128,
            None => 9223372036854775807i128,
        };
        proof {
            assert(sv.skip(i as int)[0] == s@[i as int]@);
            assert(sv.skip(i as int).drop_first() == sv.skip(i + 1));
        }
        if key <= limit {
            let ghost po = out@;
            out.push(s[i].copy());
            left = left - 1;
            assert(articles_view(out@) =~= articles_view(po) + seq![s@[i as int]@]);
        }
        i = i + 1;
    }
    assert(top_ranked(sv.skip(i as int), limit as int, left as nat) =~= Seq::<ArticleView>::empty());
    out
}

proof fn lemma_marked_all_marked(s: Seq<ArticleView>)
    ensures
        forall|i: int| 0 <= i < marked_articles(s).len() ==> is_marked(#[trigger] marked_articles(s)[i]),
        marked_articles(s).len() <= s.len(),
    decreases s.len(),
{
    if s.len() > 0 {
        lemma_marked_all_marked(s.drop_last());
    }
}

proof fn lemma_top_ranked_bounds(s: Seq<ArticleView>, limit: int, n: nat)
    ensures
        forall|i: int| 0 <= i < top_ranked(s, limit, n).len() ==> rank_key(#[trigger] top_ranked(s, limit, n)[i]) <= limit,
        top_ranked(s, limit, n).len() <= n,
        top_ranked(s, limit, n).len() <= s.len(),
    decreases s.len(),
{
    if s.len() > 0 && n > 0 {
        if rank_key(s[0]) <= limit {
            lemma_top_ranked_bounds(s.drop_first(), limit, (n - 1) as nat);
            let t = top_ranked(s.drop_first(), limit, (n - 1) as nat);
            assert forall|i: int| 0 <= i < (seq![s[0]] + t).len() implies rank_key(#[trigger] (seq![s[0]] + t)[i]) <= limit by {
                if i > 0 {
                    assert((seq![s[0]] + t)[i] == t[i - 1]);
                }
            }
        } else {
            lemma_top_ranked_bounds(s.drop_first(), limit, n);
        }
    }
}

proof fn lemma_vip_views(s: Seq<ArticleView>)
    ensures
        vip_views(s).len() == s.len(),
        forall|i: int| 0 <= i < s.len() ==> #[trigger] vip_views(s)[i] == vip_view(s[i]),
    decreases s.len(),
{
    if s.len() > 0 {
        lemma_vip_views(s.drop_last());
    }
}

/// Every selected VIP article has source `vip`, and is elite or pinned
/// unless the author has no such article and a fallback is asked for; a
/// fallback takes at most `fallback_top` articles, each ranked within
/// `fallback_top`; and no more articles are selected than were discovered.
pub proof fn lemma_vip_selection_marked(discovered: Seq<ArticleView>, fallback_top: nat)
    ensures
        ({
            let sel = vip_selection(discovered, fallback_top);
            &&& sel.len() <= discovered.len()
            &&& forall|i: int| 0 <= i < sel.len() ==> (#[trigger] sel[i]).source == "vip"@
            &&& (fallback_top == 0 || marked_articles(discovered).len() > 0)
                ==> forall|i: int| 0 <= i < sel.len() ==> is_marked(#[trigger] sel[i])
            &&& (marked_articles(discovered).len() == 0 && fallback_top > 0) ==> {
                &&& sel.len() <= fallback_top
                &&& forall|i: int| 0 <= i < sel.len() ==> rank_key(#[trigger] sel[i]) <= fallback_top
            }
        }),
{
    let marked = marked_articles(discovered);
    lemma_marked_all_marked(discovered);
    lemma_top_ranked_bounds(discovered, wrap_i64(fallback_top as int), fallback_top);
    let chosen = if marked.len() == 0 && fallback_top > 0 {
        top_ranked(discovered, wrap_i64(fallback_top as int), fallback_top)
    } else {
        marked
    };
    lemma_vip_views(chosen);
    let sel = vip_selection(discovered, fallback_top);
    assert(sel == vip_views(chosen));
    assert forall|i: int| 0 <= i < sel.len() implies (#[trigger] sel[i]).source == "vip"@ by {
        assert(sel[i] == vip_view(chosen[i]));
    }
    if fallback_top == 0 || marked.len() > 0 {
        assert forall|i: int| 0 <= i < sel.len() implies is_marked(#[trigger] sel[i]) by {
            assert(sel[i] == vip_view(chosen[i]));
            assert(is_marked(chosen[i]));
        }
    }
    if marked.len() == 0 && fallback_top > 0 {
        assert forall|i: int| 0 <= i < sel.len() implies rank_key(#[trigger] sel[i]) <= fallback_top by {
            assert(sel[i] == vip_view(chosen[i]));
            assert(rank_key(chosen[i]) <= wrap_i64(fallback_top as int));
        }
    }
}

/// The final status of a run.
#[derive(Debug, Clone, Copy, PartialEq, Eq, Structural)]
pub enum RunStatus {
    Success,
    Partial,
    Failed,
}

/// A run succeeded without failures; it failed when nothing was discovered
/// or, with bodies attempted, none was parsed; otherwise it is partial.
pub open spec fn run_status_spec(s: RunStats) -> RunStatus {
    if s.failed_count == 0 {
        RunStatus::Success
    } else if s.discovered_count == 0 || (s.parsed_count == 0 && s.body_attempted_count > 0) {
        RunStatus::Failed
    } else {
        RunStatus::Partial
    }
}

/// The status text stored for a run.
pub open spec fn run_status_text(st: RunStatus) -> Seq<char> {
    match st {
        RunStatus::Success => "success"@,
        RunStatus::Partial => "partial"@,
        RunStatus::Failed => "failed"@,
    }
}

impl RunStatus {
    /// The status as stored.
    pub fn as_str(&self) -> (r: &'static str)
        ensures
            r@ == run_status_text(*self),
    {
        match self {
            RunStatus::Success => "success",
            RunStatus::Partial => "partial",
            RunStatus::Failed => "failed",
        }
    }
}

/// The status of a finished run.
pub fn run_status(stats: &RunStats) -> (r: RunStatus)
    ensures
        r == run_status_spec(*stats),
{
    if stats.failed_count == 0 {
        RunStatus::Success
    } else if stats.discovered_count == 0 || (stats.parsed_count == 0 && stats.body_attempted_count > 0) {
        RunStatus::Failed
    } else {
        RunStatus::Partial
    }
}

/// A run is a success exactly when nothing failed.
pub proof fn lemma_success_iff_no_failure(s: RunStats)
    ensures
        (run_status_spec(s) == RunStatus::Success) == (s.failed_count == 0),
{
}

/// A run with failures fails only when it discovered nothing, or attempted
/// bodies and parsed none; a run with failures that discovered articles and
/// parsed at least one body, or attempted none, is partial, whatever the
/// share of parsed bodies.
pub proof fn lemma_failed_or_partial(s: RunStats)
    requires
        s.failed_count != 0,
    ensures
        s.discovered_count == 0 ==> run_status_spec(s) == RunStatus::Failed,
        s.body_attempted_count > 0 && s.parsed_count == 0 ==> run_status_spec(s) == RunStatus::Failed,
        s.discovered_count != 0 && s.parsed_count != 0 ==> run_status_spec(s) == RunStatus::Partial,
        s.discovered_count != 0 && s.body_attempted_count <= 0 ==> run_status_spec(s) == RunStatus::Partial,
        run_status_spec(s) != RunStatus::Success,
{
}

/// The outcome of fetching and parsing one list page.
#[derive(Debug)]
pub enum ListPage {
    /// The page was fetched and parsed into these articles.
    Parsed(Vec<Article>),
    /// The page was fetched with this HTTP status but did not parse.
    ParseFailed { message: String, http_status: u16 },
    /// The page could not be fetched.
    FetchFailed { message: String },
}

/// What a run does after a list page: the new articles, the error to
/// record, and whether to stop reading pages.
#[derive(Debug)]
pub struct ListStep {
    pub fresh: Vec<Article>,
    pub error: Option<ErrorRecord>,
    pub stop: bool,
}

/// The counters after a list page: a fetched page counts as fetched, and a
/// failure as failed.
pub open spec fn stats_after_page(s: RunStats, fetched: bool, failed: bool) -> RunStats {
    RunStats {
        list_pages_fetched: (if fetched { s.list_pages_fetched + 1 } else { s.list_pages_fetched as int }) as i64,
        failed_count: (if failed { s.failed_count + 1 } else { s.failed_count as int }) as i64,
        ..s
    }
}

/// The counters that a list page outcome increments are below `i64::MAX`: a
/// fetched page counts as fetched, a failure as failed.
pub open spec fn page_room(s: RunStats, page: ListPageView) -> bool {
    match page {
        ListPageView::FetchFailed(_) => s.failed_count < i64::MAX,
        ListPageView::ParseFailed(_, _) => s.list_pages_fetched < i64::MAX && s.failed_count < i64::MAX,
        ListPageView::Parsed(_) => s.list_pages_fetched < i64::MAX,
    }
}

/// Whether the counters can take a list page outcome without overflow.
pub fn has_room_for_page(stats: &RunStats, page: &ListPage) -> (r: bool)
    ensures
        r == page_room(*stats, list_page_view(*page)),
{
    match page {
        ListPage::FetchFailed { .. } => stats.failed_count < i64::MAX,
        ListPage::ParseFailed { .. } => stats.list_pages_fetched < i64::MAX && stats.failed_count < i64::MAX,
        ListPage::Parsed(_) => stats.list_pages_fetched < i64::MAX,
    }
}

fn record(stage: &str, target: &str, message: &str, http_status: Option<i64>) -> (r: ErrorRecord)
    ensures
        r@ == (ErrorRecordView { stage: stage@, target: target@, message: message@, http_status }),
{
    ErrorRecord { stage: stage.to_owned(), target: target.to_owned(), message: message.to_owned(), http_status }
}

/// One list page of a crawl: a page that failed to fetch or parse is
/// counted and recorded under `<fetch_stage>` or `<parse_stage>`; the
/// articles of a parsed page that were not seen before are new; reading
/// stops after a fetch failure or an empty page when `stop_on_empty`.
pub open spec fn page_step_spec(s: RunStats, seen: Seq<Seq<char>>, page: ListPageView, url: Seq<char>, fetch_stage: Seq<char>, parse_stage: Seq<char>, stop_on_empty: bool) -> (RunStats, Seq<Seq<char>>, Seq<ArticleView>, Option<ErrorRecordView>, bool) {
    match page {
        ListPageView::FetchFailed(m) => (
            stats_after_page(s, false, true),
            seen,
            seq![],
            Some(ErrorRecordView { stage: fetch_stage, target: url, message: m, http_status: None }),
            stop_on_empty,
        ),
        ListPageView::ParseFailed(m, st) => (
            stats_after_page(s, true, true),
            seen,
            seq![],
            Some(ErrorRecordView { stage: parse_stage, target: url, message: m, http_status: Some(st as i64) }),
            false,
        ),
        ListPageView::Parsed(found) => (
            stats_after_page(s, true, false),
            unseen(seen, found).0,
            unseen(seen, found).1,
            None,
            stop_on_empty && found.len() == 0,
        ),
    }
}

/// The plain content of a `ListPage`.
pub enum ListPageView {
    Parsed(Seq<ArticleView>),
    ParseFailed(Seq<char>, u16),
    FetchFailed(Seq<char>),
}

/// The view of a list page outcome.
pub open spec fn list_page_view(p: ListPage) -> ListPageView {
    match p {
        ListPage::Parsed(v) => ListPageView::Parsed(articles_view(v@)),
        ListPage::ParseFailed { message, http_status } => ListPageView::ParseFailed(message@, http_status),
        ListPage::FetchFailed { message } => ListPageView::FetchFailed(message@),
    }
}

fn page_step(stats: &mut RunStats, seen: &mut Vec<String>, page: ListPage, url: &str, fetch_stage: &str, parse_stage: &str, stop_on_empty: bool) -> (r: ListStep)
    requires
        page_room(*old(stats), list_page_view(page)),
    ensures
        (*final(stats), final(seen).deep_view(), articles_view(r.fresh@), opt_err(r.error), r.stop)
            == page_step_spec(*old(stats), old(seen).deep_view(), list_page_view(page), url@, fetch_stage@, parse_stage@, stop_on_empty),
{
    match page {
        ListPage::FetchFailed { message } => {
            stats.failed_count = stats.failed_count + 1;
            let e = record(fetch_stage, url, message.as_str(), None);
            let r = ListStep { fresh: Vec::new(), error: Some(e), stop: stop_on_empty };
            assert(articles_view(r.fresh@) =~= Seq::<ArticleView>::empty());
            r
        },
        ListPage::ParseFailed { message, http_status } => {
            stats.list_pages_fetched = stats.list_pages_fetched + 1;
            stats.failed_count = stats.failed_count + 1;
            let e = record(parse_stage, url, message.as_str(), Some(http_status as i64));
            let r = ListStep { fresh: Vec::new(), error: Some(e), stop: false };
            assert(articles_view(r.fresh@) =~= Seq::<ArticleView>::empty());
            r
        },
        ListPage::Parsed(found) => {
            stats.list_pages_fetched = stats.list_pages_fetched + 1;
            let empty = found.len() == 0;
            let fresh = select_unseen(seen, found);
            ListStep { fresh, error: None, stop: stop_on_empty && empty }
        },
    }
}

/// One hot list page: failures are recorded under `fetch_list` and
/// `parse_list`, and reading always goes on.
pub fn hot_page_step(stats: &mut RunStats, seen: &mut Vec<String>, page: ListPage, url: &str) -> (r: ListStep)
    requires
        page_room(*old(stats), list_page_view(page)),
    ensures
        (*final(stats), final(seen).deep_view(), articles_view(r.fresh@), opt_err(r.error), r.stop)
            == page_step_spec(*old(stats), old(seen).deep_view(), list_page_view(page), url@, "fetch_list"@, "parse_list"@, false),
{
    page_step(stats, seen, page, url, "fetch_list", "parse_list", false)
}

/// One blog list page: failures are recorded under `fetch_author_list` and
/// `parse_author_list`; reading stops after a fetch failure or an empty
/// page.
pub fn author_page_step(stats: &mut RunStats, seen: &mut Vec<String>, page: ListPage, url: &str) -> (r: ListStep)
    requires
        page_room(*old(stats), list_page_view(page)),
    ensures
        (*final(stats), final(seen).deep_view(), articles_view(r.fresh@), opt_err(r.error), r.stop)
            == page_step_spec(*old(stats), old(seen).deep_view(), list_page_view(page), url@, "fetch_author_list"@, "parse_author_list"@, true),
{
    page_step(stats, seen, page, url, "fetch_author_list", "parse_author_list", true)
}

/// A failure is counted exactly when an error is recorded, on every list
/// page.
pub proof fn lemma_page_failure_recorded(s: RunStats, seen: Seq<Seq<char>>, page: ListPageView, url: Seq<char>, fs: Seq<char>, ps: Seq<char>, stop_on_empty: bool)
    requires
        page_room(s, page),
    ensures
        ({
            let (s2, _, _, e, _) = page_step_spec(s, seen, page, url, fs, ps, stop_on_empty);
            &&& (e is Some) == (s2.failed_count == s.failed_count + 1)
            &&& (e is None) == (s2.failed_count == s.failed_count)
        }),
{
}

/// The error recorded for an article whose body was not parsed.
pub open spec fn body_error(a: ArticleView, stage: Seq<char>, fallback: Seq<char>) -> ErrorRecordView {
    ErrorRecordView {
        stage,
        target: a.url,
        message: match a.error {
            Some(e) => e,
            None => fallback,
        },
        http_status: match a.http_status {
            Some(h) => Some(h as i64),
            None => None,
        },
    }
}

/// The counters after one fetched body: a response counts as fetched; a
/// parsed body as parsed, anything else as failed with an error under
/// `parse_body`.
pub open spec fn body_step_spec(s: RunStats, a: ArticleView) -> (RunStats, Option<ErrorRecordView>) {
    let parsed = a.parse_status == status_parsed();
    (
        RunStats {
            body_fetched_count: (if a.http_status is Some { s.body_fetched_count + 1 } else { s.body_fetched_count as int }) as i64,
            parsed_count: (if parsed { s.parsed_count + 1 } else { s.parsed_count as int }) as i64,
            failed_count: (if parsed { s.failed_count as int } else { s.failed_count + 1 }) as i64,
            ..s
        },
        if parsed { None } else { Some(body_error(a, "parse_body"@, "article body failed"@)) },
    )
}

fn body_error_exec(a: &Article, stage: &str, fallback: &str) -> (r: ErrorRecord)
    ensures
        r@ == body_error(a@, stage@, fallback@),
{
    let message = match &a.error {
        Some(e) => e.clone(),
        None => fallback.to_owned(),
    };
    let http_status = match a.http_status {
        Some(h) => Some(h as i64),
        None => None,
    };
    ErrorRecord { stage: stage.to_owned(), target: a.url.clone(), message, http_status }
}

/// The counters that a fetched body increments are below `i64::MAX`.
pub open spec fn body_room(s: RunStats, a: ArticleView) -> bool {
    &&& a.http_status is Some ==> s.body_fetched_count < i64::MAX
    &&& a.parse_status == status_parsed() ==> s.parsed_count < i64::MAX
    &&& a.parse_status != status_parsed() ==> s.failed_count < i64::MAX
}

/// Whether the counters can take a fetched body without overflow.
pub fn has_room_for_body(stats: &RunStats, article: &Article) -> (r: bool)
    ensures
        r == body_room(*stats, article@),
{
    let fetched_ok = article.http_status.is_none() || stats.body_fetched_count < i64::MAX;
    if article.body_succeeded() {
        fetched_ok && stats.parsed_count < i64::MAX
    } else {
        fetched_ok && stats.failed_count < i64::MAX
    }
}

/// Counts one fetched body and gives the error to record, if any.
pub fn body_result_step(stats: &mut RunStats, article: &Article) -> (r: Option<ErrorRecord>)
    requires
        body_room(*old(stats), article@),
    ensures
        (*final(stats), opt_err(r)) == body_step_spec(*old(stats), article@),
{
    if article.http_status.is_some() {
        stats.body_fetched_count = stats.body_fetched_count + 1;
    }
    if article.body_succeeded() {
        stats.parsed_count = stats.parsed_count + 1;
        None
    } else {
        stats.failed_count = stats.failed_count + 1;
        Some(body_error_exec(article, "parse_body", "article body failed"))
    }
}

/// Each fetched body is counted once, as parsed or as failed, and an error
/// is recorded exactly when it failed; the other counters stay.
pub proof fn lemma_body_counted_once(s: RunStats, a: ArticleView)
    requires
        body_room(s, a),
    ensures
        ({
            let (s2, e) = body_step_spec(s, a);
            &&& s2.parsed_count + s2.failed_count == s.parsed_count + s.failed_count + 1
            &&& (e is Some) == (s2.failed_count == s.failed_count + 1)
            &&& s2.body_fetched_count <= s.body_fetched_count + 1
            &&& s2.requested_pages == s.requested_pages
            &&& s2.list_pages_fetched == s.list_pages_fetched
            &&& s2.discovered_count == s.discovered_count
            &&& s2.body_attempted_count == s.body_attempted_count
        }),
{
}

/// The counters and error of a single-article run: one page requested, one
/// article discovered and attempted, fetched when it has an HTTP status,
/// parsed or failed with an error under `article`.
pub open spec fn article_run_spec(a: ArticleView) -> (RunStats, Option<ErrorRecordView>) {
    let parsed = a.parse_status == status_parsed();
    (
        RunStats {
            requested_pages: 1,
            list_pages_fetched: 0,
            discovered_count: 1,
            body_attempted_count: 1,
            body_fetched_count: if a.http_status is Some { 1 } else { 0 },
            parsed_count: if parsed { 1 } else { 0 },
            failed_count: if parsed { 0 } else { 1 },
        },
        if parsed { None } else { Some(body_error(a, "article"@, "article parse failed"@)) },
    )
}

/// The counters and error of a single-article run.
pub fn article_run_outcome(article: &Article) -> (r: (RunStats, Option<ErrorRecord>))
    ensures
        (r.0, opt_err(r.1)) == article_run_spec(article@),
{
    let parsed = article.body_succeeded();
    let stats = RunStats {
        requested_pages: 1,
        list_pages_fetched: 0,
        discovered_count: 1,
        body_attempted_count: 1,
        body_fetched_count: if article.http_status.is_some() { 1 } else { 0 },
        parsed_count: if parsed { 1 } else { 0 },
        failed_count: if parsed { 0 } else { 1 },
    };
    let e = if parsed { None } else { Some(body_error_exec(article, "article", "article parse failed")) };
    (stats, e)
}

/// The articles in order of rank, those of equal rank in their given order.
pub open spec fn insert_by_rank(s: Seq<ArticleView>, a: ArticleView) -> Seq<ArticleView>
    decreases s.len(),
{
    if s.len() == 0 || rank_key(s.last()) <= rank_key(a) {
        s.push(a)
    } else {
        insert_by_rank(s.drop_last(), a).push(s.last())
    }
}

/// The stable sort of articles by rank (unranked last).
pub open spec fn sorted_by_rank(s: Seq<ArticleView>) -> Seq<ArticleView>
    decreases s.len(),
{
    if s.len() == 0 {
        seq![]
    } else {
        insert_by_rank(sorted_by_rank(s.drop_last()), s.last())
    }
}

fn rank_of(a: &Article) -> (r: i64)
    ensures
        r == rank_key(a@),
{
    match a.source_rank {
        Some(k) => k,
        None => i64::MAX,
    }
}

/// Orders articles by rank, keeping the given order among equal ranks.
pub fn sort_by_rank(articles: Vec<Article>) -> (r: Vec<Article>)
    ensures
        articles_view(r@) == sorted_by_rank(articles_view(articles@)),
{
    let ghost av = articles_view(articles@);
    let mut out: Vec<Article> = Vec::new();
    let mut i: usize = 0;
    assert(av.take(0) =~= Seq::<ArticleView>::empty());
    assert(articles_view(out@) =~= Seq::<ArticleView>::empty());
    while i < articles.len()
        invariant
            i <= articles.len(),
            av == articles_view(articles@),
            articles_view(out@) == sorted_by_rank(av.take(i as int)),
        decreases articles.len() - i,
    {
        proof {
            assert(av.take(i + 1).drop_last() == av.take(i as int));
            assert(av.take(i + 1).last() == articles@[i as int]@);
        }
        let a = articles[i].copy();
        let key = rank_of(&a);
        let ghost s = articles_view(out@);
        let mut j: usize = out.len();
        assert(s.take(j as int) == s);
        assert(s.skip(j as int) =~= Seq::<ArticleView>::empty());
        while j > 0 && rank_of(&out[j - 1]) > key
            invariant
                j <= out.len(),
                s == articles_view(out@),
                a@ == articles@[i as int]@,
                key == rank_key(a@),
                insert_by_rank(s, a@) == insert_by_rank(s.take(j as int), a@) + s.skip(j as int),
            decreases j,
        {
            proof {
                let t = s.take(j as int);
                assert(t.drop_last() == s.take(j - 1));
                assert(t.last() == s[j - 1]);
                assert(s.skip(j - 1) =~= seq![s[j - 1]] + s.skip(j as int));
                assert(insert_by_rank(t, a@) == insert_by_rank(s.take(j - 1), a@).push(s[j - 1]));
                assert(insert_by_rank(s.take(j - 1), a@).push(s[j - 1]) + s.skip(j as int)
                    =~= insert_by_rank(s.take(j - 1), a@) + s.skip(j - 1));
            }
            j = j - 1;
        }
        proof {
            let t = s.take(j as int);
            assert(insert_by_rank(t, a@) == t.push(a@));
        }
        let ghost before = out@;
        out.insert(j, a);
        proof {
            assert(out@ == before.insert(j as int, a));
            assert(articles_view(out@) =~= s.take(j as int).push(a@) + s.skip(j as int));
        }
        i = i + 1;
    }
    assert(av.take(articles.len() as int) == av);
    out
}

/// Whether articles are in order of rank.
pub open spec fn rank_ordered(s: Seq<ArticleView>) -> bool {
    forall|i: int, j: int| 0 <= i < j < s.len() ==> rank_key(s[i]) <= rank_key(s[j])
}

proof fn lemma_insert_keeps_order(s: Seq<ArticleView>, a: ArticleView)
    requires
        rank_ordered(s),
    ensures
        rank_ordered(insert_by_rank(s, a)),
        insert_by_rank(s, a).len() == s.len() + 1,
        forall|k: int| 0 <= k < insert_by_rank(s, a).len() ==> rank_key(#[trigger] insert_by_rank(s, a)[k]) == rank_key(a) || exists|m: int| 0 <= m < s.len() && insert_by_rank(s, a)[k] == s[m],
    decreases s.len(),
{
    if s.len() == 0 || rank_key(s.last()) <= rank_key(a) {
    } else {
        let t = s.drop_last();
        assert(rank_ordered(t));
        lemma_insert_keeps_order(t, a);
        let r = insert_by_rank(t, a);
        assert forall|k: int| 0 <= k < r.len() implies rank_key(#[trigger] r[k]) <= rank_key(s.last()) by {
            if rank_key(r[k]) != rank_key(a) {
                let m = choose|m: int| 0 <= m < t.len() && r[k] == t[m];
                assert(t[m] == s[m]);
            }
        }
        assert forall|k: int| 0 <= k < r.push(s.last()).len() implies rank_key(#[trigger] r.push(s.last())[k]) == rank_key(a) || exists|m: int| 0 <= m < s.len() && r.push(s.last())[k] == s[m] by {
            if k < r.len() {
                if rank_key(r[k]) != rank_key(a) {
                    let m = choose|m: int| 0 <= m < t.len() && r[k] == t[m];
                    assert(r.push(s.last())[k] == s[m]);
                }
            } else {
                assert(r.push(s.last())[k] == s[s.len() - 1]);
            }
        }
    }
}

proof fn lemma_insert_by_rank_multiset(s: Seq<ArticleView>, a: ArticleView)
    ensures
        insert_by_rank(s, a).to_multiset() == s.to_multiset().insert(a),
    decreases s.len(),
{
    broadcast use vstd::seq_lib::group_to_multiset_ensures;

    if s.len() == 0 || rank_key(s.last()) <= rank_key(a) {
    } else {
        let t = s.drop_last();
        lemma_insert_by_rank_multiset(t, a);
        assert(s == t.push(s.last()));
        assert(insert_by_rank(t, a).push(s.last()).to_multiset() =~= t.to_multiset().insert(a).insert(s.last()));
        assert(s.to_multiset().insert(a) =~= t.to_multiset().insert(s.last()).insert(a));
    }
}

/// Sorting by rank gives the same articles, as many times each, in order of
/// rank.
pub proof fn lemma_sorted_by_rank_ordered(s: Seq<ArticleView>)
    ensures
        rank_ordered(sorted_by_rank(s)),
        sorted_by_rank(s).len() == s.len(),
        sorted_by_rank(s).to_multiset() == s.to_multiset(),
    decreases s.len(),
{
    broadcast use vstd::seq_lib::group_to_multiset_ensures;

    if s.len() > 0 {
        lemma_sorted_by_rank_ordered(s.drop_last());
        lemma_insert_keeps_order(sorted_by_rank(s.drop_last()), s.last());
        lemma_insert_by_rank_multiset(sorted_by_rank(s.drop_last()), s.last());
        assert(s == s.drop_last().push(s.last()));
    } else {
        assert(sorted_by_rank(s) =~= s);
    }
}

/// The message when a VIP catalog selects no author.
pub open spec fn no_authors_message() -> Seq<char> {
    "authors file contains no authors"@
}

/// The plan of a VIP run: how many authors of the catalog are crawled (at
/// most `max_authors`), and how many pages that requests.
pub open spec fn vip_plan_spec(n_authors: nat, max_authors: Option<usize>, pages: nat) -> Result<(nat, int), Seq<char>> {
    let limit = match max_authors {
        Some(m) => m as nat,
        None => usize::MAX as nat,
    };
    let selected = if n_authors < limit { n_authors } else { limit };
    if selected == 0 {
        Err(no_authors_message())
    } else {
        Ok((selected, (selected * pages) as int))
    }
}

/// How many authors of a catalog of `n_authors` a VIP run crawls.
pub open spec fn vip_selected(n_authors: nat, max_authors: Option<usize>) -> nat {
    let limit = match max_authors {
        Some(m) => m as nat,
        None => usize::MAX as nat,
    };
    if n_authors < limit { n_authors } else { limit }
}

/// Plans a VIP run over a catalog of `n_authors` authors.
pub fn plan_vip(n_authors: usize, max_authors: Option<usize>, pages: u32) -> (r: Result<(usize, i64), String>)
    requires
        vip_selected(n_authors as nat, max_authors) * pages <= i64::MAX,
    ensures
        match r {
            Ok((n, p)) => vip_plan_spec(n_authors as nat, max_authors, pages as nat) == Ok::<(nat, int), Seq<char>>((n as nat, p as int)),
            Err(m) => vip_plan_spec(n_authors as nat, max_authors, pages as nat) == Err::<(nat, int), Seq<char>>(m@),
        },
{
    let limit: usize = match max_authors {
        Some(m) => m,
        None => usize::MAX,
    };
    let selected: usize = if n_authors < limit { n_authors } else { limit };
    if selected == 0 {
        return Err("authors file contains no authors".to_owned());
    }
    let requested: i128 = selected as i128 * pages as i128;
    Ok((selected, requested as i64))
}

} // verus!
