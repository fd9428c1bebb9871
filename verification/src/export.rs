//! Rendering of stored articles for export: JSON Lines, CSV, Markdown and
//! plain text.

use vstd::prelude::*;
use vstd::string::StrSliceExecFns;
use vstd::utf8::encode_utf8;

use crate::model::{articles_view, Article, ArticleView};
use crate::parser::hex_digit;
use crate::text::{
    count_lf, dec_int, dec_nat, join, lemma_count_lf_concat, lemma_count_lf_none, lemma_dec_int_no_lf,
    lemma_no_lf_concat, lemma_no_lf_join, no_lf, push_decimal_i64, push_decimal_u64, push_str,
    string_from_chars,
};

verus! {

/// The export formats.
#[derive(Debug, Clone, Copy, PartialEq, Eq, Structural)]
pub enum ExportFormat {
    Jsonl,
    Csv,
    Markdown,
    Text,
}

/// A failure to render, with its message.
#[derive(Debug)]
pub struct RenderError {
    pub message: String,
}

/// The JSON form of one character inside a string literal, as serde_json
/// writes it: `"` and `\` escaped with a backslash; backspace, tab, line
/// feed, form feed and carriage return as `\b`, `\t`, `\n`, `\f`, `\r`;
/// any other character below U+0020 as `\u00` and two lower-case hex
/// digits; every other character as it is.
pub open spec fn json_char(c: char) -> Seq<char> {
    if c == '"' {
        seq!['\\', '"']
    } else if c == '\\' {
        seq!['\\', '\\']
    } else if c == '\u{8}' {
        seq!['\\', 'b']
    } else if c == '\t' {
        seq!['\\', 't']
    } else if c == '\n' {
        seq!['\\', 'n']
    } else if c == '\u{c}' {
        seq!['\\', 'f']
    } else if c == '\r' {
        seq!['\\', 'r']
    } else if (c as u32) < 0x20 {
        seq!['\\', 'u', '0', '0', hex_digit((c as u32) as int / 16), hex_digit((c as u32) as int % 16)]
    } else {
        seq![c]
    }
}

/// The characters of a text in JSON form.
pub open spec fn json_escaped(s: Seq<char>) -> Seq<char>
    decreases s.len(),
{
    if s.len() == 0 {
        seq![]
    } else {
        json_escaped(s.drop_last()) + json_char(s.last())
    }
}

/// What `serde_json::to_string` gives for a string: the JSON string literal,
/// the text in JSON form between double quotes.
#[verifier::opaque]
pub open spec fn json_string(s: Seq<char>) -> Seq<char> {
    seq!['"'] + json_escaped(s) + seq!['"']
}

proof fn lemma_json_char_no_lf(c: char)
    ensures
        no_lf(json_char(c)),
{
    let j = json_char(c);
    assert forall|k: int| 0 <= k < j.len() implies j[k] != '\n' by {
        if (c as u32) < 0x20 && c != '\u{8}' && c != '\t' && c != '\n' && c != '\u{c}' && c != '\r' {
            assert(hex_digit((c as u32) as int / 16) != '\n');
            assert(hex_digit((c as u32) as int % 16) != '\n');
        }
    }
}

/// A JSON string literal holds no line feed.
pub proof fn lemma_json_string_no_lf(s: Seq<char>)
    ensures
        no_lf(json_string(s)),
{
    reveal(json_string);
    lemma_json_escaped_no_lf(s);
    lemma_no_lf_concat(seq!['"'], json_escaped(s));
    lemma_no_lf_concat(seq!['"'] + json_escaped(s), seq!['"']);
}

proof fn lemma_json_escaped_no_lf(s: Seq<char>)
    ensures
        no_lf(json_escaped(s)),
    decreases s.len(),
{
    if s.len() > 0 {
        lemma_json_escaped_no_lf(s.drop_last());
        lemma_json_char_no_lf(s.last());
        lemma_no_lf_concat(json_escaped(s.drop_last()), json_char(s.last()));
    }
}

/// What a `csv::Writer` over a byte vector writes for the records, one
/// `write_record` each, or the message of its error.
pub uninterp spec fn csv_encoded(records: Seq<Seq<Seq<char>>>) -> Result<Seq<u8>, Seq<char>>;

/// Calls `serde_json::to_string` on a string. The contract states what
/// serde_json writes for a `str` (`format_escaped_str`: the quotes, and each
/// character escaped by its `ESCAPE` table and `write_char_escape`); writing
/// into a byte vector cannot fail.
#[verifier::external_body]
fn json_quote(s: &str) -> (r: String)
    ensures
        r@ == json_string(s@),
{
    serde_json::to_string(s).unwrap_or_default()
}

/// Writes each record with `csv::Writer::write_record` into a byte vector and
/// takes the bytes with `into_inner`. The result is named; the contract adds
/// that, for records of at least one field each, it succeeds exactly when all
/// records have as many fields as the first, the writer's only check when it
/// is not flexible and writes to memory.
#[verifier::external_body]
fn csv_encode(records: &Vec<Vec<String>>) -> (r: Result<Vec<u8>, String>)
    ensures
        match r {
            Ok(b) => csv_encoded(records.deep_view()) == Ok::<Seq<u8>, Seq<char>>(b@),
            Err(m) => csv_encoded(records.deep_view()) == Err::<Seq<u8>, Seq<char>>(m@),
        },
        (forall|i: int| 0 <= i < records@.len() ==> (#[trigger] records@[i]).len() > 0) ==> (r is Ok
            <==> (forall|i: int| 0 <= i < records@.len() ==> (#[trigger] records@[i]).len() == records@[0].len())),
{
    let mut w = csv::Writer::from_writer(Vec::new());
    for record in records {
        w.write_record(record).map_err(|e| e.to_string())?;
    }
    w.into_inner().map_err(|e| e.to_string())
}

/// An optional text as JSON.
pub open spec fn json_opt(o: Option<Seq<char>>) -> Seq<char> {
    match o {
        Some(s) => json_string(s),
        None => "null"@,
    }
}

/// An optional integer as JSON.
pub open spec fn json_int(o: Option<int>) -> Seq<char> {
    match o {
        Some(v) => dec_int(v),
        None => "null"@,
    }
}

/// A list of texts as a JSON array.
pub open spec fn json_tags(t: Seq<Seq<char>>) -> Seq<char> {
    "["@ + join(t.map_values(|x: Seq<char>| json_string(x)), ","@) + "]"@
}

/// An optional `i64` as an optional integer.
pub open spec fn oi(o: Option<i64>) -> Option<int> {
    match o {
        Some(v) => Some(v as int),
        None => None,
    }
}

/// An optional `u16` as an optional integer.
pub open spec fn ou(o: Option<u16>) -> Option<int> {
    match o {
        Some(v) => Some(v as int),
        None => None,
    }
}

/// The members of an article's JSON object, in declaration order.
pub open spec fn json_fields(a: ArticleView) -> Seq<Seq<char>> {
    seq![
        "\"article_id\":"@ + json_string(a.article_id),
        "\"title\":"@ + json_string(a.title),
        "\"author_id\":"@ + json_opt(a.author_id),
        "\"author_name\":"@ + json_opt(a.author_name),
        "\"url\":"@ + json_string(a.url),
        "\"published_at\":"@ + json_opt(a.published_at),
        "\"published_raw\":"@ + json_opt(a.published_raw),
        "\"source\":"@ + json_string(a.source),
        "\"source_rank\":"@ + json_int(oi(a.source_rank)),
        "\"body_text\":"@ + json_opt(a.body_text),
        "\"content_hash\":"@ + json_opt(a.content_hash),
        "\"parse_status\":"@ + json_string(a.parse_status),
        "\"http_status\":"@ + json_int(ou(a.http_status)),
        "\"error\":"@ + json_opt(a.error),
        "\"fetched_at\":"@ + json_opt(a.fetched_at),
        "\"raw_html_path\":"@ + json_opt(a.raw_html_path),
        "\"views\":"@ + json_int(oi(a.views)),
        "\"replies\":"@ + json_int(oi(a.replies)),
        "\"tags\":"@ + json_tags(a.tags),
    ]
}

/// An article as a compact JSON object.
pub open spec fn article_json(a: ArticleView) -> Seq<char> {
    "{"@ + join(json_fields(a), ","@) + "}"@
}

/// JSON Lines: each article's object followed by a line feed.
pub open spec fn jsonl_text(arts: Seq<ArticleView>) -> Seq<char>
    decreases arts.len(),
{
    if arts.len() == 0 {
        seq![]
    } else {
        jsonl_text(arts.drop_last()) + article_json(arts.last()) + seq!['\n']
    }
}

fn json_text(s: &str) -> (r: Vec<char>)
    ensures
        r@ == json_string(s@),
        no_lf(r@),
{
    proof {
        lemma_json_string_no_lf(s@);
    }
    crate::text::chars_of(json_quote(s).as_str())
}

fn json_null() -> (r: Vec<char>)
    ensures
        r@ == "null"@,
        no_lf(r@),
{
    proof {
        reveal_strlit("null");
    }
    crate::text::chars_of("null")
}

fn json_opt_text(o: &Option<String>) -> (r: Vec<char>)
    ensures
        r@ == json_opt(o.deep_view()),
        no_lf(r@),
{
    match o {
        Some(s) => json_text(s.as_str()),
        None => json_null(),
    }
}

fn json_i64_text(o: Option<i64>) -> (r: Vec<char>)
    ensures
        r@ == json_int(oi(o)),
        no_lf(r@),
{
    match o {
        Some(v) => {
            let mut out: Vec<char> = Vec::new();
            push_decimal_i64(&mut out, v);
            assert(out@ =~= dec_int(v as int));
            proof {
                lemma_dec_int_no_lf(v as int);
            }
            out
        },
        None => json_null(),
    }
}

fn json_u16_text(o: Option<u16>) -> (r: Vec<char>)
    ensures
        r@ == json_int(ou(o)),
        no_lf(r@),
{
    match o {
        Some(v) => {
            let mut out: Vec<char> = Vec::new();
            push_decimal_u64(&mut out, v as u64);
            assert(out@ =~= dec_int(v as int));
            proof {
                lemma_dec_int_no_lf(v as int);
            }
            out
        },
        None => json_null(),
    }
}

fn json_tags_text(tags: &Vec<String>) -> (r: Vec<char>)
    ensures
        r@ == json_tags(tags.deep_view()),
        no_lf(r@),
{
    let ghost quoted = tags.deep_view().map_values(|x: Seq<char>| json_string(x));
    let mut parts: Vec<Vec<char>> = Vec::new();
    let mut i: usize = 0;
    while i < tags.len()
        invariant
            i <= tags.len(),
            quoted == tags.deep_view().map_values(|x: Seq<char>| json_string(x)),
            crate::text::chars_view(parts@) == quoted.take(i as int),
            forall|k: int| 0 <= k < parts@.len() ==> no_lf(#[trigger] parts@[k]@),
        decreases tags.len() - i,
    {
        let q = json_text(tags[i].as_str());
        let ghost prev = parts@;
        parts.push(q);
        assert(crate::text::chars_view(parts@) =~= crate::text::chars_view(prev).push(q@));
        i = i + 1;
        assert(quoted.take(i as int) =~= quoted.take(i - 1).push(quoted[i - 1]));
    }
    assert(quoted.take(tags.len() as int) == quoted);
    let comma = crate::text::chars_of(",");
    let inner = crate::text::join_chars(&parts, &comma);
    let mut out = crate::text::chars_of("[");
    crate::text::push_chars(&mut out, &inner);
    push_str(&mut out, "]");
    proof {
        reveal_strlit(",");
        reveal_strlit("[");
        reveal_strlit("]");
        let pv = crate::text::chars_view(parts@);
        assert forall|k: int| 0 <= k < pv.len() implies no_lf(#[trigger] pv[k]) by {
            assert(pv[k] == parts@[k]@);
        }
        lemma_no_lf_join(pv, ","@);
        lemma_no_lf_concat("["@, inner@);
        lemma_no_lf_concat("["@ + inner@, "]"@);
    }
    out
}

fn member(key: &str, value: Vec<char>) -> (r: Vec<char>)
    requires
        no_lf(value@),
    ensures
        r@ == key@ + value@,
        no_lf(key@) ==> no_lf(r@),
{
    proof {
        if no_lf(key@) {
            lemma_no_lf_concat(key@, value@);
        }
    }
    let mut out = crate::text::chars_of(key);
    crate::text::push_chars(&mut out, &value);
    out
}

/// Whether `t` occurs in `s` as a contiguous run.
pub open spec fn contains_seq(s: Seq<char>, t: Seq<char>) -> bool {
    exists|i: int| 0 <= i && i + t.len() <= s.len() && #[trigger] s.subrange(i, i + t.len()) == t
}

proof fn lemma_join_append(a: Seq<Seq<char>>, b: Seq<Seq<char>>, sep: Seq<char>)
    requires
        a.len() > 0,
        b.len() > 0,
    ensures
        join(a + b, sep) == join(a, sep) + sep + join(b, sep),
    decreases b.len(),
{
    let ab = a + b;
    assert(ab.last() == b.last());
    assert(ab.drop_last() == a + b.drop_last());
    if b.len() == 1 {
        assert(ab.drop_last() == a);
        assert(join(b, sep) == b[0]);
    } else {
        lemma_join_append(a, b.drop_last(), sep);
        assert(join(b, sep) == join(b.drop_last(), sep) + sep + b.last());
        assert(join(ab, sep) =~= join(a, sep) + sep + join(b, sep));
    }
}

/// In a JSON object made of members, each member is followed by a comma, the
/// last one by the closing brace.
proof fn lemma_joined_member(q: Seq<Seq<char>>, k: int)
    requires
        0 <= k < q.len(),
    ensures
        contains_seq("{"@ + join(q, ","@) + "}"@, q[k] + if k + 1 < q.len() { ","@ } else { "}"@ }),
{
    reveal_strlit("{");
    reveal_strlit("}");
    reveal_strlit(",");
    let sep = ","@;
    let head = q.take(k + 1);
    let before = if k > 0 { join(q.take(k), sep) + sep } else { seq![] };
    assert(head.drop_last() == q.take(k));
    assert(head.last() == q[k]);
    assert(join(head, sep) == before + q[k]);
    let tail = if k + 1 < q.len() { sep + join(q.skip(k + 1), sep) } else { seq![] };
    if k + 1 < q.len() {
        lemma_join_append(head, q.skip(k + 1), sep);
        assert(head + q.skip(k + 1) == q);
    } else {
        assert(head == q);
    }
    assert(join(q, sep) == before + q[k] + tail);
    let t = q[k] + if k + 1 < q.len() { ","@ } else { "}"@ };
    let obj = "{"@ + join(q, ","@) + "}"@;
    let i: int = before.len() as int + 1;
    assert(obj.subrange(i, i + t.len() as int) =~= t);
}

/// Each member of an article's JSON object carries the article field of the
/// same name: every key is followed by the JSON value of that field, then by
/// a comma, or by the closing brace after the last member.
pub proof fn lemma_json_members(a: ArticleView)
    ensures
        contains_seq(article_json(a), "\"article_id\":"@ + json_string(a.article_id) + ","@),
        contains_seq(article_json(a), "\"title\":"@ + json_string(a.title) + ","@),
        contains_seq(article_json(a), "\"author_id\":"@ + json_opt(a.author_id) + ","@),
        contains_seq(article_json(a), "\"author_name\":"@ + json_opt(a.author_name) + ","@),
        contains_seq(article_json(a), "\"url\":"@ + json_string(a.url) + ","@),
        contains_seq(article_json(a), "\"published_at\":"@ + json_opt(a.published_at) + ","@),
        contains_seq(article_json(a), "\"published_raw\":"@ + json_opt(a.published_raw) + ","@),
        contains_seq(article_json(a), "\"source\":"@ + json_string(a.source) + ","@),
        contains_seq(article_json(a), "\"source_rank\":"@ + json_int(oi(a.source_rank)) + ","@),
        contains_seq(article_json(a), "\"body_text\":"@ + json_opt(a.body_text) + ","@),
        contains_seq(article_json(a), "\"content_hash\":"@ + json_opt(a.content_hash) + ","@),
        contains_seq(article_json(a), "\"parse_status\":"@ + json_string(a.parse_status) + ","@),
        contains_seq(article_json(a), "\"http_status\":"@ + json_int(ou(a.http_status)) + ","@),
        contains_seq(article_json(a), "\"error\":"@ + json_opt(a.error) + ","@),
        contains_seq(article_json(a), "\"fetched_at\":"@ + json_opt(a.fetched_at) + ","@),
        contains_seq(article_json(a), "\"raw_html_path\":"@ + json_opt(a.raw_html_path) + ","@),
        contains_seq(article_json(a), "\"views\":"@ + json_int(oi(a.views)) + ","@),
        contains_seq(article_json(a), "\"replies\":"@ + json_int(oi(a.replies)) + ","@),
        contains_seq(article_json(a), "\"tags\":"@ + json_tags(a.tags) + "}"@),
{
    lemma_joined_member(json_fields(a), 0);
    lemma_joined_member(json_fields(a), 1);
    lemma_joined_member(json_fields(a), 2);
    lemma_joined_member(json_fields(a), 3);
    lemma_joined_member(json_fields(a), 4);
    lemma_joined_member(json_fields(a), 5);
    lemma_joined_member(json_fields(a), 6);
    lemma_joined_member(json_fields(a), 7);
    lemma_joined_member(json_fields(a), 8);
    lemma_joined_member(json_fields(a), 9);
    lemma_joined_member(json_fields(a), 10);
    lemma_joined_member(json_fields(a), 11);
    lemma_joined_member(json_fields(a), 12);
    lemma_joined_member(json_fields(a), 13);
    lemma_joined_member(json_fields(a), 14);
    lemma_joined_member(json_fields(a), 15);
    lemma_joined_member(json_fields(a), 16);
    lemma_joined_member(json_fields(a), 17);
    lemma_joined_member(json_fields(a), 18);
}

/// An article as a compact JSON object.
#[verifier::spinoff_prover]
#[verifier::rlimit(40)]
pub fn article_to_json(a: &Article) -> (r: Vec<char>)
    ensures
        r@ == article_json(a@),
        no_lf(r@),
{
    proof {
        reveal_strlit("\"article_id\":");
        reveal_strlit("\"title\":");
        reveal_strlit("\"author_id\":");
        reveal_strlit("\"author_name\":");
        reveal_strlit("\"url\":");
        reveal_strlit("\"published_at\":");
        reveal_strlit("\"published_raw\":");
        reveal_strlit("\"source\":");
        reveal_strlit("\"source_rank\":");
        reveal_strlit("\"body_text\":");
        reveal_strlit("\"content_hash\":");
        reveal_strlit("\"parse_status\":");
        reveal_strlit("\"http_status\":");
        reveal_strlit("\"error\":");
        reveal_strlit("\"fetched_at\":");
        reveal_strlit("\"raw_html_path\":");
        reveal_strlit("\"views\":");
        reveal_strlit("\"replies\":");
        reveal_strlit("\"tags\":");
    }
    let mut f: Vec<Vec<char>> = Vec::new();
    f.push(member("\"article_id\":", json_text(a.article_id.as_str())));
    f.push(member("\"title\":", json_text(a.title.as_str())));
    f.push(member("\"author_id\":", json_opt_text(&a.author_id)));
    f.push(member("\"author_name\":", json_opt_text(&a.author_name)));
    f.push(member("\"url\":", json_text(a.url.as_str())));
    f.push(member("\"published_at\":", json_opt_text(&a.published_at)));
    f.push(member("\"published_raw\":", json_opt_text(&a.published_raw)));
    f.push(member("\"source\":", json_text(a.source.as_str())));
    f.push(member("\"source_rank\":", json_i64_text(a.source_rank)));
    f.push(member("\"body_text\":", json_opt_text(&a.body_text)));
    f.push(member("\"content_hash\":", json_opt_text(&a.content_hash)));
    f.push(member("\"parse_status\":", json_text(a.parse_status.as_str())));
    f.push(member("\"http_status\":", json_u16_text(a.http_status)));
    f.push(member("\"error\":", json_opt_text(&a.error)));
    f.push(member("\"fetched_at\":", json_opt_text(&a.fetched_at)));
    f.push(member("\"raw_html_path\":", json_opt_text(&a.raw_html_path)));
    f.push(member("\"views\":", json_i64_text(a.views)));
    f.push(member("\"replies\":", json_i64_text(a.replies)));
    f.push(member("\"tags\":", json_tags_text(&a.tags)));
    assert(crate::text::chars_view(f@) =~= json_fields(a@));
    let comma = crate::text::chars_of(",");
    let inner = crate::text::join_chars(&f, &comma);
    let mut out = crate::text::chars_of("{");
    crate::text::push_chars(&mut out, &inner);
    push_str(&mut out, "}");
    proof {
        reveal_strlit(",");
        reveal_strlit("{");
        reveal_strlit("}");
        let fv = crate::text::chars_view(f@);
        assert forall|k: int| 0 <= k < fv.len() implies no_lf(#[trigger] fv[k]) by {
            assert(fv[k] == f@[k]@);
        }
        lemma_no_lf_join(fv, ","@);
        lemma_no_lf_concat("{"@, inner@);
        lemma_no_lf_concat("{"@ + inner@, "}"@);
    }
    out
}

/// The articles as JSON Lines text.
pub fn jsonl_chars(articles: &[Article]) -> (r: Vec<char>)
    ensures
        r@ == jsonl_text(articles_view(articles@)),
        count_lf(r@) == articles.len(),
        forall|i: int| 0 <= i < articles.len() ==> no_lf(#[trigger] article_json(articles@[i]@)),
{
    let ghost av = articles_view(articles@);
    let mut out: Vec<char> = Vec::new();
    let mut i: usize = 0;
    while i < articles.len()
        invariant
            i <= articles.len(),
            av == articles_view(articles@),
            out@ == jsonl_text(av.take(i as int)),
            count_lf(out@) == i,
            forall|k: int| 0 <= k < i ==> no_lf(#[trigger] article_json(articles@[k]@)),
        decreases articles.len() - i,
    {
        proof {
            assert(av.take(i + 1).drop_last() == av.take(i as int));
            assert(av.take(i + 1).last() == articles@[i as int]@);
        }
        let obj = article_to_json(&articles[i]);
        let ghost before = out@;
        crate::text::push_chars(&mut out, &obj);
        out.push('\n');
        proof {
            lemma_count_lf_none(obj@);
            lemma_count_lf_concat(before, obj@);
            lemma_count_lf_concat(before + obj@, seq!['\n']);
            assert(out@ =~= before + obj@ + seq!['\n']);
            assert(count_lf(seq!['\n']) == 1) by {
                assert(seq!['\n'].drop_last() =~= Seq::<char>::empty());
                reveal_with_fuel(count_lf, 2);
            }
        }
        i = i + 1;
        assert(out@ =~= jsonl_text(av.take(i as int)));
    }
    assert(av.take(articles.len() as int) == av);
    out
}


/// An optional text as a CSV field: the text, or empty.
pub open spec fn csv_opt(o: Option<Seq<char>>) -> Seq<char> {
    match o {
        Some(s) => s,
        None => seq![],
    }
}

/// An optional integer as a CSV field: its decimal notation, or empty.
pub open spec fn csv_int(o: Option<int>) -> Seq<char> {
    match o {
        Some(v) => dec_int(v),
        None => seq![],
    }
}

/// The CSV header: the field names of an article.
pub open spec fn csv_header() -> Seq<Seq<char>> {
    seq![
        "article_id"@, "title"@, "author_id"@, "author_name"@, "url"@, "published_at"@,
        "published_raw"@, "source"@, "source_rank"@, "body_text"@, "content_hash"@,
        "parse_status"@, "http_status"@, "error"@, "fetched_at"@, "raw_html_path"@, "views"@,
        "replies"@, "tags"@,
    ]
}

/// An article as a CSV record: one field per field of the article, in
/// declaration order; the tags as one field holding their JSON array.
pub open spec fn csv_row(a: ArticleView) -> Seq<Seq<char>> {
    seq![
        a.article_id, a.title, csv_opt(a.author_id), csv_opt(a.author_name), a.url,
        csv_opt(a.published_at), csv_opt(a.published_raw), a.source, csv_int(oi(a.source_rank)),
        csv_opt(a.body_text), csv_opt(a.content_hash), a.parse_status, csv_int(ou(a.http_status)),
        csv_opt(a.error), csv_opt(a.fetched_at), csv_opt(a.raw_html_path), csv_int(oi(a.views)),
        csv_int(oi(a.replies)), json_tags(a.tags),
    ]
}

/// The CSV records of the articles: none for no articles, else the header
/// and one record per article.
pub open spec fn csv_records(arts: Seq<ArticleView>) -> Seq<Seq<Seq<char>>> {
    if arts.len() == 0 {
        seq![]
    } else {
        seq![csv_header()] + arts.map_values(|a: ArticleView| csv_row(a))
    }
}

fn str_string(s: &str) -> (r: String)
    ensures
        r@ == s@,
{
    s.to_owned()
}

fn opt_field(o: &Option<String>) -> (r: String)
    ensures
        r@ == csv_opt(o.deep_view()),
{
    match o {
        Some(s) => s.clone(),
        None => String::new(),
    }
}

fn i64_field(o: Option<i64>) -> (r: String)
    ensures
        r@ == csv_int(oi(o)),
{
    match o {
        Some(v) => {
            let mut out: Vec<char> = Vec::new();
            push_decimal_i64(&mut out, v);
            string_from_chars(&out)
        },
        None => String::new(),
    }
}

fn u16_field(o: Option<u16>) -> (r: String)
    ensures
        r@ == csv_int(ou(o)),
{
    match o {
        Some(v) => {
            let mut out: Vec<char> = Vec::new();
            push_decimal_u64(&mut out, v as u64);
            assert(out@ =~= dec_int(v as int));
            string_from_chars(&out)
        },
        None => String::new(),
    }
}

fn csv_header_exec() -> (r: Vec<String>)
    ensures
        r.deep_view() == csv_header(),
{
    let names: Vec<&str> = vec![
        "article_id", "title", "author_id", "author_name", "url", "published_at",
        "published_raw", "source", "source_rank", "body_text", "content_hash", "parse_status",
        "http_status", "error", "fetched_at", "raw_html_path", "views", "replies", "tags",
    ];
    let mut out: Vec<String> = Vec::new();
    let mut i: usize = 0;
    while i < names.len()
        invariant
            i <= names.len(),
            out.len() == i,
            forall|k: int| 0 <= k < i ==> (#[trigger] out@[k])@ == names@[k]@,
        decreases names.len() - i,
    {
        out.push(str_string(names[i]));
        i = i + 1;
    }
    assert(out.deep_view() =~= csv_header());
    out
}

fn csv_row_exec(a: &Article) -> (r: Vec<String>)
    ensures
        r.deep_view() == csv_row(a@),
{
    let mut f: Vec<String> = Vec::new();
    f.push(a.article_id.clone());
    f.push(a.title.clone());
    f.push(opt_field(&a.author_id));
    f.push(opt_field(&a.author_name));
    f.push(a.url.clone());
    f.push(opt_field(&a.published_at));
    f.push(opt_field(&a.published_raw));
    f.push(a.source.clone());
    f.push(i64_field(a.source_rank));
    f.push(opt_field(&a.body_text));
    f.push(opt_field(&a.content_hash));
    f.push(a.parse_status.clone());
    f.push(u16_field(a.http_status));
    f.push(opt_field(&a.error));
    f.push(opt_field(&a.fetched_at));
    f.push(opt_field(&a.raw_html_path));
    f.push(i64_field(a.views));
    f.push(i64_field(a.replies));
    f.push(string_from_chars(&json_tags_text(&a.tags)));
    assert(f.deep_view() =~= csv_row(a@));
    f
}

/// The articles as CSV bytes: a header of the field names and one record of
/// nineteen fields per article; nothing at all for no articles.
pub fn render_csv(articles: &[Article]) -> (r: Result<Vec<u8>, RenderError>)
    ensures
        r matches Ok(b) && csv_encoded(csv_records(articles_view(articles@))) == Ok::<Seq<u8>, Seq<char>>(b@),
{
    let ghost av = articles_view(articles@);
    let mut records: Vec<Vec<String>> = Vec::new();
    if articles.len() > 0 {
        records.push(csv_header_exec());
    }
    let mut i: usize = 0;
    while i < articles.len()
        invariant
            i <= articles.len(),
            av == articles_view(articles@),
            records.deep_view() == if av.len() == 0 {
                Seq::<Seq<Seq<char>>>::empty()
            } else {
                seq![csv_header()] + av.take(i as int).map_values(|a: ArticleView| csv_row(a))
            },
        decreases articles.len() - i,
    {
        let row = csv_row_exec(&articles[i]);
        let ghost prev = records.deep_view();
        records.push(row);
        assert(records.deep_view() =~= prev.push(row.deep_view()));
        i = i + 1;
        assert(av.take(i as int).map_values(|a: ArticleView| csv_row(a)) =~= av.take(i - 1).map_values(
            |a: ArticleView| csv_row(a),
        ).push(csv_row(av[i - 1])));
    }
    assert(av.take(articles.len() as int) == av);
    assert(records.deep_view() =~= csv_records(av));
    proof {
        let rv = records.deep_view();
        assert forall|k: int| 0 <= k < records@.len() implies (#[trigger] records@[k]).len() == 19 by {
            assert(records@[k].deep_view() == rv[k]);
            if k > 0 {
                assert(rv[k] == csv_row(av[k - 1]));
            }
        }
    }
    match csv_encode(&records) {
        Ok(b) => Ok(b),
        Err(m) => Err(RenderError { message: m }),
    }
}

/// A text, or `未知` (unknown) when absent.
pub open spec fn or_unknown(o: Option<Seq<char>>) -> Seq<char> {
    match o {
        Some(s) => s,
        None => "未知"@,
    }
}

/// The Markdown section of the article at `index` (from 0): a numbered
/// heading with the title, a list of author, time (published, else the raw
/// date), source, link and parse status, and the body when there is one.
pub open spec fn markdown_entry(index: int, a: ArticleView) -> Seq<char> {
    "## "@ + dec_nat((index + 1) as nat) + ". "@ + a.title + "\n\n- 作者："@ + or_unknown(a.author_name)
        + "\n- 时间："@ + or_unknown(
        match a.published_at {
            Some(p) => Some(p),
            None => a.published_raw,
        },
    ) + "\n- 来源："@ + a.source + "\n- 链接："@ + a.url + "\n- 解析状态："@ + a.parse_status + "\n\n"@
        + match a.body_text {
        Some(b) => b + "\n\n"@,
        None => seq![],
    }
}

/// The articles as Markdown.
pub open spec fn markdown_text(arts: Seq<ArticleView>) -> Seq<char>
    decreases arts.len(),
{
    if arts.len() == 0 {
        seq![]
    } else {
        markdown_text(arts.drop_last()) + markdown_entry(arts.len() - 1, arts.last())
    }
}

/// The plain-text block of an article: `《title》 - author`, the link, the
/// body (or nothing) and a blank line.
pub open spec fn text_entry(a: ArticleView) -> Seq<char> {
    "《"@ + a.title + "》 - "@ + or_unknown(a.author_name) + "\n"@ + a.url + "\n"@ + csv_opt(a.body_text)
        + "\n\n"@
}

/// The articles as plain text.
pub open spec fn plain_text(arts: Seq<ArticleView>) -> Seq<char>
    decreases arts.len(),
{
    if arts.len() == 0 {
        seq![]
    } else {
        plain_text(arts.drop_last()) + text_entry(arts.last())
    }
}

fn push_or_unknown(out: &mut Vec<char>, o: &Option<String>)
    ensures
        final(out)@ == old(out)@ + or_unknown(o.deep_view()),
{
    match o {
        Some(s) => push_str(out, s.as_str()),
        None => push_str(out, "未知"),
    }
}

fn markdown_entry_exec(index: usize, a: &Article) -> (r: Vec<char>)
    requires
        index < usize::MAX,
    ensures
        r@ == markdown_entry(index as int, a@),
{
    let mut out: Vec<char> = Vec::new();
    push_str(&mut out, "## ");
    push_decimal_u64(&mut out, (index + 1) as u64);
    push_str(&mut out, ". ");
    push_str(&mut out, a.title.as_str());
    push_str(&mut out, "\n\n- 作者：");
    push_or_unknown(&mut out, &a.author_name);
    push_str(&mut out, "\n- 时间：");
    let time: &Option<String> = if a.published_at.is_some() { &a.published_at } else { &a.published_raw };
    push_or_unknown(&mut out, time);
    let ghost first = out@;
    push_str(&mut out, "\n- 来源：");
    push_str(&mut out, a.source.as_str());
    push_str(&mut out, "\n- 链接：");
    push_str(&mut out, a.url.as_str());
    push_str(&mut out, "\n- 解析状态：");
    push_str(&mut out, a.parse_status.as_str());
    push_str(&mut out, "\n\n");
    if let Some(b) = &a.body_text {
        push_str(&mut out, b.as_str());
        push_str(&mut out, "\n\n");
    }
    assert(out@ =~= markdown_entry(index as int, a@));
    out
}

fn text_entry_exec(a: &Article) -> (r: Vec<char>)
    ensures
        r@ == text_entry(a@),
{
    let mut out: Vec<char> = Vec::new();
    push_str(&mut out, "《");
    push_str(&mut out, a.title.as_str());
    push_str(&mut out, "》 - ");
    push_or_unknown(&mut out, &a.author_name);
    push_str(&mut out, "\n");
    push_str(&mut out, a.url.as_str());
    push_str(&mut out, "\n");
    if let Some(b) = &a.body_text {
        push_str(&mut out, b.as_str());
    }
    push_str(&mut out, "\n\n");
    assert(out@ =~= text_entry(a@));
    out
}

/// The articles as Markdown text.
pub fn render_markdown(articles: &[Article]) -> (r: String)
    ensures
        r@ == markdown_text(articles_view(articles@)),
{
    let ghost av = articles_view(articles@);
    let mut out: Vec<char> = Vec::new();
    let mut i: usize = 0;
    while i < articles.len()
        invariant
            i <= articles.len(),
            av == articles_view(articles@),
            out@ == markdown_text(av.take(i as int)),
        decreases articles.len() - i,
    {
        proof {
            assert(av.take(i + 1).drop_last() == av.take(i as int));
            assert(av.take(i + 1).last() == articles@[i as int]@);
        }
        let e = markdown_entry_exec(i, &articles[i]);
        crate::text::push_chars(&mut out, &e);
        i = i + 1;
    }
    assert(av.take(articles.len() as int) == av);
    string_from_chars(&out)
}

/// The articles as plain text.
pub fn render_text(articles: &[Article]) -> (r: String)
    ensures
        r@ == plain_text(articles_view(articles@)),
{
    let ghost av = articles_view(articles@);
    let mut out: Vec<char> = Vec::new();
    let mut i: usize = 0;
    while i < articles.len()
        invariant
            i <= articles.len(),
            av == articles_view(articles@),
            out@ == plain_text(av.take(i as int)),
        decreases articles.len() - i,
    {
        proof {
            assert(av.take(i + 1).drop_last() == av.take(i as int));
            assert(av.take(i + 1).last() == articles@[i as int]@);
        }
        let e = text_entry_exec(&articles[i]);
        crate::text::push_chars(&mut out, &e);
        i = i + 1;
    }
    assert(av.take(articles.len() as int) == av);
    string_from_chars(&out)
}

/// The rendering of articles in a format: the UTF-8 bytes of the text, or,
/// for CSV, the writer's bytes or error message.
pub open spec fn render_spec(arts: Seq<ArticleView>, format: ExportFormat) -> Result<Seq<u8>, Seq<char>> {
    match format {
        ExportFormat::Jsonl => Ok(encode_utf8(jsonl_text(arts))),
        ExportFormat::Csv => csv_encoded(csv_records(arts)),
        ExportFormat::Markdown => Ok(encode_utf8(markdown_text(arts))),
        ExportFormat::Text => Ok(encode_utf8(plain_text(arts))),
    }
}

fn utf8_bytes(s: &String) -> (r: Vec<u8>)
    ensures
        r@ == encode_utf8(s@),
{
    s.as_str().as_bytes_vec()
}

/// Renders articles in the given format; every format succeeds.
pub fn render(articles: &[Article], format: ExportFormat) -> (r: Result<Vec<u8>, RenderError>)
    ensures
        r is Ok,
        match r {
            Ok(b) => render_spec(articles_view(articles@), format) == Ok::<Seq<u8>, Seq<char>>(b@),
            Err(e) => render_spec(articles_view(articles@), format) == Err::<Seq<u8>, Seq<char>>(e.message@),
        },
{
    match format {
        ExportFormat::Jsonl => {
            let t = jsonl_chars(articles);
            Ok(utf8_bytes(&string_from_chars(&t)))
        },
        ExportFormat::Csv => render_csv(articles),
        ExportFormat::Markdown => Ok(utf8_bytes(&render_markdown(articles))),
        ExportFormat::Text => Ok(utf8_bytes(&render_text(articles))),
    }
}

} // verus!
