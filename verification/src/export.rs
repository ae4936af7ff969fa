//! Writing articles out, as Markdown or as pretty-printed JSON.
use vstd::prelude::*;
use crate::cli::Format;
use crate::models::{articles_view, Article, ArticleView};
use crate::text::{clone_string, i64_decimal, or_empty};
use crate::timestamp::{in_rfc2822_years, rfc2822, rfc2822_text, rfc3339, rfc3339_text, Timestamp};
use crate::text::{clone_opt, opt_view, string_of};
use vstd::utf8::encode_utf8;

verus! {

broadcast use vstd::seq_lib::group_seq_properties;

#[verifier::external_type_specification]
#[verifier::external_body]
pub struct ExJsonError(serde_json::Error);

/// Why writing articles failed.
#[derive(Debug)]
pub enum ExportError {
    Json(serde_json::Error),
}

// ---------------------------------------------------------------------------
// Markdown.

/// The optional line that dates an article.
pub open spec fn md_date(d: Option<Timestamp>) -> Seq<char> {
    match d {
        Some(t) => "*Published at: "@ + rfc2822_text(t@) + "*\n"@,
        None => Seq::empty(),
    }
}

/// An optional labelled section: the label line, the text, a blank line.
pub open spec fn md_section(label: Seq<char>, body: Option<Seq<char>>) -> Seq<char> {
    match body {
        Some(b) => label + b + "\n\n"@,
        None => Seq::empty(),
    }
}

/// One article in Markdown: a heading that links the title, the date if
/// known, a blank line, the summary and content if present, and a rule.
pub open spec fn md_article(a: ArticleView) -> Seq<char> {
    md_heading(a) + md_date(a.published_at) + "\n"@
        + md_section("**Summary:**\n"@, a.summary) + md_section("**Content:**\n"@, a.content)
        + "\n---\n\n"@
}

/// The articles in Markdown, one after another.
pub open spec fn md_articles(xs: Seq<ArticleView>) -> Seq<char>
    decreases xs.len(),
{
    if xs.len() == 0 {
        Seq::empty()
    } else {
        md_articles(xs.drop_last()) + md_article(xs.last())
    }
}

/// The date, if any, has a year that RFC 2822 can spell.
pub open spec fn date_printable(d: Option<Timestamp>) -> bool {
    match d {
        Some(t) => in_rfc2822_years(t@),
        None => true,
    }
}

/// Every dated article has a year that RFC 2822 can spell.
pub open spec fn dates_printable(xs: Seq<ArticleView>) -> bool {
    forall|i: int| 0 <= i < xs.len() ==> date_printable((#[trigger] xs[i]).published_at)
}

fn append_section(out: &mut String, label: &str, body: &Option<String>)
    ensures
        final(out)@ == old(out)@ + md_section(label@, crate::text::opt_view(*body)),
{
    match body {
        Some(b) => {
            out.append(label);
            out.append(b.as_str());
            out.append("\n\n");
        },
        None => {},
    }
}

/// The heading line of an article: its title linked to its URL.
pub open spec fn md_heading(a: ArticleView) -> Seq<char> {
    "## ["@ + a.title + "]("@ + or_empty(a.url) + ")\n"@
}

fn append_heading(out: &mut String, a: &Article)
    ensures
        final(out)@ == old(out)@ + md_heading(a@),
{
    out.append("## [");
    out.append(a.title.as_str());
    out.append("](");
    match &a.url {
        Some(u) => out.append(u.as_str()),
        None => {},
    }
    out.append(")\n");
    proof {
        assert(out@ =~= old(out)@ + md_heading(a@));
    }
}

fn append_date(out: &mut String, d: &Option<Timestamp>)
    requires
        date_printable(*d),
    ensures
        final(out)@ == old(out)@ + md_date(*d),
{
    match d {
        Some(t) => {
            out.append("*Published at: ");
            let text = rfc2822(t);
            out.append(text.as_str());
            out.append("*\n");
            proof {
                assert(out@ =~= old(out)@ + md_date(*d));
            }
        },
        None => {
            proof {
                assert(out@ =~= old(out)@ + md_date(*d));
            }
        },
    }
}

/// Appends one article in Markdown.
pub fn push_markdown_article(out: &mut String, a: &Article)
    requires
        date_printable(a.published_at),
    ensures
        final(out)@ == old(out)@ + md_article(a@),
{
    let ghost s0 = out@;
    append_heading(out, a);
    let ghost s1 = out@;
    append_date(out, &a.published_at);
    let ghost s2 = out@;
    out.append("\n");
    let ghost s3 = out@;
    append_section(out, "**Summary:**\n", &a.summary);
    let ghost s4 = out@;
    append_section(out, "**Content:**\n", &a.content);
    let ghost s5 = out@;
    out.append("\n---\n\n");
    proof {
        assert(out@ =~= s0 + md_heading(a@) + md_date(a.published_at) + "\n"@
            + md_section("**Summary:**\n"@, a@.summary) + md_section("**Content:**\n"@, a@.content)
            + "\n---\n\n"@);
    }
}

/// The articles in Markdown.
pub fn render_markdown(articles: &[Article]) -> (r: String)
    requires
        dates_printable(articles_view(articles@)),
    ensures
        r@ == md_articles(articles_view(articles@)),
{
    let ghost xs = articles_view(articles@);
    let mut out = String::new();
    let mut i: usize = 0;
    while i < articles.len()
        invariant
            xs == articles_view(articles@),
            dates_printable(xs),
            i <= articles@.len(),
            out@ == md_articles(xs.take(i as int)),
        decreases articles@.len() - i,
    {
        proof {
            assert(xs[i as int] == articles@[i as int]@);
        }
        push_markdown_article(&mut out, &articles[i]);
        proof {
            assert(xs.take(i + 1).drop_last() =~= xs.take(i as int));
            assert(xs.take(i + 1).last() == xs[i as int]);
        }
        i = i + 1;
    }
    proof {
        assert(xs.take(i as int) =~= xs);
    }
    out
}

// ---------------------------------------------------------------------------
// JSON.

/// A JSON value of one field of a record.
pub enum JsonScalar {
    Int(i64),
    Str(String),
    Bool(bool),
    Null,
}

pub enum JsonScalarView {
    Int(i64),
    Str(Seq<char>),
    Bool(bool),
    Null,
}

impl View for JsonScalar {
    type V = JsonScalarView;

    open spec fn view(&self) -> JsonScalarView {
        match self {
            JsonScalar::Int(i) => JsonScalarView::Int(*i),
            JsonScalar::Str(s) => JsonScalarView::Str(s@),
            JsonScalar::Bool(b) => JsonScalarView::Bool(*b),
            JsonScalar::Null => JsonScalarView::Null,
        }
    }
}

/// A named field of a JSON record.
pub struct JsonField {
    pub key: String,
    pub value: JsonScalar,
}

pub open spec fn field_view(f: JsonField) -> (Seq<char>, JsonScalarView) {
    (f.key@, f.value@)
}

pub open spec fn record_view(r: Seq<JsonField>) -> Seq<(Seq<char>, JsonScalarView)> {
    r.map_values(|f: JsonField| field_view(f))
}

pub open spec fn records_view(rs: Seq<Vec<JsonField>>) -> Seq<Seq<(Seq<char>, JsonScalarView)>> {
    rs.map_values(|r: Vec<JsonField>| record_view(r@))
}

/// What serde_json `to_string_pretty` writes for an array of objects whose
/// fields come in the given order.
pub uninterp spec fn pretty_json(records: Seq<Seq<(Seq<char>, JsonScalarView)>>) -> Seq<char>;

/// serde_json `to_string_pretty` of the array of these records, each an
/// object with its fields in the given order (the `preserve_order` feature
/// keeps insertion order). The text is named, not spelled out. serde_json
/// documents that serialization fails only where the value's `Serialize`
/// fails or a map has a key that is not a string; `Value`'s `Serialize` only
/// passes on what the serializer reports, its object keys are strings, and
/// writing into the `Vec<u8>` that `to_string_pretty` uses cannot fail, so the
/// call succeeds.
#[verifier::external_body]
fn json_pretty(records: &Vec<Vec<JsonField>>) -> (r: Result<String, serde_json::Error>)
    ensures
        r is Ok,
        r matches Ok(s) ==> s@ == pretty_json(records_view(records@)),
{
    let value = serde_json::Value::Array(records.iter().map(|r| serde_json::Value::Object(
        r.iter().map(|f| (f.key.clone(), match &f.value {
            JsonScalar::Int(i) => serde_json::Value::from(*i),
            JsonScalar::Str(s) => serde_json::Value::String(s.clone()),
            JsonScalar::Bool(b) => serde_json::Value::Bool(*b),
            JsonScalar::Null => serde_json::Value::Null,
        })).collect())).collect());
    serde_json::to_string_pretty(&value)
}

pub open spec fn opt_json(o: Option<Seq<char>>) -> JsonScalarView {
    match o {
        Some(s) => JsonScalarView::Str(s),
        None => JsonScalarView::Null,
    }
}

pub open spec fn date_json(d: Option<Timestamp>) -> JsonScalarView {
    match d {
        Some(t) => JsonScalarView::Str(rfc3339_text(t@)),
        None => JsonScalarView::Null,
    }
}

/// An article as a JSON record, its fields in declaration order.
pub open spec fn article_record(a: ArticleView) -> Seq<(Seq<char>, JsonScalarView)> {
    seq![
        ("id"@, JsonScalarView::Int(a.id)),
        ("feed_id"@, JsonScalarView::Int(a.feed_id)),
        ("guid"@, JsonScalarView::Str(a.guid)),
        ("title"@, JsonScalarView::Str(a.title)),
        ("url"@, opt_json(a.url)),
        ("summary"@, opt_json(a.summary)),
        ("content"@, opt_json(a.content)),
        ("published_at"@, date_json(a.published_at)),
        ("is_read"@, JsonScalarView::Bool(a.is_read)),
    ]
}

pub open spec fn article_records(xs: Seq<ArticleView>) -> Seq<Seq<(Seq<char>, JsonScalarView)>> {
    xs.map_values(|a: ArticleView| article_record(a))
}

fn field(key: &str, value: JsonScalar) -> (r: JsonField)
    ensures
        field_view(r) == (key@, value@),
{
    JsonField { key: string_of(key), value }
}

fn opt_scalar(o: &Option<String>) -> (r: JsonScalar)
    ensures
        r@ == opt_json(opt_view(*o)),
{
    match o {
        Some(s) => JsonScalar::Str(s.clone()),
        None => JsonScalar::Null,
    }
}

/// The JSON record of an article.
pub fn json_record(a: &Article) -> (r: Vec<JsonField>)
    ensures
        record_view(r@) == article_record(a@),
{
    let date = match &a.published_at {
        Some(t) => JsonScalar::Str(rfc3339(t)),
        None => JsonScalar::Null,
    };
    let r = vec![
        field("id", JsonScalar::Int(a.id)),
        field("feed_id", JsonScalar::Int(a.feed_id)),
        field("guid", JsonScalar::Str(a.guid.clone())),
        field("title", JsonScalar::Str(a.title.clone())),
        field("url", opt_scalar(&a.url)),
        field("summary", opt_scalar(&a.summary)),
        field("content", opt_scalar(&a.content)),
        field("published_at", date),
        field("is_read", JsonScalar::Bool(a.is_read)),
    ];
    proof {
        assert(record_view(r@) =~= article_record(a@));
    }
    r
}

/// The articles as pretty-printed JSON: an array of one object per article.
pub fn render_json(articles: &[Article]) -> (r: Result<String, ExportError>)
    ensures
        r matches Ok(s) && s@ == pretty_json(article_records(articles_view(articles@))),
{
    let ghost xs = articles_view(articles@);
    let mut records: Vec<Vec<JsonField>> = Vec::new();
    let mut i: usize = 0;
    while i < articles.len()
        invariant
            xs == articles_view(articles@),
            i <= articles@.len(),
            records_view(records@) == article_records(xs.take(i as int)),
        decreases articles@.len() - i,
    {
        let rec = json_record(&articles[i]);
        let ghost before = records@;
        records.push(rec);
        proof {
            assert(records_view(records@) =~= records_view(before).push(article_record(xs[i as int])));
            assert(article_records(xs.take(i + 1)) =~= article_records(xs.take(i as int)).push(article_record(xs[i as int])));
        }
        i = i + 1;
    }
    proof {
        assert(xs.take(i as int) =~= xs);
    }
    match json_pretty(&records) {
        Ok(s) => Ok(s),
        Err(e) => Err(ExportError::Json(e)),
    }
}

// ---------------------------------------------------------------------------
// Writing.

/// The text written for the articles in the given format, where rendering
/// succeeds.
pub open spec fn rendered(xs: Seq<ArticleView>, format: Format) -> Seq<char> {
    match format {
        Format::Json => pretty_json(article_records(xs)) + "\n"@,
        Format::Markdown => md_articles(xs),
    }
}

/// Appends the articles to `writer` as UTF-8 text: pretty-printed JSON and a
/// newline, or Markdown. Neither fails.
pub fn write_articles(writer: &mut Vec<u8>, articles: &[Article], format: Format) -> (r: Result<(), ExportError>)
    requires
        format == Format::Markdown ==> dates_printable(articles_view(articles@)),
    ensures
        r is Ok,
        match r {
            Ok(()) => final(writer)@ == old(writer)@ + encode_utf8(rendered(articles_view(articles@), format)),
            Err(_) => final(writer)@ == old(writer)@,
        },
{
    let text = match format {
        Format::Json => {
            let mut s = match render_json(articles) {
                Ok(s) => s,
                Err(e) => { return Err(e); },
            };
            s.append("\n");
            s
        },
        Format::Markdown => render_markdown(articles),
    };
    let bytes = text.as_str().as_bytes();
    let ghost before = writer@;
    writer.extend_from_slice(bytes);
    proof {
        assert(writer@ =~= before + bytes@);
    }
    Ok(())
}

/// The first article whose date RFC 2822 cannot spell, if any: every
/// article before it can be written as Markdown.
pub fn first_unprintable_date(articles: &[Article]) -> (r: Option<usize>)
    ensures
        match r {
            None => dates_printable(articles_view(articles@)),
            Some(k) => k < articles@.len() && dates_printable(articles_view(articles@).take(k as int))
                && !date_printable(articles@[k as int].published_at),
        },
{
    let ghost xs = articles_view(articles@);
    let mut i: usize = 0;
    while i < articles.len()
        invariant
            xs == articles_view(articles@),
            i <= articles@.len(),
            forall|k: int| 0 <= k < i ==> date_printable((#[trigger] xs[k]).published_at),
        decreases articles@.len() - i,
    {
        proof {
            assert(xs[i as int] == articles@[i as int]@);
        }
        match &articles[i].published_at {
            Some(t) => {
                let secs = t.secs();
                if secs < crate::timestamp::RFC2822_MIN_SECS || secs >= crate::timestamp::RFC2822_END_SECS {
                    proof {
                        assert forall|k: int| 0 <= k < xs.take(i as int).len() implies
                            date_printable((#[trigger] xs.take(i as int)[k]).published_at) by {
                            assert(xs.take(i as int)[k] == xs[k]);
                        }
                    }
                    return Some(i);
                }
            },
            None => {},
        }
        i = i + 1;
    }
    None
}

/// The heading line that Markdown output gives an article.
pub fn markdown_heading(a: &Article) -> (r: String)
    ensures
        r@ == md_heading(a@),
{
    let mut s = String::new();
    append_heading(&mut s, a);
    proof {
        assert(s@ =~= md_heading(a@));
    }
    s
}
} // verus!
