//! Extraction adapters: from a fetched page to the latest-installment record of a work.
use vstd::prelude::*;
use crate::models::{opt_view, CanonicalRecord, RecordView};
use crate::source::{source_for, Source};
use crate::text::{all_digits, chars_of, decimal_value, parse_decimal};

verus! {

/// Why a page yielded no record. Each missing required field is its own kind.
#[derive(Clone, Copy, Debug, PartialEq, Eq, Structural)]
pub enum ExtractionError {
    MissingTitle,
    MissingLatestInstallment,
    UnparsableInstallmentNumber,
    MissingInstallmentUrl,
    UnsupportedSource,
}

/// What `str::trim` returns for a text.
pub uninterp spec fn trimmed(s: Seq<char>) -> Seq<char>;

/// What `char::is_numeric` returns for a character.
pub uninterp spec fn numeric(c: char) -> bool;

/// The text of each element of the document `html` that the CSS selector `css` matches, in
/// document order.
pub uninterp spec fn selected_texts(html: Seq<char>, css: Seq<char>) -> Seq<Seq<char>>;

/// The attribute `name` of each element of the document `html` that `css` matches, in document
/// order.
pub uninterp spec fn selected_attrs(html: Seq<char>, css: Seq<char>, name: Seq<char>) -> Seq<
    Option<Seq<char>>,
>;

/// For each element of the document `html` that `css` matches, in document order, the text of
/// its first descendant that `inner` matches.
pub uninterp spec fn selected_inner_texts(html: Seq<char>, css: Seq<char>, inner: Seq<char>) -> Seq<
    Option<Seq<char>>,
>;

pub open spec fn texts_view(v: Seq<String>) -> Seq<Seq<char>> {
    v.map_values(|s: String| s@)
}

pub open spec fn opts_view(v: Seq<Option<String>>) -> Seq<Option<Seq<char>>> {
    v.map_values(|o: Option<String>| opt_view(o))
}

/// Relies on `str::trim`: the text without leading and trailing whitespace; the result depends
/// on the text alone.
#[verifier::external_body]
fn trim_text(s: &str) -> (r: String)
    ensures
        r@ == trimmed(s@),
{
    s.trim().to_string()
}

/// Relies on `char::is_numeric`: whether the character is in one of Unicode's number
/// categories; the result depends on the character alone.
#[verifier::external_body]
fn is_numeric_char(c: char) -> (r: bool)
    ensures
        r == numeric(c),
{
    c.is_numeric()
}

/// Relies on scraper's `Html::parse_document`, `Selector::parse`, `Html::select` (matching
/// elements in document order) and `ElementRef::text` (the element's descendant text nodes).
/// A selector that does not parse matches nothing.
#[verifier::external_body]
fn select_texts(html: &str, css: &str) -> (r: Vec<String>)
    ensures
        texts_view(r@) == selected_texts(html@, css@),
{
    let doc = scraper::Html::parse_document(html);
    let mut out = Vec::new();
    if let Ok(sel) = scraper::Selector::parse(css) {
        for e in doc.select(&sel) {
            out.push(e.text().collect::<String>());
        }
    }
    out
}

/// Relies on scraper's `Html::parse_document`, `Selector::parse`, `Html::select` (matching
/// elements in document order) and `ElementRef::attr` (the attribute's value, if present).
/// A selector that does not parse matches nothing.
#[verifier::external_body]
fn select_attrs(html: &str, css: &str, name: &str) -> (r: Vec<Option<String>>)
    ensures
        opts_view(r@) == selected_attrs(html@, css@, name@),
{
    let doc = scraper::Html::parse_document(html);
    let mut out = Vec::new();
    if let Ok(sel) = scraper::Selector::parse(css) {
        for e in doc.select(&sel) {
            out.push(e.attr(name).map(|v| v.to_string()));
        }
    }
    out
}

/// Relies on scraper's `Html::parse_document`, `Selector::parse`, `Html::select` and
/// `ElementRef::select` (matches in document order, descendants only for the latter) and
/// `ElementRef::text`. Where either selector does not parse nothing matches.
#[verifier::external_body]
fn select_inner_texts(html: &str, css: &str, inner: &str) -> (r: Vec<Option<String>>)
    ensures
        opts_view(r@) == selected_inner_texts(html@, css@, inner@),
{
    let doc = scraper::Html::parse_document(html);
    let mut out = Vec::new();
    if let (Ok(sel), Ok(inner_sel)) = (scraper::Selector::parse(css), scraper::Selector::parse(inner)) {
        for e in doc.select(&sel) {
            out.push(e.select(&inner_sel).next().map(|t| t.text().collect::<String>()));
        }
    }
    out
}

/// The numeric characters of `s`, in order.
pub open spec fn keep_numeric(s: Seq<char>) -> Seq<char>
    decreases s.len(),
{
    if s.len() == 0 {
        s
    } else if numeric(s.last()) {
        keep_numeric(s.drop_last()).push(s.last())
    } else {
        keep_numeric(s.drop_last())
    }
}

/// The installment number that a label spells: its numeric characters read as a decimal
/// number that fits in an `i32`.
pub open spec fn installment_number(label: Seq<char>) -> Option<int> {
    let d = keep_numeric(label);
    if d.len() > 0 && all_digits(d) && decimal_value(d) <= i32::MAX {
        Some(decimal_value(d))
    } else {
        None
    }
}

/// The record that a page's parts make: the first title match, trimmed; the last installment
/// anchor's number label and link; the first cover image's source, empty where the image has
/// none. Required parts are checked in that order.
pub open spec fn record_spec(
    titles: Seq<Seq<char>>,
    image_srcs: Seq<Option<Seq<char>>>,
    labels: Seq<Option<Seq<char>>>,
    hrefs: Seq<Option<Seq<char>>>,
) -> Result<RecordView, ExtractionError> {
    if titles.len() == 0 {
        Err(ExtractionError::MissingTitle)
    } else if labels.len() == 0 {
        Err(ExtractionError::MissingLatestInstallment)
    } else if labels.last() is None || installment_number(labels.last()->0) is None {
        Err(ExtractionError::UnparsableInstallmentNumber)
    } else if hrefs.len() == 0 || hrefs.last() is None {
        Err(ExtractionError::MissingInstallmentUrl)
    } else {
        Ok(
            RecordView {
                title: trimmed(titles[0]),
                latest_chapter: installment_number(labels.last()->0)->0,
                chapter_url: hrefs.last()->0,
                image_url: if image_srcs.len() == 0 {
                    None
                } else {
                    match image_srcs[0] {
                        Some(src) => Some(src),
                        None => Some(Seq::empty()),
                    }
                },
            },
        )
    }
}

pub open spec fn result_view(r: Result<CanonicalRecord, ExtractionError>) -> Result<
    RecordView,
    ExtractionError,
> {
    match r {
        Ok(rec) => Ok(rec@),
        Err(e) => Err(e),
    }
}

/// The numeric characters of `label`, in order.
pub fn numeric_part(label: &str) -> (r: Vec<char>)
    ensures
        r@ == keep_numeric(label@),
{
    let cs = chars_of(label);
    let mut r: Vec<char> = Vec::new();
    let mut i: usize = 0;
    while i < cs.len()
        invariant
            cs@ == label@,
            i <= cs.len(),
            r@ == keep_numeric(cs@.take(i as int)),
        decreases cs.len() - i,
    {
        let c = cs[i];
        assert(cs@.take(i + 1).drop_last() =~= cs@.take(i as int));
        if is_numeric_char(c) {
            r.push(c);
        }
        i = i + 1;
    }
    assert(cs@.take(cs.len() as int) =~= cs@);
    r
}

/// The installment number in a label: all non-numeric characters stripped, the rest read as
/// a decimal number.
pub fn parse_installment(label: &str) -> (r: Option<i32>)
    ensures
        r matches Some(n) ==> installment_number(label@) == Some(n as int),
        r is None ==> installment_number(label@) is None,
{
    let digits = numeric_part(label);
    assert(digits@.subrange(0, digits@.len() as int) =~= digits@);
    match parse_decimal(&digits, 0, 2147483647) {
        Some(v) => Some(v as i32),
        None => None,
    }
}

/// Builds the record from a page's parts: the texts of the title matches, the sources of the
/// cover images, and for each installment anchor its number label and its link.
pub fn record_from_parts(
    titles: &Vec<String>,
    image_srcs: &Vec<Option<String>>,
    labels: &Vec<Option<String>>,
    hrefs: &Vec<Option<String>>,
) -> (r: Result<CanonicalRecord, ExtractionError>)
    ensures
        result_view(r) == record_spec(
            texts_view(titles@),
            opts_view(image_srcs@),
            opts_view(labels@),
            opts_view(hrefs@),
        ),
{
    let ghost spec_labels = opts_view(labels@);
    let ghost spec_hrefs = opts_view(hrefs@);
    if titles.len() == 0 {
        return Err(ExtractionError::MissingTitle);
    }
    if labels.len() == 0 {
        return Err(ExtractionError::MissingLatestInstallment);
    }
    let last = labels.len() - 1;
    assert(spec_labels.last() == opt_view(labels@[last as int]));
    let number = match &labels[last] {
        None => {
            return Err(ExtractionError::UnparsableInstallmentNumber);
        },
        Some(label) => match parse_installment(label.as_str()) {
            None => {
                return Err(ExtractionError::UnparsableInstallmentNumber);
            },
            Some(n) => n,
        },
    };
    if hrefs.len() == 0 {
        return Err(ExtractionError::MissingInstallmentUrl);
    }
    assert(spec_hrefs.last() == opt_view(hrefs@[hrefs.len() - 1]));
    let chapter_url = match &hrefs[hrefs.len() - 1] {
        None => {
            return Err(ExtractionError::MissingInstallmentUrl);
        },
        Some(u) => u.clone(),
    };
    let title = trim_text(titles[0].as_str());
    let image_url = if image_srcs.len() == 0 {
        None
    } else {
        match &image_srcs[0] {
            Some(src) => Some(src.clone()),
            None => Some(String::new()),
        }
    };
    Ok(CanonicalRecord { title, latest_chapter: number, chapter_url, image_url })
}

pub open spec fn title_css() -> Seq<char> {
    "h1.entry-title"@
}

pub open spec fn image_css() -> Seq<char> {
    "div.thumb img"@
}

pub open spec fn chapter_css() -> Seq<char> {
    "div.lastend div.inepcx a"@
}

pub open spec fn number_css() -> Seq<char> {
    "span.epcurlast"@
}

/// The record that `source`'s adapter reads from the page `html`.
pub open spec fn extract_spec(source: Source, html: Seq<char>) -> Result<RecordView, ExtractionError> {
    record_spec(
        selected_texts(html, title_css()),
        selected_attrs(html, image_css(), "src"@),
        selected_inner_texts(html, chapter_css(), number_css()),
        selected_attrs(html, chapter_css(), "href"@),
    )
}

impl Source {
    /// The selector of the work's title.
    pub fn title_selector(&self) -> (r: &'static str)
        ensures
            r@ == title_css(),
    {
        "h1.entry-title"
    }

    /// The selector of the cover image.
    pub fn image_selector(&self) -> (r: &'static str)
        ensures
            r@ == image_css(),
    {
        "div.thumb img"
    }

    /// The selector of the installment anchors. The site lists installments oldest first, so
    /// the last match is the latest.
    pub fn chapter_selector(&self) -> (r: &'static str)
        ensures
            r@ == chapter_css(),
    {
        "div.lastend div.inepcx a"
    }

    /// The selector, inside an installment anchor, of its number label.
    pub fn number_selector(&self) -> (r: &'static str)
        ensures
            r@ == number_css(),
    {
        "span.epcurlast"
    }
}

/// Runs `source`'s adapter on the page `html`.
pub fn extract(source: Source, html: &str) -> (r: Result<CanonicalRecord, ExtractionError>)
    ensures
        result_view(r) == extract_spec(source, html@),
{
    let titles = select_texts(html, source.title_selector());
    let image_srcs = select_attrs(html, source.image_selector(), "src");
    let labels = select_inner_texts(html, source.chapter_selector(), source.number_selector());
    let hrefs = select_attrs(html, source.chapter_selector(), "href");
    record_from_parts(&titles, &image_srcs, &labels, &hrefs)
}

/// The record that the adapter of `url`'s site reads from the page `html`.
pub open spec fn scrape_spec(url: Seq<char>, html: Seq<char>) -> Result<RecordView, ExtractionError> {
    match source_for(url) {
        Some(source) => extract_spec(source, html),
        None => Err(ExtractionError::UnsupportedSource),
    }
}

/// Reads the page `html` of `url` with the adapter of the site that `url` belongs to;
/// `UnsupportedSource` for a URL of no supported site.
pub fn scrape_manga_auto(url: &str, html: &str) -> (r: Result<CanonicalRecord, ExtractionError>)
    ensures
        result_view(r) == scrape_spec(url@, html@),
{
    match Source::for_url(url) {
        Some(source) => extract(source, html),
        None => Err(ExtractionError::UnsupportedSource),
    }
}

/// Reads the page `html` of a sing-manga.com `url`; `UnsupportedSource` for a URL of another
/// site.
pub fn scrape_manga_sing_manga(url: &str, html: &str) -> (r: Result<CanonicalRecord, ExtractionError>)
    ensures
        result_view(r) == if source_for(url@) == Some(Source::SingManga) {
            extract_spec(Source::SingManga, html@)
        } else {
            Err(ExtractionError::UnsupportedSource)
        },
{
    match Source::for_url(url) {
        Some(Source::SingManga) => extract(Source::SingManga, html),
        _ => Err(ExtractionError::UnsupportedSource),
    }
}

/// Reads the page `html` of a URL of the Thai manga site, under either spelling of its domain;
/// `UnsupportedSource` for a URL of another site.
pub fn scrape_manga_thai_manga(url: &str, html: &str) -> (r: Result<CanonicalRecord, ExtractionError>)
    ensures
        result_view(r) == if source_for(url@) == Some(Source::ThaiManga) {
            extract_spec(Source::ThaiManga, html@)
        } else {
            Err(ExtractionError::UnsupportedSource)
        },
{
    match Source::for_url(url) {
        Some(Source::ThaiManga) => extract(Source::ThaiManga, html),
        _ => Err(ExtractionError::UnsupportedSource),
    }
}

} // verus!
