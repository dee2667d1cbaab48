//! HTML and Markdown processing: `html-to-markdown-rs`, `readability`,
//! `comrak` and `scraper`.

use vstd::prelude::*;

verus! {

/// `html_to_markdown_rs::convert(html, ConversionOptions::default())`: the
/// result's `content`, or the error's text.
pub uninterp spec fn markdown_conversion(html: Seq<char>) -> Result<Option<Seq<char>>, Seq<char>>;

/// `html_to_markdown_rs::convert` with default options.
#[verifier::external_body]
pub(crate) fn html_to_markdown(html: &str) -> (r: Result<Option<String>, String>)
    ensures
        match r {
            Ok(Some(m)) => markdown_conversion(html@) == Ok::<Option<Seq<char>>, Seq<char>>(
                Some(m@),
            ),
            Ok(None) => markdown_conversion(html@) == Ok::<Option<Seq<char>>, Seq<char>>(None),
            Err(e) => markdown_conversion(html@) == Err::<Option<Seq<char>>, Seq<char>>(e@),
        },
{
    ::html_to_markdown_rs::convert(html, ::html_to_markdown_rs::ConversionOptions::default())
        .map(|c| c.content)
        .map_err(|e| e.to_string())
}

/// `readability::extractor::extract(html, Url::parse(url))`: the extracted
/// content, or `None` where the URL does not parse or extraction fails.
pub uninterp spec fn readable_content(html: Seq<char>, url: Seq<char>) -> Option<Seq<char>>;

/// `readability::extractor::extract` on a page and its URL, keeping the
/// product's `content`.
#[verifier::external_body]
pub(crate) fn readability_extract(html: &str, url: &str) -> (r: Option<String>)
    ensures
        match r {
            Some(c) => readable_content(html@, url@) == Some(c@),
            None => readable_content(html@, url@) is None,
        },
{
    let url = ::reqwest::Url::parse(url).ok()?;
    let mut cursor = std::io::Cursor::new(html.as_bytes());
    ::readability::extractor::extract(&mut cursor, &url).ok().map(|p| p.content)
}

/// `comrak::markdown_to_html(md, &Options::default())`.
pub uninterp spec fn markdown_html(md: Seq<char>) -> Seq<char>;

/// `comrak::markdown_to_html` with default options.
#[verifier::external_body]
pub(crate) fn render_markdown(md: &str) -> (r: String)
    ensures
        r@ == markdown_html(md@),
{
    ::comrak::markdown_to_html(md, &::comrak::Options::default())
}

/// For each element of `html` that `selector` selects, in document order,
/// the values of attributes `a` and `b`; where the selector does not parse,
/// the parse error's `Debug` text.
pub uninterp spec fn selected_attr_pairs(
    html: Seq<char>,
    selector: Seq<char>,
    a: Seq<char>,
    b: Seq<char>,
) -> Result<Seq<(Option<Seq<char>>, Option<Seq<char>>)>, Seq<char>>;

/// `scraper::Selector::parse`, `Html::parse_document`, `Html::select` and
/// `Element::attr` for two attributes.
#[verifier::external_body]
pub(crate) fn select_attr_pairs(html: &str, selector: &str, a: &str, b: &str) -> (r: Result<Vec<(Option<String>, Option<String>)>, String>)
    ensures
        match r {
            Ok(v) => selected_attr_pairs(html@, selector@, a@, b@) == Ok::<Seq<(Option<Seq<char>>, Option<Seq<char>>)>, Seq<char>>(v.deep_view()),
            Err(e) => selected_attr_pairs(html@, selector@, a@, b@) == Err::<Seq<(Option<Seq<char>>, Option<Seq<char>>)>, Seq<char>>(e@),
        },
{
    let sel = ::scraper::Selector::parse(selector).map_err(|e| format!("{:?}", e))?;
    let doc = ::scraper::Html::parse_document(html);
    Ok(doc.select(&sel).map(|el| (el.value().attr(a).map(String::from), el.value().attr(b).map(String::from))).collect())
}

} // verus!
