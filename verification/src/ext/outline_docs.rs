//! OPML documents through `opml` and XML escaping through `quick-xml`.

use vstd::prelude::*;

verus! {

/// The attributes of a top-level OPML `<outline>` the library reads.
pub struct OpmlOutline {
    pub text: String,
    pub title: Option<String>,
    pub xml_url: Option<String>,
    pub html_url: Option<String>,
}

/// `opml::OPML::from_str(text)`: the body's top-level outlines, or the
/// error's text.
pub uninterp spec fn opml_outlines_result(text: Seq<char>) -> Result<Vec<OpmlOutline>, String>;

/// `opml::OPML::from_str`, copying out `text`, `title`, `xml_url` and
/// `html_url` of each outline of `body.outlines`.
#[verifier::external_body]
pub(crate) fn opml_outlines(text: &str) -> (r: Result<Vec<OpmlOutline>, String>)
    ensures
        r == opml_outlines_result(text@),
{
    let doc = ::opml::OPML::from_str(text).map_err(|e| e.to_string())?;
    Ok(doc.body.outlines.iter().map(|o| OpmlOutline {
        text: o.text.clone(),
        title: o.title.clone(),
        xml_url: o.xml_url.clone(),
        html_url: o.html_url.clone(),
    }).collect())
}

/// The escape of one character by `quick_xml::escape::escape`.
pub open spec fn xml_escape_char(c: char) -> Seq<char> {
    if c == '<' {
        "&lt;"@
    } else if c == '>' {
        "&gt;"@
    } else if c == '&' {
        "&amp;"@
    } else if c == '\'' {
        "&apos;"@
    } else if c == '"' {
        "&quot;"@
    } else if c == '\r' {
        "&#13;"@
    } else {
        seq![c]
    }
}

/// `s` with every character escaped as `xml_escape_char` says.
pub open spec fn xml_escaped(s: Seq<char>) -> Seq<char>
    decreases s.len(),
{
    if s.len() == 0 {
        Seq::empty()
    } else {
        xml_escaped(s.drop_last()) + xml_escape_char(s.last())
    }
}

/// `quick_xml::escape::escape`. Its documentation and source replace `<`,
/// `>`, `&`, `'`, `"` and carriage return by `&lt;`, `&gt;`, `&amp;`,
/// `&apos;`, `&quot;` and `&#13;` and keep every other character, which
/// the contract states in full.
#[verifier::external_body]
pub(crate) fn xml_escape(s: &str) -> (r: String)
    ensures
        r@ == xml_escaped(s@),
{
    ::quick_xml::escape::escape(s).to_string()
}

} // verus!
