//! Cleaning article HTML into Markdown, with a fallback to the origin page
//! where the feed's content looks truncated.

use vstd::prelude::*;
use vstd::string::StringSliceAdditionalSpecFns;
use vstd::utf8::encode_utf8;

use crate::errors::AppError;
use crate::ext::feed_docs::{utf8_decode_lossy, utf8_lossy};
use crate::ext::markup::{html_to_markdown, markdown_conversion, readability_extract, readable_content};
use crate::ext::regex_scan::{regex_scan, regex_scan_of, scan_text, RegexMatch};
use crate::text::{char_is_whitespace, chars_of, str_eq, collapse_whitespace, collapse_ws, is_ws, push_str, to_string};

verus! {

/// A feed body shorter than this many words is treated as truncated.
pub const TRUNCATED_WORD_THRESHOLD: usize = 50;

/// A feed body shorter than this many bytes is treated as truncated.
pub const TRUNCATED_CHAR_THRESHOLD: usize = 200;

/// `<script>` elements, across lines.
pub const SCRIPT_PATTERN: &'static str = "(?is)<script\\b[^>]*>.*?</script>";

/// `<style>` elements, across lines.
pub const STYLE_PATTERN: &'static str = "(?is)<style\\b[^>]*>.*?</style>";

/// `<div>` elements whose class names an ad or banner, across lines.
pub const AD_DIV_PATTERN: &'static str = "(?is)<div\\b[^>]*\\bclass\\s*=\\s*[\"'][^\"']*(?:\\bad\\b|advertisement|banner)[^\"']*[\"'][^>]*>.*?</div>";

/// AdSense `<ins>` elements, across lines.
pub const AD_INS_PATTERN: &'static str = "(?is)<ins\\b[^>]*\\bclass\\s*=\\s*[\"'][^\"']*adsbygoogle[^\"']*[\"'][^>]*>.*?</ins>";

/// HTML tags.
pub const TAG_PATTERN: &'static str = "<[^>]+>";

/// A raw HTML document and its Markdown rendering.
#[derive(Debug, Clone, PartialEq)]
pub struct CleanedContent {
    pub raw_html: String,
    pub markdown: String,
}

/// The text between the matches of a scan: the text with every match
/// removed.
pub open spec fn kept_text(ms: Seq<RegexMatch>, tail: Seq<char>) -> Seq<char>
    decreases ms.len(),
{
    if ms.len() == 0 {
        tail
    } else {
        ms[0].before@ + kept_text(ms.drop_first(), tail)
    }
}

/// `text` with every match of `pattern` removed, as `Regex::replace_all`
/// with an empty replacement gives it; unchanged where the pattern does not
/// compile.
pub open spec fn remove_matches(pattern: Seq<char>, text: Seq<char>) -> Seq<char> {
    match regex_scan_of(pattern, text) {
        Some(s) => kept_text(s.matches@, s.tail@),
        None => text,
    }
}

proof fn lemma_kept_text_step(ms: Seq<RegexMatch>, tail: Seq<char>, i: int)
    requires
        0 <= i < ms.len(),
    ensures
        kept_text(ms.skip(i), tail) == ms[i].before@ + kept_text(ms.skip(i + 1), tail),
{
    assert(ms.skip(i).drop_first() =~= ms.skip(i + 1));
    assert(ms.skip(i)[0] == ms[i]);
}

/// The number of characters the matches cover.
pub open spec fn matched_len(ms: Seq<RegexMatch>) -> nat
    decreases ms.len(),
{
    if ms.len() == 0 {
        0
    } else {
        ms[0].whole@.len() + matched_len(ms.drop_first())
    }
}

/// No match of `pattern` in `text` covers a character (trivially so where
/// the pattern does not compile): a pass of the pattern removes nothing.
pub open spec fn nothing_matches(pattern: Seq<char>, text: Seq<char>) -> bool {
    match regex_scan_of(pattern, text) {
        Some(s) => matched_len(s.matches@) == 0,
        None => true,
    }
}

proof fn lemma_scan_lengths(ms: Seq<RegexMatch>, tail: Seq<char>)
    ensures
        scan_text(ms, tail).len() == kept_text(ms, tail).len() + matched_len(ms),
        matched_len(ms) == 0 ==> kept_text(ms, tail) == scan_text(ms, tail),
    decreases ms.len(),
{
    if ms.len() > 0 {
        lemma_scan_lengths(ms.drop_first(), tail);
        if matched_len(ms) == 0 {
            assert(ms[0].whole@ =~= Seq::<char>::empty());
            assert(ms[0].before@ + ms[0].whole@ + scan_text(ms.drop_first(), tail) =~= ms[0].before@
                + scan_text(ms.drop_first(), tail));
        }
    }
}

/// Removes every match of `pattern` from `text`.
pub fn remove_all(pattern: &str, text: &str) -> (r: String)
    ensures
        r@ == remove_matches(pattern@, text@),
        r@.len() <= text@.len(),
        r@.len() == text@.len() ==> r@ == text@ && nothing_matches(pattern@, text@),
{
    match regex_scan(pattern, text) {
        None => to_string(text),
        Some(scan) => {
            proof {
                lemma_scan_lengths(scan.matches@, scan.tail@);
            }
            let mut out = String::new();
            let mut i: usize = 0;
            assert(scan.matches@.skip(0) =~= scan.matches@);
            assert(out@ + kept_text(scan.matches@, scan.tail@) =~= kept_text(scan.matches@, scan.tail@));
            while i < scan.matches.len()
                invariant
                    i <= scan.matches@.len(),
                    out@ + kept_text(scan.matches@.skip(i as int), scan.tail@) == kept_text(
                        scan.matches@,
                        scan.tail@,
                    ),
                decreases scan.matches@.len() - i,
            {
                proof {
                    lemma_kept_text_step(scan.matches@, scan.tail@, i as int);
                }
                let ghost before_out = out@;
                push_str(&mut out, scan.matches[i].before.as_str());
                proof {
                    assert(before_out + (scan.matches@[i as int].before@ + kept_text(
                        scan.matches@.skip(i + 1),
                        scan.tail@,
                    )) =~= out@ + kept_text(scan.matches@.skip(i + 1), scan.tail@));
                }
                i = i + 1;
            }
            assert(scan.matches@.skip(i as int) =~= Seq::<RegexMatch>::empty());
            push_str(&mut out, scan.tail.as_str());
            assert(scan.matches@.skip(0) =~= scan.matches@);
            out
        },
    }
}

/// One pass over `html`: scripts, styles and obvious ad elements removed,
/// in that order.
pub open spec fn sanitize_pass_of(html: Seq<char>) -> Seq<char> {
    remove_matches(
        AD_INS_PATTERN@,
        remove_matches(
            AD_DIV_PATTERN@,
            remove_matches(STYLE_PATTERN@, remove_matches(SCRIPT_PATTERN@, html)),
        ),
    )
}

/// `html` after passes repeated until one changes nothing, at most `n` of
/// them.
pub open spec fn sanitize_passes(html: Seq<char>, n: nat) -> Seq<char>
    decreases n,
{
    if n == 0 || sanitize_pass_of(html) == html {
        html
    } else {
        sanitize_passes(sanitize_pass_of(html), (n - 1) as nat)
    }
}

/// `html` without scripts, styles and obvious ad elements: passes are
/// repeated until one changes nothing, since removing an element can join
/// the text around it into a new one (`<scr<script></script>ipt>`). A pass
/// that changes the text shortens it, so one more pass than the text has
/// characters always reaches that point.
pub open spec fn sanitized(html: Seq<char>) -> Seq<char> {
    sanitize_passes(html, html.len() + 1)
}

/// One pass (see `sanitize_pass_of`); a pass never lengthens the text, and
/// one that keeps its length changes nothing and found nothing to remove.
fn sanitize_pass(html: &str) -> (r: String)
    ensures
        r@ == sanitize_pass_of(html@),
        r@.len() <= html@.len(),
        r@.len() == html@.len() ==> r@ == html@ && nothing_matches(SCRIPT_PATTERN@, html@)
            && nothing_matches(STYLE_PATTERN@, html@) && nothing_matches(AD_DIV_PATTERN@, html@)
            && nothing_matches(AD_INS_PATTERN@, html@),
{
    let a = remove_all(SCRIPT_PATTERN, html);
    let b = remove_all(STYLE_PATTERN, a.as_str());
    let c = remove_all(AD_DIV_PATTERN, b.as_str());
    remove_all(AD_INS_PATTERN, c.as_str())
}

/// Strips scripts, styles and obvious ad elements before Markdown
/// conversion, pass after pass until none is left: no match of the script,
/// style or ad patterns remains, and a further pass changes nothing.
pub fn sanitize_html(html: &str) -> (r: String)
    ensures
        r@ == sanitized(html@),
        nothing_matches(SCRIPT_PATTERN@, r@),
        nothing_matches(STYLE_PATTERN@, r@),
        nothing_matches(AD_DIV_PATTERN@, r@),
        nothing_matches(AD_INS_PATTERN@, r@),
        sanitize_pass_of(r@) == r@,
{
    let mut cur = to_string(html);
    let ghost mut fuel: nat = (html@.len() + 1) as nat;
    let mut done = false;
    while !done
        invariant
            fuel >= cur@.len() + 1,
            sanitized(html@) == sanitize_passes(cur@, fuel),
            done ==> sanitize_pass_of(cur@) == cur@ && nothing_matches(SCRIPT_PATTERN@, cur@)
                && nothing_matches(STYLE_PATTERN@, cur@) && nothing_matches(AD_DIV_PATTERN@, cur@)
                && nothing_matches(AD_INS_PATTERN@, cur@),
        decreases cur@.len() + (if done {
            0int
        } else {
            1int
        }),
    {
        let next = sanitize_pass(cur.as_str());
        if str_eq(next.as_str(), cur.as_str()) {
            done = true;
        } else {
            proof {
                fuel = (fuel - 1) as nat;
            }
            cur = next;
        }
    }
    cur
}

/// `html` with its tags removed and whitespace runs collapsed to single
/// spaces.
pub open spec fn tags_stripped(html: Seq<char>) -> Seq<char> {
    collapse_ws(remove_matches(TAG_PATTERN@, html))
}

/// Plain text of an HTML fragment: tags removed, whitespace collapsed.
pub fn strip_html_tags(html: &str) -> (r: String)
    ensures
        r@ == tags_stripped(html@),
{
    let s = remove_all(TAG_PATTERN, html);
    collapse_whitespace(s.as_str())
}

/// Number of words in `s`: maximal runs of non-whitespace characters.
pub open spec fn word_count(s: Seq<char>) -> nat
    decreases s.len(),
{
    if s.len() == 0 {
        0
    } else {
        word_count(s.drop_last()) + if !is_ws(s.last()) && (s.len() == 1 || is_ws(
            s[s.len() - 2],
        )) {
            1nat
        } else {
            0nat
        }
    }
}

/// Markdown that looks cut short: fewer than 50 words or fewer than 200
/// bytes.
pub open spec fn truncated(markdown: Seq<char>, byte_len: nat) -> bool {
    word_count(markdown) < TRUNCATED_WORD_THRESHOLD || byte_len < TRUNCATED_CHAR_THRESHOLD
}

/// Whether Markdown looks cut short (see `truncated`).
pub fn is_truncated(markdown: &str) -> (r: bool)
    ensures
        r == truncated(markdown@, encode_utf8(markdown@).len()),
{
    let v = chars_of(markdown);
    let mut words: usize = 0;
    let mut i: usize = 0;
    while i < v.len()
        invariant
            v@ == markdown@,
            i <= v@.len(),
            words as nat == word_count(v@.take(i as int)),
            words <= i,
        decreases v@.len() - i,
    {
        let starts = !char_is_whitespace(v[i]) && (i == 0 || char_is_whitespace(v[i - 1]));
        proof {
            let t = v@.take(i + 1);
            assert(t.drop_last() =~= v@.take(i as int));
            assert(t.last() == v@[i as int]);
            if i > 0 {
                assert(t[t.len() - 2] == v@[i - 1]);
            }
        }
        if starts {
            words = words + 1;
        }
        i = i + 1;
    }
    assert(v@.take(i as int) =~= markdown@);
    let nbytes = markdown.as_bytes().len();
    assert(markdown.spec_bytes() == encode_utf8(markdown@));
    words < TRUNCATED_WORD_THRESHOLD || nbytes < TRUNCATED_CHAR_THRESHOLD
}

/// The Markdown of an HTML document: the conversion of its sanitized form,
/// or the HTML itself where conversion fails or gives nothing.
pub open spec fn markdown_of(html: Seq<char>) -> Seq<char> {
    match markdown_conversion(sanitized(html)) {
        Ok(Some(m)) => if m.len() > 0 {
            m
        } else {
            html
        },
        _ => html,
    }
}

/// The next step of cleaning a feed's HTML.
#[derive(Debug, Clone, PartialEq)]
pub enum CleanStep {
    /// The feed's content is complete.
    Done(CleanedContent),
    /// The feed's content looks truncated: fetch the origin page, and fall
    /// back to this content where that fails.
    FetchOrigin(CleanedContent),
}

/// Converts HTML to Markdown; holds no state.
#[derive(Debug, Clone, Copy, PartialEq, Default)]
pub struct CleanerService {}

impl CleanerService {
    pub fn new() -> Self {
        CleanerService {  }
    }

    /// Converts HTML to Markdown after stripping scripts, styles and common
    /// ad elements; where conversion fails or gives nothing, the HTML is
    /// kept as the Markdown.
    pub fn clean(&self, html: &str) -> (r: Result<CleanedContent, AppError>)
        ensures
            r matches Ok(c) && c.raw_html@ == html@ && c.markdown@ == markdown_of(html@),
    {
        let sanitized = sanitize_html(html);
        let markdown = match html_to_markdown(sanitized.as_str()) {
            Ok(Some(m)) => {
                if !m.as_str().is_empty() {
                    m
                } else {
                    to_string(html)
                }
            },
            _ => to_string(html),
        };
        Ok(CleanedContent { raw_html: to_string(html), markdown })
    }

    /// The first step of cleaning a feed's HTML: its cleaned form, and
    /// whether it looks truncated so that the origin page is to be fetched.
    pub fn begin_clean(&self, feed_html: &str) -> (r: CleanStep)
        ensures
            match r {
                CleanStep::Done(c) => c.raw_html@ == feed_html@ && c.markdown@ == markdown_of(
                    feed_html@,
                ) && !truncated(c.markdown@, encode_utf8(c.markdown@).len()),
                CleanStep::FetchOrigin(c) => c.raw_html@ == feed_html@ && c.markdown@
                    == markdown_of(feed_html@) && truncated(
                    c.markdown@,
                    encode_utf8(c.markdown@).len(),
                ),
            },
    {
        let c = match self.clean(feed_html) {
            Ok(c) => c,
            Err(_) => {
                return CleanStep::Done(CleanedContent { raw_html: to_string(feed_html), markdown: to_string(feed_html) });
            },
        };
        if is_truncated(c.markdown.as_str()) {
            CleanStep::FetchOrigin(c)
        } else {
            CleanStep::Done(c)
        }
    }

    /// The last step: given the origin page's bytes (`None` where fetching
    /// failed), the readable part of the page and its Markdown; where the
    /// page is missing or readability finds nothing, the feed's cleaned
    /// content.
    pub fn finish_clean(&self, feed_clean: CleanedContent, article_url: &str, page: Option<Vec<u8>>) -> (r:
        CleanedContent)
        ensures
            match page {
                None => r == feed_clean,
                Some(bytes) => match readable_content(utf8_lossy(bytes@), article_url@) {
                    None => r == feed_clean,
                    Some(content) => r.raw_html@ == content && r.markdown@ == markdown_of(content),
                },
            },
    {
        match page {
            None => feed_clean,
            Some(bytes) => {
                let html = utf8_decode_lossy(bytes.as_slice());
                match readability_extract(html.as_str(), article_url) {
                    None => feed_clean,
                    Some(content) => {
                        let cleaned = self.clean(content.as_str());
                        match cleaned {
                            Ok(c) => CleanedContent { raw_html: content, markdown: c.markdown },
                            Err(_) => feed_clean,
                        }
                    },
                }
            },
        }
    }
}

} // verus!
