//! Regular-expression matching from the `regex` crate.

use vstd::prelude::*;

verus! {

/// One match: the text between the previous match (or the start) and this
/// one, the matched text, and the capture groups after group 0.
pub struct RegexMatch {
    pub before: String,
    pub whole: String,
    pub groups: Vec<Option<String>>,
}

/// All non-overlapping matches of a pattern, in order, and the text after
/// the last one.
pub struct RegexScan {
    pub matches: Vec<RegexMatch>,
    pub tail: String,
}

/// The text a scan was taken of: the pieces put back together.
pub open spec fn scan_text(ms: Seq<RegexMatch>, tail: Seq<char>) -> Seq<char>
    decreases ms.len(),
{
    if ms.len() == 0 {
        tail
    } else {
        ms[0].before@ + ms[0].whole@ + scan_text(ms.drop_first(), tail)
    }
}

/// The matches that `Regex::new(pattern)` and `Regex::captures_iter(text)`
/// find, or `None` where the pattern does not compile.
pub uninterp spec fn regex_scan_of(pattern: Seq<char>, text: Seq<char>) -> Option<RegexScan>;

/// `regex::Regex::new` and `Regex::captures_iter`. The crate documents the
/// matches as successive and non-overlapping, so the text between them, the
/// matches and the tail make up the whole haystack; the contract states that
/// and names the rest.
#[verifier::external_body]
pub(crate) fn regex_scan(pattern: &str, text: &str) -> (r: Option<RegexScan>)
    ensures
        r == regex_scan_of(pattern@, text@),
        r matches Some(s) ==> scan_text(s.matches@, s.tail@) == text@,
{
    let re = ::regex::Regex::new(pattern).ok()?;
    let mut matches = Vec::new();
    let mut last: usize = 0;
    for caps in re.captures_iter(text) {
        let m = caps.get(0).unwrap();
        let groups = caps.iter().skip(1).map(|g| g.map(|x| x.as_str().to_string())).collect();
        matches.push(RegexMatch { before: text[last..m.start()].to_string(), whole: m.as_str().to_string(), groups });
        last = m.end();
    }
    Some(RegexScan { matches, tail: text[last..].to_string() })
}

} // verus!
