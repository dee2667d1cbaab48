//! Media assets referenced by articles: MIME types, inlining small assets,
//! storing large ones by content hash, and rewriting Markdown image
//! references.
//!
//! Rewriting runs in steps around the network: `plan_image_rewrites` finds
//! the image references and the URLs to fetch, the application fetches each
//! asset and `classify_media` decides how it is kept, and
//! `apply_image_rewrites` writes the new Markdown.

use vstd::prelude::*;

use crate::errors::AppError;
use crate::ext::checks::{all_ascii, to_lowercase, unicode_lowercase};
use crate::ext::digests::{base64_encode, base64_standard, blake3_hex, blake3_hex_of};
use crate::ext::regex_scan::{regex_scan, regex_scan_of, scan_text, RegexMatch};
use crate::ext::url_ops::{url_join, url_join_result, url_parse, url_parse_result, url_path, url_path_result};
use crate::services::auth::split_on;
use crate::text::{lower_seq, chars_of, concat, has_prefix, push_str, starts_with, str_eq, string_of, to_string, trim, trim_seq};

verus! {

/// Assets up to this many bytes are inlined as `data:` URIs.
pub const INLINE_SIZE_LIMIT: usize = 131072;

/// Markdown image references: `![alt](url)` and `![alt](url "title")`.
pub const IMAGE_PATTERN: &'static str = "!\\[([^\\]]*)\\]\\(([^)\\s]+)(?:\\s+\"[^\"]*\")?\\)";

/// How a fetched asset is kept.
#[derive(Debug, Clone, PartialEq)]
pub enum MediaOutcome {
    /// Small enough to inline.
    Inline { mime: String, data: Vec<u8> },
    /// Stored, and served under its hash.
    Proxy { hash: String },
}

/// The part of `s` after the last `c` (all of `s` where there is none), as
/// `str::rsplit(c).next()` gives it.
pub open spec fn after_last(s: Seq<char>, c: char) -> Seq<char>
    decreases s.len(),
{
    if s.len() == 0 {
        Seq::empty()
    } else if s.last() == c {
        Seq::empty()
    } else {
        after_last(s.drop_last(), c).push(s.last())
    }
}

/// The MIME type of a lower-cased file extension the library knows.
pub open spec fn mime_for_ext(e: Seq<char>) -> Option<Seq<char>> {
    if e == "png"@ {
        Some("image/png"@)
    } else if e == "jpg"@ || e == "jpeg"@ {
        Some("image/jpeg"@)
    } else if e == "gif"@ {
        Some("image/gif"@)
    } else if e == "webp"@ {
        Some("image/webp"@)
    } else if e == "svg"@ {
        Some("image/svg+xml"@)
    } else if e == "ico"@ {
        Some("image/x-icon"@)
    } else if e == "mp3"@ {
        Some("audio/mpeg"@)
    } else if e == "mp4"@ {
        Some("video/mp4"@)
    } else if e == "ogg"@ {
        Some("audio/ogg"@)
    } else if e == "webm"@ {
        Some("video/webm"@)
    } else {
        None
    }
}

/// The MIME type guessed from a URL: the extension of its path.
pub open spec fn guessed_mime(url: Seq<char>) -> Option<Seq<char>> {
    match url_path_result(url) {
        Some(p) => mime_for_ext(unicode_lowercase(after_last(p, '.'))),
        None => None,
    }
}

/// `.jpg` and `.jpeg` are both JPEG images: an extension that lower-cases
/// to `jpg` or `jpeg` is `image/jpeg`, and a URL whose path ends in such an
/// extension is guessed as `image/jpeg`.
pub proof fn lemma_jpg_is_jpeg(url: Seq<char>, path: Seq<char>, ext: Seq<char>)
    ensures
        mime_for_ext("jpg"@) == Some("image/jpeg"@),
        mime_for_ext("jpeg"@) == Some("image/jpeg"@),
        url_path_result(url) == Some(path) && after_last(path, '.') == ext && (unicode_lowercase(ext)
            == "jpg"@ || unicode_lowercase(ext) == "jpeg"@) ==> guessed_mime(url) == Some(
            "image/jpeg"@,
        ),
        after_last(path + ".jpg"@, '.') == "jpg"@,
        after_last(path + ".jpeg"@, '.') == "jpeg"@,
{
    reveal_strlit("png");
    reveal_strlit("jpg");
    reveal_strlit("jpeg");
    reveal_strlit(".jpg");
    reveal_strlit(".jpeg");
    assert("png"@ != "jpg"@ && "png"@ != "jpeg"@) by {
        assert("png"@[0] != "jpg"@[0]);
        assert("png"@[0] != "jpeg"@[0]);
    }
    lemma_after_last_suffix(path, "jpg"@);
    lemma_after_last_suffix(path, "jpeg"@);
    assert(path + ".jpg"@ =~= path + seq!['.'] + "jpg"@);
    assert(path + ".jpeg"@ =~= path + seq!['.'] + "jpeg"@);
}

/// The part after the last dot of `p` followed by `.` and a dot-free `e` is
/// `e`.
proof fn lemma_after_last_suffix(p: Seq<char>, e: Seq<char>)
    requires
        forall|i: int| 0 <= i < e.len() ==> e[i] != '.',
    ensures
        after_last(p + seq!['.'] + e, '.') == e,
    decreases e.len(),
{
    let s = p + seq!['.'] + e;
    if e.len() == 0 {
        assert(s.last() == '.');
    } else {
        assert(s.drop_last() =~= p + seq!['.'] + e.drop_last());
        assert(s.last() == e.last());
        lemma_after_last_suffix(p, e.drop_last());
        assert(e.drop_last().push(e.last()) =~= e);
    }
}

fn after_last_dot(s: &str) -> (r: String)
    ensures
        r@ == after_last(s@, '.'),
{
    let v = chars_of(s);
    let mut start: usize = v.len();
    assert(v@.take(start as int) =~= v@);
    assert(v@.skip(start as int) =~= Seq::<char>::empty());
    assert(v@ + Seq::<char>::empty() =~= v@);
    while start > 0 && v[start - 1] != '.'
        invariant
            v@ == s@,
            start <= v@.len(),
            forall|j: int| start <= j < v@.len() ==> v@[j] != '.',
            after_last(v@, '.') == after_last(v@.take(start as int), '.') + v@.skip(start as int),
        decreases start,
    {
        proof {
            let t = v@.take(start as int);
            assert(t.drop_last() =~= v@.take(start - 1));
            assert(t.last() == v@[start - 1]);
            assert(v@.skip(start - 1) =~= seq![v@[start - 1]] + v@.skip(start as int));
            assert(after_last(t, '.') == after_last(v@.take(start - 1), '.').push(v@[start - 1]));
            assert(after_last(v@.take(start - 1), '.').push(v@[start - 1]) + v@.skip(start as int)
                =~= after_last(v@.take(start - 1), '.') + v@.skip(start - 1));
        }
        start = start - 1;
    }
    proof {
        let t = v@.take(start as int);
        if start > 0 {
            assert(t.last() == '.');
        }
        assert(after_last(t, '.') =~= Seq::<char>::empty());
    }
    let mut out: Vec<char> = Vec::new();
    let mut i = start;
    while i < v.len()
        invariant
            v@ == s@,
            start <= i <= v@.len(),
            out@ == v@.subrange(start as int, i as int),
        decreases v@.len() - i,
    {
        out.push(v[i]);
        i = i + 1;
        assert(out@ =~= v@.subrange(start as int, i as int));
    }
    assert(out@ =~= v@.skip(start as int));
    assert(v@.take(v@.len() as int) =~= v@);
    assert(after_last(v@, '.') =~= out@);
    string_of(&out)
}

fn mime_of_ext(e: &str) -> (r: Option<String>)
    ensures
        r.deep_view() == mime_for_ext(e@),
{
    let m: Option<&str> = if str_eq(e, "png") {
        Some("image/png")
    } else if str_eq(e, "jpg") || str_eq(e, "jpeg") {
        Some("image/jpeg")
    } else if str_eq(e, "gif") {
        Some("image/gif")
    } else if str_eq(e, "webp") {
        Some("image/webp")
    } else if str_eq(e, "svg") {
        Some("image/svg+xml")
    } else if str_eq(e, "ico") {
        Some("image/x-icon")
    } else if str_eq(e, "mp3") {
        Some("audio/mpeg")
    } else if str_eq(e, "mp4") {
        Some("video/mp4")
    } else if str_eq(e, "ogg") {
        Some("audio/ogg")
    } else if str_eq(e, "webm") {
        Some("video/webm")
    } else {
        None
    };
    match m {
        Some(s) => Some(to_string(s)),
        None => None,
    }
}

/// Guesses a MIME type from the extension of a URL's path.
pub fn guess_mime(url: &str) -> (r: Option<String>)
    ensures
        r.deep_view() == guessed_mime(url@),
        url_path_result(url@) matches Some(p) && all_ascii(after_last(p, '.')) && (lower_seq(
            after_last(p, '.'),
        ) == "jpg"@ || lower_seq(after_last(p, '.')) == "jpeg"@) ==> r.deep_view() == Some(
            "image/jpeg"@,
        ),
{
    match url_path(url) {
        None => None,
        Some(path) => {
            let ext = after_last_dot(path.as_str());
            let lower = to_lowercase(ext.as_str());
            proof {
                lemma_jpg_is_jpeg(url@, path@, ext@);
            }
            mime_of_ext(lower.as_str())
        },
    }
}

/// The MIME type of a fetched asset: the `Content-Type` header up to its
/// first `;`, trimmed; without the header, the type guessed from the URL;
/// failing that, `application/octet-stream`.
pub open spec fn asset_mime(content_type: Option<Seq<char>>, url: Seq<char>) -> Seq<char> {
    match content_type {
        Some(h) => trim_seq(split_on(h, ';')[0]),
        None => match guessed_mime(url) {
            Some(m) => m,
            None => "application/octet-stream"@,
        },
    }
}

fn first_piece(h: &str) -> (r: String)
    ensures
        r@ == split_on(h@, ';')[0],
{
    let v = chars_of(h);
    let mut out: Vec<char> = Vec::new();
    let mut i: usize = 0;
    while i < v.len() && v[i] != ';'
        invariant
            v@ == h@,
            i <= v@.len(),
            forall|j: int| 0 <= j < i ==> v@[j] != ';',
            out@ == v@.take(i as int),
            crate::services::auth::split_from(h@, ';', 0, Seq::empty()) == crate::services::auth::split_from(
                h@,
                ';',
                i as int,
                out@,
            ),
        decreases v@.len() - i,
    {
        proof {
            assert(out@.push(v@[i as int]) =~= v@.take(i + 1));
        }
        out.push(v[i]);
        i = i + 1;
    }
    string_of(&out)
}

/// The MIME type of a fetched asset (see `asset_mime`).
pub fn media_mime(content_type: Option<&str>, url: &str) -> (r: String)
    ensures
        r@ == asset_mime(
            match content_type {
                Some(h) => Some(h@),
                None => None,
            },
            url@,
        ),
{
    match content_type {
        Some(h) => {
            let first = first_piece(h);
            trim(first.as_str())
        },
        None => match guess_mime(url) {
            Some(m) => m,
            None => to_string("application/octet-stream"),
        },
    }
}

/// How a fetched asset is kept: inline when small, else stored.
#[derive(Debug, Clone, PartialEq)]
pub enum MediaDecision {
    Inline { mime: String, data: Vec<u8> },
    /// Store the bytes under their BLAKE3 hash.
    Store { hash: String, mime: String, size: i64, data: Vec<u8> },
}

/// How an asset with type `mime` and bytes `data` is kept (see
/// `classify_media`).
pub open spec fn media_decision_ok(mime: Seq<char>, data: Seq<u8>, r: MediaDecision) -> bool {
    if data.len() <= INLINE_SIZE_LIMIT {
        r matches MediaDecision::Inline { mime: m, data: d } && m@ == mime && d@ == data
    } else {
        r matches MediaDecision::Store { hash, mime: m, size, data: d } && hash@ == blake3_hex_of(data)
            && m@ == mime && size == data.len() && d@ == data
    }
}

/// Decides how a fetched asset is kept: assets of at most 128 KiB are
/// inlined; larger ones are stored under the BLAKE3 hash of their bytes.
pub fn classify_media(mime: String, data: Vec<u8>) -> (r: MediaDecision)
    requires
        data@.len() <= i64::MAX,
    ensures
        media_decision_ok(mime@, data@, r),
        data@.len() <= INLINE_SIZE_LIMIT ==> r == (MediaDecision::Inline { mime, data }),
        data@.len() > INLINE_SIZE_LIMIT ==> (r matches MediaDecision::Store { hash, mime: m, size, data: d }
            && hash@ == blake3_hex_of(data@) && m == mime && size == data@.len() && d == data),
{
    if data.len() <= INLINE_SIZE_LIMIT {
        MediaDecision::Inline { mime, data }
    } else {
        let hash = blake3_hex(data.as_slice());
        let size = data.len() as i64;
        MediaDecision::Store { hash, mime, size, data }
    }
}

/// Assets are kept by size and by content, whatever their type: an asset is
/// inlined exactly when it is at most 128 KiB, and two larger assets with
/// the same bytes are stored under the same hash (one stored copy), while
/// their types are each kept as given.
pub proof fn lemma_assets_kept_by_content(
    mime1: Seq<char>,
    mime2: Seq<char>,
    data: Seq<u8>,
    r1: MediaDecision,
    r2: MediaDecision,
)
    requires
        media_decision_ok(mime1, data, r1),
        media_decision_ok(mime2, data, r2),
    ensures
        (r1 is Inline) == (data.len() <= INLINE_SIZE_LIMIT),
        (r1 is Inline) == (r2 is Inline),
        r1 is Store ==> r1->Store_hash@ == r2->Store_hash@ && r1->Store_mime@ == mime1
            && r2->Store_mime@ == mime2,
{
}

/// The outcome of a decision once a stored asset is saved.
pub fn outcome_of(decision: MediaDecision) -> (r: MediaOutcome)
    ensures
        match decision {
            MediaDecision::Inline { mime, data } => r == (MediaOutcome::Inline { mime, data }),
            MediaDecision::Store { hash, .. } => r == (MediaOutcome::Proxy { hash }),
        },
{
    match decision {
        MediaDecision::Inline { mime, data } => MediaOutcome::Inline { mime, data },
        MediaDecision::Store { hash, .. } => MediaOutcome::Proxy { hash },
    }
}

/// A URL resolved against a base URL; the URL itself where resolution
/// fails.
pub open spec fn resolved(url: Seq<char>, base: Seq<char>) -> Seq<char> {
    match url_join_result(base, url) {
        Some(u) => u,
        None => url,
    }
}

/// Resolves `url` against the base URL `base`.
pub fn resolve_url(url: &str, base: &str) -> (r: String)
    ensures
        r@ == resolved(url@, base@),
{
    match url_join(base, url) {
        Some(u) => u,
        None => to_string(url),
    }
}

/// One image reference of a Markdown document and the text before it.
#[derive(Debug, Clone, PartialEq)]
pub struct ImageSegment {
    pub before: String,
    /// The whole reference as written.
    pub whole: String,
    pub alt: String,
    /// The resolved URL to fetch; `None` for `data:` URIs, which stay.
    pub fetch: Option<String>,
}

/// The image references of a document, in order, and the text after the
/// last one.
#[derive(Debug, Clone, PartialEq)]
pub struct ImagePlan {
    pub segments: Vec<ImageSegment>,
    pub tail: String,
}

/// Capture group `i` of a match, empty where it did not take part.
pub open spec fn group_text(m: RegexMatch, i: int) -> Seq<char> {
    if 0 <= i < m.groups@.len() {
        match m.groups@[i] {
            Some(g) => g@,
            None => Seq::empty(),
        }
    } else {
        Seq::empty()
    }
}

/// The segment a match of the image pattern becomes.
pub open spec fn segment_of(m: RegexMatch, base: Seq<char>, seg: ImageSegment) -> bool {
    &&& seg.before@ == m.before@
    &&& seg.whole@ == m.whole@
    &&& seg.alt@ == group_text(m, 0)
    &&& if has_prefix(group_text(m, 1), "data:"@) {
        seg.fetch is None
    } else {
        seg.fetch matches Some(f) && f@ == resolved(group_text(m, 1), base)
    }
}

/// The plan describes the scan of `markdown`: one segment per image match.
pub open spec fn plan_of(plan: ImagePlan, markdown: Seq<char>, base: Seq<char>) -> bool {
    match regex_scan_of(IMAGE_PATTERN@, markdown) {
        Some(scan) => {
            &&& plan.tail@ == scan.tail@
            &&& plan.segments@.len() == scan.matches@.len()
            &&& forall|i: int|
                0 <= i < plan.segments@.len() ==> segment_of(
                    scan.matches@[i],
                    base,
                    #[trigger] plan.segments@[i],
                )
        },
        None => plan.segments@.len() == 0 && plan.tail@ == markdown,
    }
}

/// The text a plan stands for: each segment's text and reference as
/// written, then the tail.
pub open spec fn plan_text(segs: Seq<ImageSegment>, tail: Seq<char>) -> Seq<char>
    decreases segs.len(),
{
    if segs.len() == 0 {
        tail
    } else {
        segs[0].before@ + segs[0].whole@ + plan_text(segs.drop_first(), tail)
    }
}

proof fn lemma_plan_text_of_scan(segs: Seq<ImageSegment>, ms: Seq<RegexMatch>, tail: Seq<char>)
    requires
        segs.len() == ms.len(),
        forall|i: int|
            0 <= i < segs.len() ==> (#[trigger] segs[i]).before@ == ms[i].before@ && segs[i].whole@
                == ms[i].whole@,
    ensures
        plan_text(segs, tail) == scan_text(ms, tail),
    decreases segs.len(),
{
    if segs.len() > 0 {
        assert forall|i: int| 0 <= i < segs.drop_first().len() implies (#[trigger] segs.drop_first()[i]).before@
            == ms.drop_first()[i].before@ && segs.drop_first()[i].whole@ == ms.drop_first()[i].whole@ by {
            assert(segs.drop_first()[i] == segs[i + 1]);
            assert(ms.drop_first()[i] == ms[i + 1]);
        }
        assert(segs[0].before@ == ms[0].before@);
        lemma_plan_text_of_scan(segs.drop_first(), ms.drop_first(), tail);
    }
}

fn group_string(m: &RegexMatch, i: usize) -> (r: String)
    ensures
        r@ == group_text(*m, i as int),
{
    if i < m.groups.len() {
        match &m.groups[i] {
            Some(g) => g.clone(),
            None => String::new(),
        }
    } else {
        String::new()
    }
}

/// Finds the image references of a Markdown document and the URLs to
/// fetch, resolved against the article's URL; an article URL that does not
/// parse is an internal error.
pub fn plan_image_rewrites(markdown: &str, article_url: &str) -> (r: Result<ImagePlan, AppError>)
    ensures
        match url_parse_result(article_url@) {
            Err(e) => r matches Err(AppError::Internal(m)) && m@ == "bad article url: "@ + e,
            Ok(_) => r matches Ok(plan) && plan_of(plan, markdown@, article_url@) && plan_text(
                plan.segments@,
                plan.tail@,
            ) == markdown@,
        },
{
    match url_parse(article_url) {
        Err(e) => {
            return Err(AppError::Internal(concat("bad article url: ", e.as_str())));
        },
        Ok(_) => {},
    }
    match regex_scan(IMAGE_PATTERN, markdown) {
        None => Ok(ImagePlan { segments: Vec::new(), tail: to_string(markdown) }),
        Some(scan) => {
            let mut segments: Vec<ImageSegment> = Vec::new();
            let data_prefix = chars_of("data:");
            let mut i: usize = 0;
            while i < scan.matches.len()
                invariant
                    i <= scan.matches@.len(),
                    data_prefix@ == "data:"@,
                    segments@.len() == i,
                    forall|j: int|
                        0 <= j < i ==> segment_of(
                            scan.matches@[j],
                            article_url@,
                            #[trigger] segments@[j],
                        ),
                decreases scan.matches@.len() - i,
            {
                let m = &scan.matches[i];
                let alt = group_string(m, 0);
                let url = group_string(m, 1);
                let uv = chars_of(url.as_str());
                let fetch = if starts_with(&uv, &data_prefix) {
                    None
                } else {
                    Some(resolve_url(url.as_str(), article_url))
                };
                segments.push(ImageSegment { before: m.before.clone(), whole: m.whole.clone(), alt, fetch });
                i = i + 1;
            }
            proof {
                lemma_plan_text_of_scan(segments@, scan.matches@, scan.tail@);
            }
            Ok(ImagePlan { segments, tail: scan.tail })
        },
    }
}

/// The Markdown that replaces a segment's reference, given the outcome of
/// fetching its asset (`None` where that failed): a `data:` URI for an
/// inlined asset, the media proxy path for a stored one, the reference as
/// written otherwise.
pub open spec fn replacement(seg: ImageSegment, outcome: Option<MediaOutcome>) -> Seq<char> {
    if seg.fetch is None {
        seg.whole@
    } else {
        match outcome {
            Some(MediaOutcome::Inline { mime, data }) => "!["@ + seg.alt@ + "](data:"@ + mime@
                + ";base64,"@ + base64_standard(data@) + ")"@,
            Some(MediaOutcome::Proxy { hash }) => "!["@ + seg.alt@ + "](/api/v1/media/"@ + hash@
                + ")"@,
            None => seg.whole@,
        }
    }
}

/// The rewritten document: each segment's text and replacement, then the
/// tail.
pub open spec fn rewritten(segs: Seq<ImageSegment>, outcomes: Seq<Option<MediaOutcome>>, tail: Seq<char>) -> Seq<
    char,
>
    decreases segs.len(),
{
    if segs.len() == 0 || outcomes.len() == 0 {
        tail
    } else {
        segs[0].before@ + replacement(segs[0], outcomes[0]) + rewritten(
            segs.drop_first(),
            outcomes.drop_first(),
            tail,
        )
    }
}

proof fn lemma_rewritten_step(segs: Seq<ImageSegment>, outs: Seq<Option<MediaOutcome>>, tail: Seq<char>, i: int)
    requires
        0 <= i < segs.len(),
        segs.len() == outs.len(),
    ensures
        rewritten(segs.skip(i), outs.skip(i), tail) == segs[i].before@ + replacement(segs[i], outs[i])
            + rewritten(segs.skip(i + 1), outs.skip(i + 1), tail),
{
    assert(segs.skip(i).drop_first() =~= segs.skip(i + 1));
    assert(outs.skip(i).drop_first() =~= outs.skip(i + 1));
    assert(segs.skip(i)[0] == segs[i]);
    assert(outs.skip(i)[0] == outs[i]);
}

fn replacement_text(seg: &ImageSegment, outcome: &Option<MediaOutcome>) -> (r: String)
    ensures
        r@ == replacement(*seg, *outcome),
{
    if seg.fetch.is_none() {
        return seg.whole.clone();
    }
    match outcome {
        Some(MediaOutcome::Inline { mime, data }) => {
            let mut out = concat("![", seg.alt.as_str());
            push_str(&mut out, "](data:");
            push_str(&mut out, mime.as_str());
            push_str(&mut out, ";base64,");
            let b64 = base64_encode(data.as_slice());
            push_str(&mut out, b64.as_str());
            push_str(&mut out, ")");
            out
        },
        Some(MediaOutcome::Proxy { hash }) => {
            let mut out = concat("![", seg.alt.as_str());
            push_str(&mut out, "](/api/v1/media/");
            push_str(&mut out, hash.as_str());
            push_str(&mut out, ")");
            out
        },
        None => seg.whole.clone(),
    }
}

/// Writes the rewritten document from a plan and one fetch outcome per
/// segment.
pub fn apply_image_rewrites(plan: &ImagePlan, outcomes: &Vec<Option<MediaOutcome>>) -> (r: String)
    requires
        outcomes@.len() == plan.segments@.len(),
    ensures
        r@ == rewritten(plan.segments@, outcomes@, plan.tail@),
{
    let mut out = String::new();
    let mut i: usize = 0;
    assert(plan.segments@.skip(0) =~= plan.segments@);
    assert(outcomes@.skip(0) =~= outcomes@);
    assert(out@ + rewritten(plan.segments@, outcomes@, plan.tail@) =~= rewritten(
        plan.segments@,
        outcomes@,
        plan.tail@,
    ));
    while i < plan.segments.len()
        invariant
            outcomes@.len() == plan.segments@.len(),
            i <= plan.segments@.len(),
            out@ + rewritten(plan.segments@.skip(i as int), outcomes@.skip(i as int), plan.tail@)
                == rewritten(plan.segments@, outcomes@, plan.tail@),
        decreases plan.segments@.len() - i,
    {
        proof {
            lemma_rewritten_step(plan.segments@, outcomes@, plan.tail@, i as int);
        }
        let ghost before_out = out@;
        push_str(&mut out, plan.segments[i].before.as_str());
        let rep = replacement_text(&plan.segments[i], &outcomes[i]);
        push_str(&mut out, rep.as_str());
        proof {
            assert(before_out + (plan.segments@[i as int].before@ + replacement(
                plan.segments@[i as int],
                outcomes@[i as int],
            ) + rewritten(plan.segments@.skip(i + 1), outcomes@.skip(i + 1), plan.tail@))
                =~= out@ + rewritten(plan.segments@.skip(i + 1), outcomes@.skip(i + 1), plan.tail@));
        }
        i = i + 1;
    }
    assert(plan.segments@.skip(i as int) =~= Seq::<ImageSegment>::empty());
    push_str(&mut out, plan.tail.as_str());
    out
}

/// Where every fetch failed, the rewritten document is the document as
/// written: references whose assets could not be fetched are left alone.
pub proof fn lemma_failed_fetches_keep_text(
    segs: Seq<ImageSegment>,
    outcomes: Seq<Option<MediaOutcome>>,
    tail: Seq<char>,
)
    requires
        segs.len() == outcomes.len(),
        forall|i: int| 0 <= i < outcomes.len() ==> (#[trigger] outcomes[i]) is None,
    ensures
        rewritten(segs, outcomes, tail) == plan_text(segs, tail),
    decreases segs.len(),
{
    if segs.len() > 0 {
        assert(outcomes[0] is None);
        assert forall|i: int| 0 <= i < outcomes.drop_first().len() implies (
        #[trigger] outcomes.drop_first()[i]) is None by {
            assert(outcomes.drop_first()[i] == outcomes[i + 1]);
        }
        lemma_failed_fetches_keep_text(segs.drop_first(), outcomes.drop_first(), tail);
        assert(segs[0].before@ + replacement(segs[0], outcomes[0]) + rewritten(
            segs.drop_first(),
            outcomes.drop_first(),
            tail,
        ) =~= segs[0].before@ + segs[0].whole@ + plan_text(segs.drop_first(), tail));
    }
}

} // verus!
