//! Release-notes links: resolution against the releases page, the rule that
//! keeps only links on the vendor's developer host, and the redirect target
//! that a short link's page names.

use crate::text::{chars_of, same_chars, find_char, find_text, first_index_from, first_occurrence_from, occurs_at, push_range};
use vstd::prelude::*;

verus! {

/// The page that lists software releases; relative links resolve against it.
pub const RELEASES_PAGE: &'static str = "https://developer.apple.com/news/releases/";

/// The root of the developer site; redirect targets resolve against it.
pub const SITE_ROOT: &'static str = "https://developer.apple.com/";

/// The only host whose links are kept.
pub const VENDOR_HOST: &'static str = "developer.apple.com";

/// The text that precedes the target of a client-side redirect.
pub const REDIRECT_MARKER: &'static str = "location.replace('";

/// What `url::Url::join` makes of `reference` against the URL that `base`
/// parses to: the resolved URL's text and host, or none where either step
/// returns an error.
pub uninterp spec fn joined_url(base: Seq<char>, reference: Seq<char>) -> Option<(Seq<char>, Option<Seq<char>>)>;

#[verifier::external_type_specification]
#[verifier::external_body]
pub struct ExUrlParseError(url::ParseError);

/// An absolute URL, held as its text and its host.
#[derive(Debug, PartialEq, Eq)]
pub struct ResolvedUrl {
    pub href: String,
    pub host: Option<String>,
}

impl View for ResolvedUrl {
    type V = (Seq<char>, Option<Seq<char>>);

    open spec fn view(&self) -> (Seq<char>, Option<Seq<char>>) {
        (
            self.href@,
            match self.host {
                Some(h) => Some(h@),
                None => None,
            },
        )
    }
}

/// Relies on `url::Url::parse` for `base` and `url::Url::join` for
/// `reference`; the result is carried over as `Url::as_str` and
/// `Url::host_str` give it.
#[verifier::external_body]
fn join_url(base: &str, reference: &str) -> (r: Result<ResolvedUrl, url::ParseError>)
    ensures
        r matches Ok(u) ==> joined_url(base@, reference@) == Some(u@),
        r is Err <==> joined_url(base@, reference@) is None,
{
    let u = url::Url::parse(base)?.join(reference)?;
    Ok(ResolvedUrl { href: u.as_str().to_string(), host: u.host_str().map(|h| h.to_string()) })
}

/// Resolves a release-notes path against the releases page; a path that
/// does not resolve gives no URL.
pub fn build_notes_url(notes_path: Option<String>) -> (r: Option<ResolvedUrl>)
    ensures
        notes_path is None ==> r is None,
        notes_path matches Some(p) ==> match r {
            Some(u) => joined_url(RELEASES_PAGE@, p@) == Some(u@),
            None => joined_url(RELEASES_PAGE@, p@) is None,
        },
{
    match notes_path {
        None => None,
        Some(path) => match join_url(RELEASES_PAGE, path.as_str()) {
            Ok(u) => Some(u),
            Err(_) => None,
        },
    }
}

/// The text of a resolved URL when its host is the vendor's host.
pub open spec fn vendor_only(resolved: Option<(Seq<char>, Option<Seq<char>>)>) -> Option<Seq<char>> {
    match resolved {
        Some((href, Some(host))) => if host == VENDOR_HOST@ {
            Some(href)
        } else {
            None
        },
        _ => None,
    }
}

/// The release-notes link of an article whose block carries `href`.
pub open spec fn notes_link(href: Option<Seq<char>>) -> Option<Seq<char>> {
    match href {
        None => None,
        Some(p) => vendor_only(joined_url(RELEASES_PAGE@, p)),
    }
}

/// Keeps a resolved URL only when its host is the vendor's host.
fn keep_vendor(u: Option<ResolvedUrl>) -> (r: Option<String>)
    ensures
        r matches Some(s) ==> vendor_only(opt_view(u)) == Some(s@),
        r is None <==> vendor_only(opt_view(u)) is None,
{
    match u {
        Some(ResolvedUrl { href, host: Some(host) }) => {
            if same_chars(&chars_of(host.as_str()), &chars_of(VENDOR_HOST)) {
                Some(href)
            } else {
                None
            }
        },
        _ => None,
    }
}

/// The view of an optional resolved URL.
pub open spec fn opt_view(u: Option<ResolvedUrl>) -> Option<(Seq<char>, Option<Seq<char>>)> {
    match u {
        Some(v) => Some(v@),
        None => None,
    }
}

/// The release-notes link of an article: `href` resolved against the
/// releases page, kept only on the vendor's host.
pub fn release_notes_link(href: Option<String>) -> (r: Option<String>)
    ensures
        r matches Some(s) ==> notes_link(opt_text(href)) == Some(s@),
        r is None <==> notes_link(opt_text(href)) is None,
{
    keep_vendor(build_notes_url(href))
}

/// The view of an optional string.
pub open spec fn opt_text(s: Option<String>) -> Option<Seq<char>> {
    match s {
        Some(t) => Some(t@),
        None => None,
    }
}

/// The redirect target that a script names: the text between the first
/// `location.replace('` and the next quote.
pub open spec fn redirect_path(script: Seq<char>) -> Option<Seq<char>> {
    let at = first_occurrence_from(script, REDIRECT_MARKER@, 0);
    if at < 0 {
        None
    } else {
        let start = at + REDIRECT_MARKER@.len();
        let end = first_index_from(script, '\'', start);
        if end < 0 {
            None
        } else {
            Some(script.subrange(start, end))
        }
    }
}

/// The final documentation link that a redirect script leads to: its target
/// resolved against the site root, kept only on the vendor's host.
pub open spec fn unfurled_link(script: Seq<char>) -> Option<Seq<char>> {
    match redirect_path(script) {
        None => None,
        Some(p) => vendor_only(joined_url(SITE_ROOT@, p)),
    }
}

/// The redirect target that `script` names.
pub fn redirect_target(script: &str) -> (r: Option<String>)
    ensures
        r matches Some(p) ==> redirect_path(script@) == Some(p@),
        r is None <==> redirect_path(script@) is None,
{
    let s = chars_of(script);
    let n = s.len();
    let marker = chars_of(REDIRECT_MARKER);
    let at = match find_text(&s, &marker, 0) {
        Some(at) => at,
        None => return None,
    };
    assert(at + marker@.len() <= s@.len()) by {
        lemma_first_occurrence_fits(s@, marker@, 0);
    }
    assert(at + marker.len() <= n);
    let start = at + marker.len();
    match find_char(&s, '\'', start) {
        None => None,
        Some(end) => {
            proof {
                lemma_first_index_bounds(s@, '\'', start as int);
            }
            let mut out = String::new();
            push_range(&mut out, &s, start, end);
            Some(out)
        },
    }
}

/// The final documentation link that the redirect script `script` leads to.
pub fn unfurl_link(script: &str) -> (r: Option<String>)
    ensures
        r matches Some(s) ==> unfurled_link(script@) == Some(s@),
        r is None <==> unfurled_link(script@) is None,
{
    match redirect_target(script) {
        None => None,
        Some(path) => {
            let resolved = match join_url(SITE_ROOT, path.as_str()) {
                Ok(u) => Some(u),
                Err(_) => None,
            };
            keep_vendor(resolved)
        },
    }
}

proof fn lemma_first_occurrence_fits(s: Seq<char>, m: Seq<char>, i: int)
    ensures
        first_occurrence_from(s, m, i) >= 0 ==> i <= first_occurrence_from(s, m, i)
            && first_occurrence_from(s, m, i) + m.len() <= s.len(),
    decreases s.len() + 1 - i,
{
    if i >= 0 && i + m.len() <= s.len() && !occurs_at(s, m, i) {
        lemma_first_occurrence_fits(s, m, i + 1);
    }
}

proof fn lemma_first_index_bounds(s: Seq<char>, c: char, i: int)
    ensures
        first_index_from(s, c, i) >= 0 ==> i <= first_index_from(s, c, i) < s.len(),
    decreases s.len() - i,
{
    if i >= 0 && i < s.len() && s[i] != c {
        lemma_first_index_bounds(s, c, i + 1);
    }
}

/// Links whose host is not the vendor's are dropped, whether they come from
/// an article block or from following a redirect script.
pub proof fn lemma_off_host_links_dropped(href: Seq<char>, script: Seq<char>)
    ensures
        !(joined_url(RELEASES_PAGE@, href) matches Some((_, Some(h))) && h == VENDOR_HOST@)
            ==> notes_link(Some(href)) is None,
        (redirect_path(script) matches Some(p) && !(joined_url(SITE_ROOT@, p) matches Some((_, Some(h))) && h == VENDOR_HOST@))
            ==> unfurled_link(script) is None,
{
}

} // verus!
