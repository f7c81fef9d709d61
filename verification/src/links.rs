//! Absolute URLs in the parts that the crawl reads, and the rules that decide
//! which start address is accepted and which links are followed.
//!
//! Parsing and resolving are the `url` crate's work. Its results are named here
//! and carried as plain strings; the rules on them are proved.

use crate::text::same_text;
use url::Url;
use vstd::prelude::*;

verus! {

/// An absolute URL as a mathematical value: its serialization, its scheme and,
/// where its host is a domain name, that name.
pub struct UrlParts {
    pub text: Seq<char>,
    pub scheme: Seq<char>,
    pub domain: Option<Seq<char>>,
}

/// An absolute URL in the parts that the crawl reads.
#[derive(Debug, Clone, PartialEq, Eq)]
pub struct SiteUrl {
    pub text: String,
    pub scheme: String,
    pub domain: Option<String>,
}

impl View for SiteUrl {
    type V = UrlParts;

    open spec fn view(&self) -> UrlParts {
        UrlParts {
            text: self.text@,
            scheme: self.scheme@,
            domain: match self.domain {
                Some(d) => Some(d@),
                None => None,
            },
        }
    }
}

/// The view of a URL that may be missing.
pub open spec fn parts_of(url: Option<SiteUrl>) -> Option<UrlParts> {
    match url {
        Some(u) => Some(u@),
        None => None,
    }
}

/// The view of a text that may be missing.
pub open spec fn text_of(s: Option<String>) -> Option<Seq<char>> {
    match s {
        Some(t) => Some(t@),
        None => None,
    }
}

/// What `Url::parse` makes of `input`: the serialization, scheme and domain of
/// the URL it returns, or `None` where it returns an error.
pub uninterp spec fn url_parse(input: Seq<char>) -> Option<UrlParts>;

/// What `Url::join` makes of `reference` on the URL that `Url::parse` returns
/// for `base`: the parts of the joined URL, or `None` where either call
/// returns an error.
pub uninterp spec fn url_join(base: Seq<char>, reference: Seq<char>) -> Option<UrlParts>;

/// Calls `Url::parse` and reads the result with `Url::as_str`, `Url::scheme`
/// and `Url::domain`. The three parts are the value that [`url_parse`] names;
/// nothing is claimed of what they hold.
#[verifier::external_body]
pub(crate) fn parse_url(input: &str) -> (r: Option<SiteUrl>)
    ensures
        parts_of(r) == url_parse(input@),
{
    match Url::parse(input) {
        Ok(u) => Some(
            SiteUrl {
                text: String::from(u.as_str()),
                scheme: String::from(u.scheme()),
                domain: u.domain().map(String::from),
            },
        ),
        Err(_) => None,
    }
}

/// Calls `Url::parse` on `base` and `Url::join` with `reference` on its result,
/// and reads the joined URL as [`parse_url`] does. The parts are the value that
/// [`url_join`] names; nothing is claimed of what they hold.
#[verifier::external_body]
pub(crate) fn join_url(base: &str, reference: &str) -> (r: Option<SiteUrl>)
    ensures
        parts_of(r) == url_join(base@, reference@),
{
    let joined = match Url::parse(base) {
        Ok(b) => b.join(reference),
        Err(e) => Err(e),
    };
    match joined {
        Ok(u) => Some(
            SiteUrl {
                text: String::from(u.as_str()),
                scheme: String::from(u.scheme()),
                domain: u.domain().map(String::from),
            },
        ),
        Err(_) => None,
    }
}

/// A crawl starts only at an `http` or `https` address.
pub open spec fn is_web_scheme(scheme: Seq<char>) -> bool {
    scheme == "http"@ || scheme == "https"@
}

/// The start address that a parse result stands for: the parsed URL where
/// there is one and its scheme is `http` or `https`.
pub open spec fn accepted_root(parsed: Option<UrlParts>) -> Option<UrlParts> {
    match parsed {
        Some(u) => if is_web_scheme(u.scheme) {
            Some(u)
        } else {
            None
        },
        None => None,
    }
}

/// The domain that a crawl is held to: the root's domain name, or the empty
/// text where the root's host is not a domain name.
pub open spec fn root_domain_of(root: UrlParts) -> Seq<char> {
    match root.domain {
        Some(d) => d,
        None => Seq::empty(),
    }
}

/// The address to queue for a resolved link: its serialization where the link
/// resolved and its host is the domain name `root_domain`.
pub open spec fn link_target(resolved: Option<UrlParts>, root_domain: Seq<char>) -> Option<
    Seq<char>,
> {
    match resolved {
        Some(u) => if u.domain == Some(root_domain) {
            Some(u.text)
        } else {
            None
        },
        None => None,
    }
}

/// The address to queue for the link `href` found on `page`.
pub open spec fn followed_link(page: Seq<char>, href: Seq<char>, root_domain: Seq<char>) -> Option<
    Seq<char>,
> {
    link_target(url_join(page, href), root_domain)
}

impl SiteUrl {
    /// Whether the scheme is `http` or `https`.
    pub fn is_web(&self) -> (r: bool)
        ensures
            r == is_web_scheme(self@.scheme),
    {
        same_text(self.scheme.as_str(), "http") || same_text(self.scheme.as_str(), "https")
    }

    /// The domain that a crawl from this root is held to.
    pub fn root_domain(&self) -> (r: String)
        ensures
            r@ == root_domain_of(self@),
    {
        match &self.domain {
            Some(d) => d.clone(),
            None => String::new(),
        }
    }
}

/// Decides on a parse result whether a crawl may start there.
pub fn accept_root(parsed: Option<SiteUrl>) -> (r: Option<SiteUrl>)
    ensures
        parts_of(r) == accepted_root(parts_of(parsed)),
{
    match parsed {
        Some(u) => if u.is_web() {
            Some(u)
        } else {
            None
        },
        None => None,
    }
}

/// Parses a start address. It is accepted when it is an absolute URL with the
/// scheme `http` or `https`.
pub fn parse_root_url(input: &str) -> (r: Option<SiteUrl>)
    ensures
        parts_of(r) == accepted_root(url_parse(input@)),
{
    accept_root(parse_url(input))
}

/// Resolves the link `href` found on `page` to an absolute URL.
pub fn resolve_link(page: &str, href: &str) -> (r: Option<SiteUrl>)
    ensures
        parts_of(r) == url_join(page@, href@),
{
    join_url(page, href)
}

/// Decides on a resolved link whether it is followed: it is when it resolved
/// and its host is the domain name `root_domain`. Returns the address to queue.
pub fn follow_link(resolved: Option<SiteUrl>, root_domain: &str) -> (r: Option<String>)
    ensures
        text_of(r) == link_target(parts_of(resolved), root_domain@),
{
    match resolved {
        Some(u) => match u.domain {
            Some(d) => if same_text(d.as_str(), root_domain) {
                Some(u.text)
            } else {
                None
            },
            None => None,
        },
        None => None,
    }
}

/// The address to queue for the link `href` found on `page`, if it is followed.
pub fn link_to_follow(page: &str, href: &str, root_domain: &str) -> (r: Option<String>)
    ensures
        text_of(r) == followed_link(page@, href@, root_domain@),
{
    follow_link(resolve_link(page, href), root_domain)
}

} // verus!
