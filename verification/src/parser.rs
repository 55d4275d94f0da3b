//! HTML content parsing: link extraction and content-page classification.

use vstd::prelude::*;
use crate::errors::CrawlError;

verus! {

/// The `href` attribute values of the anchor elements of an HTML document,
/// in document order.  The outcome depends on the document text alone.
pub uninterp spec fn hrefs_of(body: Seq<char>) -> Seq<Seq<char>>;

/// The readable title and body text that content extraction finds in an
/// HTML document fetched from `base`, or `None` when the document is not a
/// content page (or `base` is not an absolute URL).  The outcome depends on
/// the two strings alone.
pub uninterp spec fn readable_of(body: Seq<char>, base: Seq<char>) -> Option<(Seq<char>, Seq<char>)>;

/// Relies on scraper's `Html::parse_document`, `Selector::parse` and the
/// `Html::select` iterator: the `href` values of a document's `<a>`
/// elements, in document order, are a pure function of the document text.
/// (`Selector::parse` cannot fail on the fixed, valid selector used here.)
#[verifier::external_body]
fn extract_hrefs(content: &str) -> (r: Vec<String>)
    ensures
        r.deep_view() == hrefs_of(content@),
{
    let document = scraper::Html::parse_document(content);
    let selector = scraper::Selector::parse("a").unwrap();
    let mut urls = Vec::new();
    for element in document.select(&selector) {
        if let Some(href) = element.value().attr("href") {
            urls.push(href.to_string());
        }
    }
    urls
}

/// Relies on readability's `extractor::extract` (and `url::Url::parse` for
/// the page's own URL): the extracted title and text of a content page are a
/// pure function of the document text and its URL; either step reports
/// failure through a `Result`.
#[verifier::external_body]
fn extract_readable(content: &str, base: &str) -> (r: Option<(String, String)>)
    ensures
        r.deep_view() == readable_of(content@, base@),
{
    let url = match url::Url::parse(base) {
        Ok(u) => u,
        Err(_) => return None,
    };
    let mut reader = std::io::Cursor::new(content.as_bytes());
    match readability::extractor::extract(&mut reader, &url) {
        Ok(product) => Some((product.title, product.text)),
        Err(_) => None,
    }
}

/// The content extractor collaborator.
#[derive(Clone, Copy)]
pub struct Parser;

impl Parser {
    /// A parser.
    pub fn new() -> (r: Self)
        ensures
            true,
    {
        Parser
    }

    /// Parse HTML content: extract every link target, decide whether the
    /// page is a content page, and hand back its title and body text (empty
    /// when it is not a content page).  Links may be relative; resolving
    /// them against the page's URL is the caller's responsibility.
    pub fn parse_content(&self, content: &str, url: &str) -> (r: Result<
        (Vec<String>, bool, Option<String>, Option<String>),
        CrawlError,
    >)
        ensures
            r is Ok,
            (r matches Ok(t) ==> {
                &&& t.0.deep_view() == hrefs_of(content@)
                &&& t.1 == (readable_of(content@, url@) is Some)
                &&& t.2 is Some
                &&& t.3 is Some
                &&& (match readable_of(content@, url@) {
                    Some(tt) => t.2.unwrap()@ == tt.0 && t.3.unwrap()@ == tt.1,
                    None => t.2.unwrap()@ == Seq::<char>::empty() && t.3.unwrap()@
                        == Seq::<char>::empty(),
                })
            }),
    {
        let links = extract_hrefs(content);
        match extract_readable(content, url) {
            Some((title, text)) => Ok((links, true, Some(title), Some(text))),
            None => Ok((links, false, Some(String::new()), Some(String::new()))),
        }
    }
}

} // verus!
