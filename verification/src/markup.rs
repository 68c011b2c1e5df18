//! Reading HTML: which elements of a page a CSS selector finds, and what they
//! hold. The parsing and the matching are scraper's; this module names their
//! results so that the rules built on them can be stated.

use crate::text::opt_text;
use scraper::ElementRef;
use scraper::Html;
use scraper::Selector;
use vstd::prelude::*;

verus! {

/// What is read from one element that a selector found.
#[derive(Debug, PartialEq, Eq)]
pub struct Found {
    /// The element's content, written out as HTML.
    pub inner_html: String,
    /// The first piece of text inside the element, if it holds any.
    pub text: Option<String>,
    /// The value of the attribute that was asked for, if the element has it.
    pub attribute: Option<String>,
}

/// A found element as a mathematical value.
pub struct FoundView {
    pub inner_html: Seq<char>,
    pub text: Option<Seq<char>>,
    pub attribute: Option<Seq<char>>,
}

impl View for Found {
    type V = FoundView;

    open spec fn view(&self) -> FoundView {
        FoundView {
            inner_html: self.inner_html@,
            text: opt_text(self.text),
            attribute: opt_text(self.attribute),
        }
    }
}

/// The elements of a list as mathematical values.
pub open spec fn found_views(found: Seq<Found>) -> Seq<FoundView> {
    found.map_values(|f: Found| f@)
}

/// The elements of a list of lists as mathematical values.
pub open spec fn found_views2(found: Seq<Vec<Found>>) -> Seq<Seq<FoundView>> {
    found.map_values(|inner: Vec<Found>| found_views(inner@))
}

/// The elements of a list of lists of lists as mathematical values.
pub open spec fn found_views3(found: Seq<Vec<Vec<Found>>>) -> Seq<Seq<Seq<FoundView>>> {
    found.map_values(|inner: Vec<Vec<Found>>| found_views2(inner@))
}

/// The elements of the document `markup` that `selector` matches, in the
/// order in which scraper's `Html::select` yields them, each read with the
/// attribute named `attribute`. `None` where `selector` is no CSS selector.
pub uninterp spec fn selected(markup: Seq<char>, selector: Seq<char>, attribute: Seq<char>)
    -> Option<Seq<FoundView>>;

/// For each element of the document `markup` that `outer` matches, in the
/// order in which scraper's `Html::select` yields them: the elements below it
/// that `inner` matches, in the order in which `ElementRef::select` yields
/// them, each read with the attribute named `attribute`. `None` where `outer`
/// or `inner` is no CSS selector.
pub uninterp spec fn selected_within(
    markup: Seq<char>,
    outer: Seq<char>,
    inner: Seq<char>,
    attribute: Seq<char>,
) -> Option<Seq<Seq<FoundView>>>;

/// For each element of the document `markup` that `outer` matches, in the
/// order in which scraper's `Html::select` yields them, and for each element
/// below it that `middle` matches, in the order in which `ElementRef::select`
/// yields them: the elements below that one that `inner` matches, in that
/// same order, each read with the attribute named `attribute`. `None` where
/// one of the three is no CSS selector.
pub uninterp spec fn selected_in_rows(
    markup: Seq<char>,
    outer: Seq<char>,
    middle: Seq<char>,
    inner: Seq<char>,
    attribute: Seq<char>,
) -> Option<Seq<Seq<Seq<FoundView>>>>;

/// An optional list of found elements as a mathematical value.
pub open spec fn list_view(found: Option<Vec<Found>>) -> Option<Seq<FoundView>> {
    match found {
        Some(f) => Some(found_views(f@)),
        None => None,
    }
}

/// An optional list of lists of found elements as a mathematical value.
pub open spec fn lists_view(found: Option<Vec<Vec<Found>>>) -> Option<Seq<Seq<FoundView>>> {
    match found {
        Some(f) => Some(found_views2(f@)),
        None => None,
    }
}

/// An optional list of lists of lists of found elements as a mathematical value.
pub open spec fn grid_view(found: Option<Vec<Vec<Vec<Found>>>>) -> Option<
    Seq<Seq<Seq<FoundView>>>,
> {
    match found {
        Some(f) => Some(found_views3(f@)),
        None => None,
    }
}

/// scraper's `Html::parse_document`, `Selector::parse` and `Html::select`:
/// the elements of a document that a selector matches, each read with
/// `ElementRef::inner_html`, the first item of `ElementRef::text`, and
/// `ElementRef::attr`. `None` where the selector does not parse. The result
/// depends on the three texts alone.
#[verifier::external_body]
pub(crate) fn select(markup: &str, selector: &str, attribute: &str) -> (found: Option<Vec<Found>>)
    ensures
        list_view(found) == selected(markup@, selector@, attribute@),
{
    let selector = Selector::parse(selector).ok()?;
    let read = |e: ElementRef| Found {
        inner_html: e.inner_html(),
        text: e.text().next().map(str::to_owned),
        attribute: e.attr(attribute).map(str::to_owned),
    };
    Some(Html::parse_document(markup).select(&selector).map(read).collect())
}

/// scraper's `Html::select` followed by `ElementRef::select` on each element
/// found: for each match of `outer` in the document, the matches of `inner`
/// below it, read as in `select`. `None` where a selector does not parse. The
/// result depends on the four texts alone.
#[verifier::external_body]
pub(crate) fn select_within(markup: &str, outer: &str, inner: &str, attribute: &str) -> (found:
    Option<Vec<Vec<Found>>>)
    ensures
        lists_view(found) == selected_within(markup@, outer@, inner@, attribute@),
{
    let (outer, inner) = (Selector::parse(outer).ok()?, Selector::parse(inner).ok()?);
    let read = |e: ElementRef| Found {
        inner_html: e.inner_html(),
        text: e.text().next().map(str::to_owned),
        attribute: e.attr(attribute).map(str::to_owned),
    };
    let page = Html::parse_document(markup);
    Some(page.select(&outer).map(|o| o.select(&inner).map(read).collect()).collect())
}

/// scraper's `Html::select` followed by `ElementRef::select` twice: for each
/// match of `outer` in the document and each match of `middle` below it, the
/// matches of `inner` below that, read as in `select`. `None` where a selector
/// does not parse. The result depends on the five texts alone.
#[verifier::external_body]
pub(crate) fn select_in_rows(
    markup: &str,
    outer: &str,
    middle: &str,
    inner: &str,
    attribute: &str,
) -> (found: Option<Vec<Vec<Vec<Found>>>>)
    ensures
        grid_view(found) == selected_in_rows(markup@, outer@, middle@, inner@, attribute@),
{
    let (outer, middle) = (Selector::parse(outer).ok()?, Selector::parse(middle).ok()?);
    let inner = Selector::parse(inner).ok()?;
    let read = |e: ElementRef| Found {
        inner_html: e.inner_html(),
        text: e.text().next().map(str::to_owned),
        attribute: e.attr(attribute).map(str::to_owned),
    };
    let row = |m: ElementRef| m.select(&inner).map(read).collect();
    let page = Html::parse_document(markup);
    Some(page.select(&outer).map(|o| o.select(&middle).map(row).collect()).collect())
}

} // verus!
