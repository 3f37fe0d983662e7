//! The streak statistics scraped from the third-party SVG page: three text
//! fields found by fixed structural selectors. Extraction is fail-soft per
//! field — a miss degrades to a sentinel, it never aborts the others.

use kuchiki::traits::TendrilSink;
use vstd::prelude::*;

verus! {

/// The three display fields of the streak page, kept as opaque text.
pub struct StreakStats {
    pub total_contributions: String,
    pub current_streak: String,
    pub longest_streak: String,
}

/// What the fixed structural selector finds in a markup document: `None`
/// when the selector matches nothing or the match has no child,
/// `Some(None)` when the first child is not a text node, `Some(Some(t))`
/// for its text. The result depends on the markup and the selector alone.
pub uninterp spec fn svg_text_of(html: Seq<char>, selector: Seq<char>) -> Option<
    Option<Seq<char>>,
>;

pub open spec fn opt2_view(r: Option<Option<String>>) -> Option<Option<Seq<char>>> {
    match r {
        None => None,
        Some(None) => Some(None),
        Some(Some(s)) => Some(Some(s@)),
    }
}

/// Relies on kuchiki: `parse_html().one(..)` builds the document,
/// `select(..)` walks it with a CSS selector, and the first match's first
/// child is read through `first_child` and `as_text`. The nesting of the
/// two options tells a selector miss apart from a non-text child.
#[verifier::external_body]
fn svg_text_node(html: &str, selector: &str) -> (r: Option<Option<String>>)
    ensures
        opt2_view(r) == svg_text_of(html@, selector@),
{
    let document = kuchiki::parse_html().one(html);
    let first = match document.select(selector) {
        Ok(mut matches) => matches.next(),
        Err(_) => None,
    };
    match first.and_then(|m| m.as_node().first_child()) {
        None => None,
        Some(child) => match child.as_text() {
            None => Some(None),
            Some(text) => Some(Some(text.borrow().clone())),
        },
    }
}

/// A missed selector reads "None", a match without text "Not found".
pub open spec fn field_or_sentinel(x: Option<Option<Seq<char>>>) -> Seq<char> {
    match x {
        None => "None"@,
        Some(None) => "Not found"@,
        Some(Some(t)) => t,
    }
}

fn field_value(x: Option<Option<String>>) -> (r: String)
    ensures
        r@ == field_or_sentinel(opt2_view(x)),
{
    match x {
        None => String::from_str("None"),
        Some(None) => String::from_str("Not found"),
        Some(Some(t)) => t,
    }
}

/// Extracts the three streak fields from the page markup, each by its own
/// fixed selector. Each field degrades to its sentinel by itself when its
/// selector finds nothing, leaving the other two untouched.
pub fn extract_streak_stats(html: &str) -> (r: StreakStats)
    ensures
        r.total_contributions@ == field_or_sentinel(
            svg_text_of(html@, "svg > g > g:nth-child(3) > g:nth-child(1) > text"@),
        ),
        r.current_streak@ == field_or_sentinel(
            svg_text_of(html@, "svg > g > g:nth-child(4) > g:nth-child(5) > text"@),
        ),
        r.longest_streak@ == field_or_sentinel(
            svg_text_of(html@, "svg > g > g:nth-child(5) > g:nth-child(1) > text"@),
        ),
{
    StreakStats {
        total_contributions: field_value(
            svg_text_node(html, "svg > g > g:nth-child(3) > g:nth-child(1) > text"),
        ),
        current_streak: field_value(
            svg_text_node(html, "svg > g > g:nth-child(4) > g:nth-child(5) > text"),
        ),
        longest_streak: field_value(
            svg_text_node(html, "svg > g > g:nth-child(5) > g:nth-child(1) > text"),
        ),
    }
}

} // verus!
