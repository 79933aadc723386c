//! Extracting description fragments from a fetched puzzle page.
//!
//! A page carries each part's description inside an element marked with a
//! fixed class. The page is parsed and queried through the `tl` crate and
//! each match's inner markup is converted to Markdown through `mdka`; the
//! logic around those calls — how many fragments are expected and which
//! becomes which part — is verified here.

use vstd::prelude::*;
use crate::error::Error;

verus! {

/// The number of elements marked with the description class that the HTML
/// parsing pipeline finds in a page. The page alone determines it.
pub uninterp spec fn day_desc_count(html: Seq<char>) -> nat;

/// The Markdown rendering of an HTML fragment. The fragment alone
/// determines it.
pub uninterp spec fn markdown_of(html: Seq<char>) -> Seq<char>;

/// Relies on `tl::parse`, `VDom::query_selector`, `NodeHandle::get` and
/// `Node::inner_html`: parses the page and returns the inner markup of every
/// element with the `day-desc` class, in document order. The parsed handles
/// borrow the page and cannot leave this call, so the chain lives in one
/// body. How many elements match is a function of the page alone, stated
/// through [`day_desc_count`]; the markup texts themselves are not modeled,
/// because `tl` serializes a tag's attributes in an unspecified order.
/// `tl::parse` fails only on pages whose byte length overflows a `u32`;
/// such a page is treated as having no marked element.
#[verifier::external_body]
fn find_marked_blocks(html: &str) -> (blocks: Vec<String>)
    ensures
        blocks@.len() == day_desc_count(html@),
{
    let dom = match tl::parse(html, tl::ParserOptions::default()) {
        Ok(dom) => dom,
        Err(_) => return Vec::new(),
    };
    let parser = dom.parser();
    let mut blocks = Vec::new();
    if let Some(elements) = dom.query_selector(".day-desc") {
        for element in elements {
            if let Some(node) = element.get(parser) {
                blocks.push(node.inner_html(parser).into_owned());
            }
        }
    }
    blocks
}

/// Relies on `mdka::html_to_markdown`: converts an HTML fragment to
/// Markdown. The conversion cannot fail and depends on the fragment alone.
#[verifier::external_body]
fn to_markdown(fragment: &str) -> (r: String)
    ensures
        r@ == markdown_of(fragment@),
{
    mdka::html_to_markdown(fragment)
}

/// Turns the marked blocks of a page into the day's descriptions: the first
/// block is part one's description, a second block, if present, is part
/// two's, and a page with no marked block violates the expected page shape.
pub fn descriptions_from_blocks(blocks: &Vec<String>) -> (r: Result<
    (String, Option<String>),
    Error,
>)
    ensures
        blocks@.len() == 0 ==> r == Err::<(String, Option<String>), Error>(Error::Parse),
        blocks@.len() >= 1 ==> (r matches Ok(d) && d.0@ == markdown_of(blocks@[0]@) && (
        blocks@.len() == 1 ==> d.1 is None) && (blocks@.len() >= 2 ==> (d.1 matches Some(d2) && d2@
            == markdown_of(blocks@[1]@)))),
{
    if blocks.len() == 0 {
        return Err(Error::Parse);
    }
    let d1 = to_markdown(blocks[0].as_str());
    let d2 = if blocks.len() >= 2 {
        Some(to_markdown(blocks[1].as_str()))
    } else {
        None
    };
    Ok((d1, d2))
}

/// Extracts the one or two Markdown descriptions from a fetched page.
/// Exactly the pages without a marked description block are rejected; the
/// second description is present exactly when the page has a second marked
/// block.
pub fn extract_descriptions(html: &str) -> (r: Result<(String, Option<String>), Error>)
    ensures
        day_desc_count(html@) == 0 ==> r == Err::<(String, Option<String>), Error>(Error::Parse),
        day_desc_count(html@) >= 1 ==> (r matches Ok(d) && (d.1 is Some <==> day_desc_count(html@)
            >= 2)),
{
    let blocks = find_marked_blocks(html);
    descriptions_from_blocks(&blocks)
}

} // verus!
