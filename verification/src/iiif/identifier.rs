//! Identifiers: a bare name, or a name followed by `:page:` and a page
//! number.

use crate::digits::{i32_of, parse_i32};
use crate::text::{chars_of, copy_range, find_first, first_match, text_of};
use vstd::prelude::*;

verus! {

/// The name that an identifier stands for: what comes before the first
/// `:page:`, or the whole identifier where there is none.
pub open spec fn base_of(identifier: Seq<char>) -> Seq<char> {
    match first_match(identifier, ":page:"@) {
        Some(at) => identifier.take(at),
        None => identifier,
    }
}

/// What follows the first `:page:` of an identifier.
pub open spec fn selector_of(identifier: Seq<char>) -> Option<Seq<char>> {
    match first_match(identifier, ":page:"@) {
        Some(at) => Some(identifier.skip(at + 6)),
        None => None,
    }
}

/// The page that an identifier selects: the number after the first
/// `:page:`; page 0 where there is no selector or it is no number.
pub open spec fn page_of(identifier: Seq<char>) -> i32 {
    match selector_of(identifier) {
        Some(selector) => match i32_of(selector) {
            Some(page) => page,
            None => 0,
        },
        None => 0,
    }
}

/// The name that the identifier stands for, without its page selector.
pub fn base_identifier(identifier: &str) -> (base: String)
    ensures
        base@ == base_of(identifier@),
{
    let chars = chars_of(identifier);
    let marker = chars_of(":page:");
    match find_first(chars.as_slice(), marker.as_slice()) {
        Some(at) => {
            let head = copy_range(chars.as_slice(), 0, at);
            assert(head@ == identifier@.take(at as int));
            text_of(head.as_slice())
        },
        None => text_of(chars.as_slice()),
    }
}

/// Whether the identifier carries a page selector.
pub fn has_selector(identifier: &str) -> (yes: bool)
    ensures
        yes == selector_of(identifier@) is Some,
{
    let chars = chars_of(identifier);
    let marker = chars_of(":page:");
    find_first(chars.as_slice(), marker.as_slice()).is_some()
}

/// The page that the identifier selects.
pub fn page_index(identifier: &str) -> (page: i32)
    ensures
        page == page_of(identifier@),
{
    let chars = chars_of(identifier);
    let marker = chars_of(":page:");
    let m = marker.as_slice();
    proof {
        reveal_strlit(":page:");
    }
    assert(m@.len() == 6);
    let n = chars.len();
    match find_first(chars.as_slice(), m) {
        Some(at) => {
            let selector = copy_range(chars.as_slice(), at + 6, n);
            assert(selector@ == identifier@.skip(at + 6));
            match parse_i32(selector.as_slice()) {
                Some(page) => page,
                None => 0,
            }
        },
        None => 0,
    }
}

} // verus!
