//! Verified parser for a plain-text cosmetics catalog.
//!
//! The catalog dialect is a sequence of product blocks, each a fixed list of
//! labelled fields (`*Product 1*: ...`, `*Rating*: ...`, and so on).  The
//! grammar engine recognizes the dialect on a character sequence and reports
//! offset spans; the record extractor turns each matched block into a typed
//! record.

pub mod fields;
pub mod grammar;
pub mod item;
pub mod laws;
pub mod parse;
pub mod record;
pub mod rules;

pub use parse::Grammar;
pub use parse::Rule;
pub use parse::Pair;
pub use parse::ParseError;
pub use parse::parse_document;
pub use record::Product;
pub use record::Decimal;

use vstd::prelude::*;

verus! {

/// True of the three whitespace characters the dialect knows:
/// space, tab, newline.
pub open spec fn is_ws(c: char) -> bool {
    c == ' ' || c == '\t' || c == '\n'
}

/// True of the whitespace characters that may stand inside a field line,
/// before its terminating newline: space and tab.
pub open spec fn is_inline_ws(c: char) -> bool {
    c == ' ' || c == '\t'
}

/// True of the decimal digit characters.
pub open spec fn is_digit(c: char) -> bool {
    48 <= c as u32 <= 57
}

/// One whitespace character, checked in executable code.
pub fn is_ws_char(c: char) -> (r: bool)
    ensures
        r == is_ws(c),
{
    c == ' ' || c == '\t' || c == '\n'
}

/// One inline whitespace character, checked in executable code.
pub fn is_inline_ws_char(c: char) -> (r: bool)
    ensures
        r == is_inline_ws(c),
{
    c == ' ' || c == '\t'
}

/// One decimal digit, checked in executable code.
pub fn is_digit_char(c: char) -> (r: bool)
    ensures
        r == is_digit(c),
{
    let n = c as u32;
    48 <= n && n <= 57
}

} // verus!
