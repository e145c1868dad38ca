//! Grammar engine, field layer: the labelled field lines of a catalog item.
//!
//! Every field matcher reports, besides the end of its match, the span of the
//! payload that the record extractor will read: the free text of a text
//! field, the number of a numeric field, the inside of the bracketed list,
//! the quoted text of each review, the boolean of the availability line.

use vstd::prelude::*;
use crate::is_digit;
use crate::is_digit_char;
use crate::grammar::ws_run_end;
use crate::grammar::lemma_ws_run_end_bounds;
use crate::grammar::skip_ws;
use crate::grammar::inline_ws_run_end;
use crate::grammar::lemma_inline_ws_run_end_bounds;
use crate::grammar::skip_inline_ws;
use crate::grammar::digit_run_end;
use crate::grammar::lemma_digit_run_end_bounds;
use crate::grammar::skip_digits;
use crate::grammar::char_scan;
use crate::grammar::lemma_char_scan_bounds;
use crate::grammar::find_char;
use crate::grammar::lit_match;
use crate::grammar::match_lit;
use crate::grammar::product_label;
use crate::grammar::product_label_chars;
use crate::grammar::star_colon;
use crate::grammar::star_colon_chars;
use crate::grammar::skin_type_label;
use crate::grammar::skin_type_label_chars;
use crate::grammar::ingredients_label;
use crate::grammar::ingredients_label_chars;
use crate::grammar::rating_label;
use crate::grammar::rating_label_chars;
use crate::grammar::price_label;
use crate::grammar::price_label_chars;
use crate::grammar::user_ratings_label;
use crate::grammar::user_ratings_label_chars;
use crate::grammar::recommendations_label;
use crate::grammar::recommendations_label_chars;
use crate::grammar::reviews_label;
use crate::grammar::reviews_label_chars;
use crate::grammar::availability_label;
use crate::grammar::availability_label_chars;
use crate::grammar::true_lit;
use crate::rules::any_text_end;
use crate::rules::lemma_any_text_end_bounds;
use crate::rules::match_any_text;
use crate::rules::number_end;
use crate::rules::lemma_number_end_bounds;
use crate::rules::match_number;
use crate::rules::lemma_number_list_end_bounds;
use crate::rules::currency_end;
use crate::rules::match_currency;
use crate::rules::boolean_end;
use crate::rules::match_boolean;
use crate::rules::number_list_end;
use crate::rules::list_items_end;
use crate::rules::match_number_list;

verus! {

/// The tail of a field line: spaces or tabs, then the terminating newline.
/// Gives the position just past the newline.
pub open spec fn line_tail_end(s: Seq<char>, i: int) -> Option<int>
    recommends
        0 <= i <= s.len(),
{
    let j = inline_ws_run_end(s, i);
    if j < s.len() && s[j] == '\n' {
        Some(j + 1)
    } else {
        None
    }
}

pub proof fn lemma_line_tail_end_bounds(s: Seq<char>, i: int)
    requires
        0 <= i <= s.len(),
    ensures
        line_tail_end(s, i) matches Some(e) ==> i < e <= s.len(),
{
    lemma_inline_ws_run_end_bounds(s, i);
}

/// Matches the tail of a field line at `pos`.
pub fn match_line_tail(input: &[char], pos: usize) -> (r: Option<usize>)
    requires
        pos <= input.len(),
    ensures
        match r {
            Some(e) => line_tail_end(input@, pos as int) == Some(e as int) && pos < e
                <= input.len(),
            None => line_tail_end(input@, pos as int) is None,
        },
{
    let j = skip_inline_ws(input, pos);
    if j < input.len() && input[j] == '\n' {
        Some(j + 1)
    } else {
        None
    }
}

/// A labelled free-text field: the label, then `any-text`.  Gives the start
/// of the text payload and the end of the match; the payload runs from that
/// start to the end, trailing newline included.
pub open spec fn text_field_parts(s: Seq<char>, i: int, label: Seq<char>) -> Option<(int, int)> {
    if lit_match(s, i, label) {
        match any_text_end(s, i + label.len()) {
            Some(e) => Some((i + label.len(), e)),
            None => None,
        }
    } else {
        None
    }
}

pub proof fn lemma_text_field_parts_bounds(s: Seq<char>, i: int, label: Seq<char>)
    requires
        0 <= i <= s.len(),
    ensures
        text_field_parts(s, i, label) matches Some(p) ==> i <= p.0 < p.1 <= s.len(),
{
    if lit_match(s, i, label) {
        lemma_any_text_end_bounds(s, i + label.len());
    }
}

/// Matches a labelled free-text field at `pos`.
pub fn match_text_field(input: &[char], pos: usize, label: &[char]) -> (r: Option<(usize, usize)>)
    requires
        pos <= input.len(),
    ensures
        match r {
            Some(p) => text_field_parts(input@, pos as int, label@) == Some(
                (p.0 as int, p.1 as int),
            ) && pos <= p.0 <= p.1 <= input.len(),
            None => text_field_parts(input@, pos as int, label@) is None,
        },
{
    if match_lit(input, pos, label) {
        let lo = pos + label.len();
        match match_any_text(input, lo) {
            Some(e) => Some((lo, e)),
            None => None,
        }
    } else {
        None
    }
}

/// `name`: `*Product <ordinal>*: <free text>` with a line terminator.  The
/// ordinal is any non-empty run of characters other than `*`; it is not
/// validated and not retained.  Gives the text payload start and the end.
pub open spec fn product_name_parts(s: Seq<char>, i: int) -> Option<(int, int)> {
    if lit_match(s, i, product_label()) {
        let k = char_scan(s, i + product_label().len(), '*');
        if i + product_label().len() < k && lit_match(s, k, star_colon()) {
            match any_text_end(s, k + star_colon().len()) {
                Some(e) => Some((k + star_colon().len(), e)),
                None => None,
            }
        } else {
            None
        }
    } else {
        None
    }
}

pub proof fn lemma_product_name_parts_bounds(s: Seq<char>, i: int)
    requires
        0 <= i <= s.len(),
    ensures
        product_name_parts(s, i) matches Some(p) ==> i < p.0 < p.1 <= s.len(),
{
    if lit_match(s, i, product_label()) {
        lemma_char_scan_bounds(s, i + product_label().len(), '*');
        let k = char_scan(s, i + product_label().len(), '*');
        if i + product_label().len() < k && lit_match(s, k, star_colon()) {
            lemma_any_text_end_bounds(s, k + star_colon().len());
        }
    }
}

/// Matches a product name line at `pos`.
pub fn match_product_name(input: &[char], pos: usize) -> (r: Option<(usize, usize)>)
    requires
        pos <= input.len(),
    ensures
        match r {
            Some(p) => product_name_parts(input@, pos as int) == Some((p.0 as int, p.1 as int))
                && pos <= p.0 <= p.1 <= input.len(),
            None => product_name_parts(input@, pos as int) is None,
        },
{
    let lbl = product_label_chars();
    if match_lit(input, pos, lbl.as_slice()) {
        let j = pos + lbl.len();
        let k = find_char(input, j, '*');
        let sc = star_colon_chars();
        if j < k && match_lit(input, k, sc.as_slice()) {
            let lo = k + sc.len();
            match match_any_text(input, lo) {
                Some(e) => Some((lo, e)),
                None => None,
            }
        } else {
            None
        }
    } else {
        None
    }
}

/// `skin-type`: `*Skin Type*: <free text>`.
pub open spec fn skin_type_parts(s: Seq<char>, i: int) -> Option<(int, int)> {
    text_field_parts(s, i, skin_type_label())
}

/// `ingredients`: `*Ingredients*: <free text>`.
pub open spec fn ingredients_parts(s: Seq<char>, i: int) -> Option<(int, int)> {
    text_field_parts(s, i, ingredients_label())
}

/// `recommendations`: `*Recommendations*: <free text>`.
pub open spec fn recommendations_parts(s: Seq<char>, i: int) -> Option<(int, int)> {
    text_field_parts(s, i, recommendations_label())
}

/// `rating`: `*Rating*:`, a number, and the line tail.  Gives the number's
/// span and the end of the match.
pub open spec fn rating_parts(s: Seq<char>, i: int) -> Option<(int, int, int)> {
    if lit_match(s, i, rating_label()) {
        let lo = inline_ws_run_end(s, i + rating_label().len());
        match number_end(s, lo) {
            Some(hi) => match line_tail_end(s, hi) {
                Some(e) => Some((lo, hi, e)),
                None => None,
            },
            None => None,
        }
    } else {
        None
    }
}

pub proof fn lemma_rating_parts_bounds(s: Seq<char>, i: int)
    requires
        0 <= i <= s.len(),
    ensures
        rating_parts(s, i) matches Some(p) ==> i < p.0 < p.1 < p.2 <= s.len(),
{
    if lit_match(s, i, rating_label()) {
        lemma_inline_ws_run_end_bounds(s, i + rating_label().len());
        let lo = inline_ws_run_end(s, i + rating_label().len());
        lemma_number_end_bounds(s, lo);
        match number_end(s, lo) {
            Some(hi) => {
                lemma_line_tail_end_bounds(s, hi);
            },
            None => {},
        }
    }
}

/// Matches a rating line at `pos`.
pub fn match_rating(input: &[char], pos: usize) -> (r: Option<(usize, usize, usize)>)
    requires
        pos <= input.len(),
    ensures
        match r {
            Some(p) => rating_parts(input@, pos as int) == Some(
                (p.0 as int, p.1 as int, p.2 as int),
            ) && pos <= p.0 <= p.1 < p.2 <= input.len(),
            None => rating_parts(input@, pos as int) is None,
        },
{
    let lbl = rating_label_chars();
    if match_lit(input, pos, lbl.as_slice()) {
        let lo = skip_inline_ws(input, pos + lbl.len());
        match match_number(input, lo) {
            Some(hi) => match match_line_tail(input, hi) {
                Some(e) => Some((lo, hi, e)),
                None => None,
            },
            None => None,
        }
    } else {
        None
    }
}

/// `price`: `*Price*:`, a number, a currency code, and the line tail.  The
/// currency is validated but not retained; the number's span is given.
pub open spec fn price_parts(s: Seq<char>, i: int) -> Option<(int, int, int)> {
    if lit_match(s, i, price_label()) {
        let lo = inline_ws_run_end(s, i + price_label().len());
        match number_end(s, lo) {
            Some(hi) => {
                let c = inline_ws_run_end(s, hi);
                match currency_end(s, c) {
                    Some(ce) => match line_tail_end(s, ce) {
                        Some(e) => Some((lo, hi, e)),
                        None => None,
                    },
                    None => None,
                }
            },
            None => None,
        }
    } else {
        None
    }
}

pub proof fn lemma_price_parts_bounds(s: Seq<char>, i: int)
    requires
        0 <= i <= s.len(),
    ensures
        price_parts(s, i) matches Some(p) ==> i < p.0 < p.1 < p.2 <= s.len(),
{
    if lit_match(s, i, price_label()) {
        lemma_inline_ws_run_end_bounds(s, i + price_label().len());
        let lo = inline_ws_run_end(s, i + price_label().len());
        lemma_number_end_bounds(s, lo);
        match number_end(s, lo) {
            Some(hi) => {
                lemma_inline_ws_run_end_bounds(s, hi);
                let c = inline_ws_run_end(s, hi);
                match currency_end(s, c) {
                    Some(ce) => {
                        lemma_line_tail_end_bounds(s, ce);
                    },
                    None => {},
                }
            },
            None => {},
        }
    }
}

/// Matches a price line at `pos`.
pub fn match_price(input: &[char], pos: usize) -> (r: Option<(usize, usize, usize)>)
    requires
        pos <= input.len(),
    ensures
        match r {
            Some(p) => price_parts(input@, pos as int) == Some(
                (p.0 as int, p.1 as int, p.2 as int),
            ) && pos <= p.0 <= p.1 < p.2 <= input.len(),
            None => price_parts(input@, pos as int) is None,
        },
{
    let lbl = price_label_chars();
    if match_lit(input, pos, lbl.as_slice()) {
        let lo = skip_inline_ws(input, pos + lbl.len());
        match match_number(input, lo) {
            Some(hi) => {
                let c = skip_inline_ws(input, hi);
                match match_currency(input, c) {
                    Some(ce) => match match_line_tail(input, ce) {
                        Some(e) => Some((lo, hi, e)),
                        None => None,
                    },
                    None => None,
                }
            },
            None => None,
        }
    } else {
        None
    }
}

/// `user-ratings-list`: `*User Ratings*:`, a bracketed number list, and the
/// line tail.  Gives the span between the brackets and the end.
pub open spec fn user_ratings_parts(s: Seq<char>, i: int) -> Option<(int, int, int)> {
    if lit_match(s, i, user_ratings_label()) {
        let lo = inline_ws_run_end(s, i + user_ratings_label().len());
        match number_list_end(s, lo) {
            Some(le) => match line_tail_end(s, le) {
                Some(e) => Some((lo + 1, le - 1, e)),
                None => None,
            },
            None => None,
        }
    } else {
        None
    }
}

pub proof fn lemma_user_ratings_parts_bounds(s: Seq<char>, i: int)
    requires
        0 <= i <= s.len(),
    ensures
        user_ratings_parts(s, i) matches Some(p) ==> i < p.0 <= p.1 < p.2 <= s.len(),
{
    if lit_match(s, i, user_ratings_label()) {
        lemma_inline_ws_run_end_bounds(s, i + user_ratings_label().len());
        let lo = inline_ws_run_end(s, i + user_ratings_label().len());
        lemma_number_list_end_bounds(s, lo);
        match number_list_end(s, lo) {
            Some(le) => {
                lemma_line_tail_end_bounds(s, le);
            },
            None => {},
        }
    }
}

/// The span between the brackets of a matched number list: whitespace, a
/// number, then comma-and-number groups, up to the closing bracket that
/// stands just past `hi`.
pub open spec fn ratings_inner_matched(s: Seq<char>, lo: int, hi: int) -> bool {
    let n0 = ws_run_end(s, lo);
    match number_end(s, n0) {
        Some(n1) => list_items_end(s, n1) == Some(hi + 1),
        None => false,
    }
}

pub proof fn lemma_user_ratings_parts_matched(s: Seq<char>, i: int)
    requires
        0 <= i <= s.len(),
    ensures
        user_ratings_parts(s, i) matches Some(p) ==> ratings_inner_matched(s, p.0, p.1),
{
    if lit_match(s, i, user_ratings_label()) {
        lemma_inline_ws_run_end_bounds(s, i + user_ratings_label().len());
        let w = inline_ws_run_end(s, i + user_ratings_label().len());
        if 0 <= w && w < s.len() && s[w] == '[' {
            lemma_ws_run_end_bounds(s, w + 1);
        }
    }
}

/// Matches a user-ratings line at `pos`.
pub fn match_user_ratings(input: &[char], pos: usize) -> (r: Option<(usize, usize, usize)>)
    requires
        pos <= input.len(),
    ensures
        match r {
            Some(p) => user_ratings_parts(input@, pos as int) == Some(
                (p.0 as int, p.1 as int, p.2 as int),
            ) && pos < p.0 && p.0 <= p.1 && p.1 < p.2 && p.2 <= input.len(),
            None => user_ratings_parts(input@, pos as int) is None,
        },
{
    let lbl = user_ratings_label_chars();
    if match_lit(input, pos, lbl.as_slice()) {
        let lo = skip_inline_ws(input, pos + lbl.len());
        match match_number_list(input, lo) {
            Some(le) => match match_line_tail(input, le) {
                Some(e) => Some((lo + 1, le - 1, e)),
                None => None,
            },
            None => None,
        }
    } else {
        None
    }
}

/// `review`: an ordinal of digits, a dot, optional spaces, a double-quoted
/// text span, and an optional line tail.  Gives the span inside the quotes
/// and the end of the match.
pub open spec fn review_parts(s: Seq<char>, i: int) -> Option<(int, int, int)> {
    if 0 <= i && i < s.len() && is_digit(s[i]) {
        let d = digit_run_end(s, i);
        if d < s.len() && s[d] == '.' {
            let q = inline_ws_run_end(s, d + 1);
            if q < s.len() && s[q] == '"' {
                let t = char_scan(s, q + 1, '"');
                if t < s.len() {
                    match line_tail_end(s, t + 1) {
                        Some(e) => Some((q + 1, t, e)),
                        None => Some((q + 1, t, t + 1)),
                    }
                } else {
                    None
                }
            } else {
                None
            }
        } else {
            None
        }
    } else {
        None
    }
}

pub proof fn lemma_review_parts_bounds(s: Seq<char>, i: int)
    requires
        0 <= i <= s.len(),
    ensures
        review_parts(s, i) matches Some(p) ==> i < p.0 <= p.1 < p.2 <= s.len(),
{
    if 0 <= i && i < s.len() && is_digit(s[i]) {
        lemma_digit_run_end_bounds(s, i + 1);
        let d = digit_run_end(s, i);
        if d < s.len() && s[d] == '.' {
            lemma_inline_ws_run_end_bounds(s, d + 1);
            let q = inline_ws_run_end(s, d + 1);
            if q < s.len() && s[q] == '"' {
                lemma_char_scan_bounds(s, q + 1, '"');
                let t = char_scan(s, q + 1, '"');
                if t < s.len() {
                    lemma_line_tail_end_bounds(s, t + 1);
                }
            }
        }
    }
}

/// Matches one review entry at `pos`.
pub fn match_review(input: &[char], pos: usize) -> (r: Option<(usize, usize, usize)>)
    requires
        pos <= input.len(),
    ensures
        match r {
            Some(p) => review_parts(input@, pos as int) == Some(
                (p.0 as int, p.1 as int, p.2 as int),
            ) && pos < p.0 && p.0 <= p.1 && p.1 < p.2 && p.2 <= input.len(),
            None => review_parts(input@, pos as int) is None,
        },
{
    if pos < input.len() && is_digit_char(input[pos]) {
        let d = skip_digits(input, pos);
        if d < input.len() && input[d] == '.' {
            let q = skip_inline_ws(input, d + 1);
            if q < input.len() && input[q] == '"' {
                let t = find_char(input, q + 1, '"');
                if t < input.len() {
                    match match_line_tail(input, t + 1) {
                        Some(e) => Some((q + 1, t, e)),
                        None => Some((q + 1, t, t + 1)),
                    }
                } else {
                    None
                }
            } else {
                None
            }
        } else {
            None
        }
    } else {
        None
    }
}

/// After the first review of a block: zero or more further reviews, each
/// preceded by whitespace.  Gives their quoted spans and the end of the
/// block, which is the end of the last review.
pub open spec fn reviews_tail(s: Seq<char>, i: int) -> (Seq<(int, int)>, int)
    decreases s.len() - i when 0 <= i <= s.len()
{
    let k = ws_run_end(s, i);
    match review_parts(s, k) {
        Some(p) => if i < p.2 && p.2 <= s.len() {
            let rest = reviews_tail(s, p.2);
            (seq![(p.0, p.1)] + rest.0, rest.1)
        } else {
            (Seq::empty(), i)
        },
        None => (Seq::empty(), i),
    }
}

pub proof fn lemma_reviews_tail_props(s: Seq<char>, i: int)
    requires
        0 <= i <= s.len(),
    ensures
        i <= reviews_tail(s, i).1 <= s.len(),
        forall|k: int|
            0 <= k < reviews_tail(s, i).0.len() ==> i < (#[trigger] reviews_tail(s, i).0[k]).0
                <= reviews_tail(s, i).0[k].1 < reviews_tail(s, i).1,
        forall|a: int, b: int|
            0 <= a < b < reviews_tail(s, i).0.len() ==> (#[trigger] reviews_tail(s, i).0[a]).1 < (
            #[trigger] reviews_tail(s, i).0[b]).0,
    decreases s.len() - i,
{
    lemma_ws_run_end_bounds(s, i);
    let k = ws_run_end(s, i);
    lemma_review_parts_bounds(s, k);
    match review_parts(s, k) {
        Some(p) => {
            if i < p.2 && p.2 <= s.len() {
                lemma_reviews_tail_props(s, p.2);
            }
        },
        None => {},
    }
}

pub proof fn lemma_reviews_parts_props(s: Seq<char>, i: int)
    requires
        0 <= i <= s.len(),
    ensures
        reviews_parts(s, i) matches Some(q) ==> {
            &&& i < q.1 <= s.len()
            &&& forall|k: int| 0 <= k < q.0.len() ==> i < (#[trigger] q.0[k]).0 <= q.0[k].1 < q.1
            &&& forall|a: int, b: int|
                0 <= a < b < q.0.len() ==> (#[trigger] q.0[a]).1 < (#[trigger] q.0[b]).0
        },
{
    if lit_match(s, i, reviews_label()) {
        lemma_line_tail_end_bounds(s, i + reviews_label().len());
        match line_tail_end(s, i + reviews_label().len()) {
            Some(j) => {
                lemma_ws_run_end_bounds(s, j);
                let k = ws_run_end(s, j);
                lemma_review_parts_bounds(s, k);
                match review_parts(s, k) {
                    Some(p) => {
                        if 0 <= p.2 && p.2 <= s.len() {
                            lemma_reviews_tail_props(s, p.2);
                        }
                    },
                    None => {},
                }
            },
            None => {},
        }
    }
}

/// `reviews-block`: `*Reviews*:`, a line terminator, and one or more review
/// entries.  Gives the quoted span of each review, in order, and the end.
pub open spec fn reviews_parts(s: Seq<char>, i: int) -> Option<(Seq<(int, int)>, int)> {
    if lit_match(s, i, reviews_label()) {
        match line_tail_end(s, i + reviews_label().len()) {
            Some(j) => {
                let k = ws_run_end(s, j);
                match review_parts(s, k) {
                    Some(p) => if 0 <= p.2 && p.2 <= s.len() {
                        let rest = reviews_tail(s, p.2);
                        Some((seq![(p.0, p.1)] + rest.0, rest.1))
                    } else {
                        None
                    },
                    None => None,
                }
            },
            None => None,
        }
    } else {
        None
    }
}

/// The sequence of span pairs that a vector of index pairs stands for.
pub open spec fn spans_view(v: Seq<(usize, usize)>) -> Seq<(int, int)> {
    v.map_values(|p: (usize, usize)| (p.0 as int, p.1 as int))
}

/// Matches a reviews block at `pos`, collecting the quoted spans.
pub fn match_reviews(input: &[char], pos: usize) -> (r: Option<(Vec<(usize, usize)>, usize)>)
    requires
        pos <= input.len(),
    ensures
        match r {
            Some(p) => {
                &&& reviews_parts(input@, pos as int) matches Some(q)
                &&& spans_view(p.0@) == q.0
                &&& p.1 as int == q.1
                &&& pos < p.1 <= input.len()
                &&& forall|k: int|
                    0 <= k < p.0@.len() ==> (#[trigger] p.0@[k]).0 <= p.0@[k].1 <= input.len()
            },
            None => reviews_parts(input@, pos as int) is None,
        },
{
    let lbl = reviews_label_chars();
    if !match_lit(input, pos, lbl.as_slice()) {
        return None;
    }
    let j = match match_line_tail(input, pos + lbl.len()) {
        Some(j) => j,
        None => {
            return None;
        },
    };
    let k = skip_ws(input, j);
    let mut acc: Vec<(usize, usize)> = Vec::new();
    let mut cur: usize;
    match match_review(input, k) {
        Some(p) => {
            acc.push((p.0, p.1));
            cur = p.2;
        },
        None => {
            return None;
        },
    }
    let ghost whole = reviews_parts(input@, pos as int).unwrap();
    proof {
        assert(spans_view(acc@) + reviews_tail(input@, cur as int).0 =~= whole.0);
    }
    loop
        invariant
            pos < cur <= input.len(),
            forall|k: int|
                0 <= k < acc@.len() ==> (#[trigger] acc@[k]).0 <= acc@[k].1 <= input.len(),
            reviews_parts(input@, pos as int) == Some(whole),
            spans_view(acc@) + reviews_tail(input@, cur as int).0 == whole.0,
            reviews_tail(input@, cur as int).1 == whole.1,
        decreases input.len() - cur,
    {
        let k2 = skip_ws(input, cur);
        match match_review(input, k2) {
            Some(p) => {
                proof {
                    assert(spans_view(acc@.push((p.0, p.1))) =~= spans_view(acc@) + seq![
                        (p.0 as int, p.1 as int),
                    ]);
                    assert(spans_view(acc@) + (seq![(p.0 as int, p.1 as int)] + reviews_tail(
                        input@,
                        p.2 as int,
                    ).0) =~= (spans_view(acc@) + seq![(p.0 as int, p.1 as int)]) + reviews_tail(
                        input@,
                        p.2 as int,
                    ).0);
                }
                acc.push((p.0, p.1));
                cur = p.2;
            },
            None => {
                proof {
                    assert(spans_view(acc@) + reviews_tail(input@, cur as int).0 =~= spans_view(
                        acc@,
                    ));
                }
                return Some((acc, cur));
            },
        }
    }
}

/// `availability`: `*Availability*:`, a boolean, and the line tail.  Gives
/// whether the literal was `true`, and the end of the match.
pub open spec fn availability_parts(s: Seq<char>, i: int) -> Option<(bool, int)> {
    if lit_match(s, i, availability_label()) {
        let b = inline_ws_run_end(s, i + availability_label().len());
        match boolean_end(s, b) {
            Some(be) => match line_tail_end(s, be) {
                Some(e) => Some((lit_match(s, b, true_lit()), e)),
                None => None,
            },
            None => None,
        }
    } else {
        None
    }
}

pub proof fn lemma_availability_parts_bounds(s: Seq<char>, i: int)
    requires
        0 <= i <= s.len(),
    ensures
        availability_parts(s, i) matches Some(p) ==> i < p.1 <= s.len(),
{
    if lit_match(s, i, availability_label()) {
        lemma_inline_ws_run_end_bounds(s, i + availability_label().len());
        let b = inline_ws_run_end(s, i + availability_label().len());
        match boolean_end(s, b) {
            Some(be) => {
                lemma_line_tail_end_bounds(s, be);
            },
            None => {},
        }
    }
}

/// Matches an availability line at `pos`.
pub fn match_availability(input: &[char], pos: usize) -> (r: Option<(bool, usize)>)
    requires
        pos <= input.len(),
    ensures
        match r {
            Some(p) => availability_parts(input@, pos as int) == Some((p.0, p.1 as int)) && pos
                < p.1 <= input.len(),
            None => availability_parts(input@, pos as int) is None,
        },
{
    let lbl = availability_label_chars();
    if match_lit(input, pos, lbl.as_slice()) {
        let b = skip_inline_ws(input, pos + lbl.len());
        match match_boolean(input, b) {
            Some(be) => match match_line_tail(input, be) {
                Some(e) => {
                    let tl = crate::grammar::true_chars();
                    let is_true = match_lit(input, b, tl.as_slice());
                    Some((is_true, e))
                },
                None => None,
            },
            None => None,
        }
    } else {
        None
    }
}

} // verus!
