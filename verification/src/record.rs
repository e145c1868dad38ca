//! Record extractor: turns one matched item node into a typed product
//! record.
//!
//! Extraction is total: once the grammar has matched, every field of the
//! record is populated, an anomalous payload degrading to the field's
//! default (empty text, zero, the empty list, `false`) rather than failing.
//! Numbers are kept as exact decimals — sign, integer digits, fraction
//! digits — exactly as they stood in the source.

use vstd::prelude::*;
use crate::is_digit;
use crate::is_digit_char;
use crate::is_ws;
use crate::grammar::ws_run_end;
use crate::grammar::lemma_ws_run_end_bounds;
use crate::grammar::lemma_ws_run_chars;
use crate::grammar::digit_run_end;
use crate::grammar::lemma_digit_run_end_bounds;
use crate::grammar::lemma_digit_run_chars;
use crate::grammar::lemma_digit_run_end_char;
use crate::grammar::skip_digits;
use crate::rules::number_end;
use crate::rules::lemma_number_end_bounds;
use crate::rules::lemma_number_chars;
use crate::rules::list_items_end;
use crate::rules::lemma_list_items_end_bounds;
use crate::item::ItemParts;
use crate::item::ItemNode;
use crate::item::item_wf;

verus! {

/// True of the characters that trimming strips from the edges of a payload:
/// space, tab, newline, carriage return.
pub open spec fn is_trim_ws(c: char) -> bool {
    c == ' ' || c == '\t' || c == '\n' || c == '\r'
}

/// One trimmable character, checked in executable code.
pub fn is_trim_ws_char(c: char) -> (r: bool)
    ensures
        r == is_trim_ws(c),
{
    c == ' ' || c == '\t' || c == '\n' || c == '\r'
}

/// Left edge of the span `[lo, hi)` after trimming.
pub open spec fn trim_lo(s: Seq<char>, lo: int, hi: int) -> int
    recommends
        0 <= lo <= hi <= s.len(),
    decreases hi - lo when 0 <= lo <= hi <= s.len()
{
    if lo < hi && is_trim_ws(s[lo]) {
        trim_lo(s, lo + 1, hi)
    } else {
        lo
    }
}

/// Right edge of the span `[lo, hi)` after trimming.
pub open spec fn trim_hi(s: Seq<char>, lo: int, hi: int) -> int
    recommends
        0 <= lo <= hi <= s.len(),
    decreases hi - lo when 0 <= lo <= hi <= s.len()
{
    if lo < hi && is_trim_ws(s[hi - 1]) {
        trim_hi(s, lo, hi - 1)
    } else {
        hi
    }
}

pub proof fn lemma_trim_lo_run(s: Seq<char>, lo: int, m: int, hi: int)
    requires
        0 <= lo <= m <= hi <= s.len(),
        forall|k: int| lo <= k < m ==> is_trim_ws(#[trigger] s[k]),
        m == hi || !is_trim_ws(s[m]),
    ensures
        trim_lo(s, lo, hi) == m,
    decreases m - lo,
{
    if lo < m {
        lemma_trim_lo_run(s, lo + 1, m, hi);
    }
}

pub proof fn lemma_trim_hi_run(s: Seq<char>, lo: int, m: int, hi: int)
    requires
        0 <= lo <= m <= hi <= s.len(),
        forall|k: int| m <= k < hi ==> is_trim_ws(#[trigger] s[k]),
        m == lo || !is_trim_ws(s[m - 1]),
    ensures
        trim_hi(s, lo, hi) == m,
    decreases hi - m,
{
    if m < hi {
        lemma_trim_hi_run(s, lo, m, hi - 1);
    }
}

/// The characters of the span `[lo, hi)` with whitespace stripped from both
/// edges.
pub open spec fn trimmed(s: Seq<char>, lo: int, hi: int) -> Seq<char>
    recommends
        0 <= lo <= hi <= s.len(),
{
    let l = trim_lo(s, lo, hi);
    let h = trim_hi(s, l, hi);
    s.subrange(l, h)
}

/// Copies the span `[lo, hi)` of the input, trimmed at both edges.
pub fn extract_trimmed(input: &[char], lo: usize, hi: usize) -> (r: Vec<char>)
    requires
        lo <= hi <= input.len(),
    ensures
        r@ == trimmed(input@, lo as int, hi as int),
{
    let mut l = lo;
    while l < hi && is_trim_ws_char(input[l])
        invariant
            lo <= l <= hi <= input.len(),
            trim_lo(input@, lo as int, hi as int) == trim_lo(input@, l as int, hi as int),
        decreases hi - l,
    {
        l = l + 1;
    }
    let mut h = hi;
    while l < h && is_trim_ws_char(input[h - 1])
        invariant
            l <= h <= hi <= input.len(),
            trim_hi(input@, l as int, hi as int) == trim_hi(input@, l as int, h as int),
        decreases h - l,
    {
        h = h - 1;
    }
    let mut out: Vec<char> = Vec::new();
    let mut k = l;
    while k < h
        invariant
            l <= k <= h <= input.len(),
            out@ =~= input@.subrange(l as int, k as int),
        decreases h - k,
    {
        out.push(input[k]);
        k = k + 1;
    }
    proof {
        assert(out@ =~= trimmed(input@, lo as int, hi as int));
    }
    out
}

/// An exact decimal number: sign, integer digits, fraction digits.  The
/// digits stand as they did in the source; a record keeps the number
/// without rounding.
#[derive(Debug, Clone, PartialEq, Eq)]
pub struct Decimal {
    pub negative: bool,
    pub int_digits: Vec<char>,
    pub frac_digits: Vec<char>,
}

/// The specification form of a decimal.
pub struct DecimalSpec {
    pub negative: bool,
    pub int_digits: Seq<char>,
    pub frac_digits: Seq<char>,
}

impl View for Decimal {
    type V = DecimalSpec;

    open spec fn view(&self) -> DecimalSpec {
        DecimalSpec {
            negative: self.negative,
            int_digits: self.int_digits@,
            frac_digits: self.frac_digits@,
        }
    }
}

/// The default numeric value: zero, written `0`.
pub open spec fn zero_decimal() -> DecimalSpec {
    DecimalSpec { negative: false, int_digits: seq!['0'], frac_digits: Seq::empty() }
}

impl Decimal {
    /// The zero a numeric field degrades to when its payload is anomalous.
    pub fn zero() -> (r: Decimal)
        ensures
            r@ == zero_decimal(),
    {
        let d = Decimal { negative: false, int_digits: vec!['0'], frac_digits: Vec::new() };
        proof {
            assert(d@.int_digits =~= zero_decimal().int_digits);
            assert(d@.frac_digits =~= zero_decimal().frac_digits);
        }
        d
    }
}

/// The decimal a token stands for, if the whole token has the shape of a
/// number: an optional minus sign, one or more digits, and an optional
/// fraction of a dot and one or more digits.  Any other token has no value.
pub open spec fn decimal_of_token(t: Seq<char>) -> Option<DecimalSpec> {
    let b: int = if t.len() > 0 && t[0] == '-' {
        1
    } else {
        0
    };
    if b < t.len() && is_digit(t[b]) {
        let de = digit_run_end(t, b);
        if de == t.len() {
            Some(
                DecimalSpec {
                    negative: b == 1,
                    int_digits: t.subrange(b, de),
                    frac_digits: Seq::empty(),
                },
            )
        } else if t[de] == '.' && de + 1 < t.len() && is_digit(t[de + 1]) {
            let fe = digit_run_end(t, de + 1);
            if fe == t.len() {
                Some(
                    DecimalSpec {
                        negative: b == 1,
                        int_digits: t.subrange(b, de),
                        frac_digits: t.subrange(de + 1, fe),
                    },
                )
            } else {
                None
            }
        } else {
            None
        }
    } else {
        None
    }
}

/// A decimal is well formed when its integer part holds at least one digit
/// and both digit sequences hold digits alone.
pub open spec fn decimal_wf(d: DecimalSpec) -> bool {
    &&& d.int_digits.len() >= 1
    &&& forall|k: int| 0 <= k < d.int_digits.len() ==> is_digit(#[trigger] d.int_digits[k])
    &&& forall|k: int| 0 <= k < d.frac_digits.len() ==> is_digit(#[trigger] d.frac_digits[k])
}

pub proof fn lemma_decimal_of_token_wf(t: Seq<char>)
    ensures
        decimal_of_token(t) matches Some(d) ==> decimal_wf(d),
{
    let b: int = if t.len() > 0 && t[0] == '-' {
        1
    } else {
        0
    };
    if b < t.len() && is_digit(t[b]) {
        lemma_digit_run_end_bounds(t, b + 1);
        lemma_digit_run_chars(t, b);
        let de = digit_run_end(t, b);
        if de < t.len() && t[de] == '.' && de + 1 < t.len() && is_digit(t[de + 1]) {
            lemma_digit_run_end_bounds(t, de + 2);
            lemma_digit_run_chars(t, de + 1);
        }
    }
}

/// A span the `number` rule matched exactly reads as a decimal: it has no
/// whitespace to trim, and its shape is the decimal shape, so the zero
/// fallback of a numeric field never fires on a grammar-matched payload.
pub proof fn lemma_number_span_reads(s: Seq<char>, lo: int, hi: int)
    requires
        0 <= lo <= hi <= s.len(),
        number_end(s, lo) == Some(hi),
    ensures
        decimal_of_token(trimmed(s, lo, hi)) is Some,
        trimmed(s, lo, hi) == s.subrange(lo, hi),
        !is_trim_ws(s[lo]),
        is_digit(s[hi - 1]),
{
    let j = if lo < s.len() && s[lo] == '-' {
        lo + 1
    } else {
        lo
    };
    let k = digit_run_end(s, j);
    lemma_digit_run_end_bounds(s, j + 1);
    lemma_digit_run_chars(s, j);
    let frac = k + 1 < s.len() && s[k] == '.' && is_digit(s[k + 1]);
    if frac {
        lemma_digit_run_end_bounds(s, k + 2);
        lemma_digit_run_chars(s, k + 1);
    }
    // The span starts with `-` or a digit and ends with a digit, so trimming
    // leaves it as it stands.
    assert(!is_trim_ws(s[lo]));
    assert(is_digit(s[hi - 1]));
    assert(trim_lo(s, lo, hi) == lo);
    assert(trim_hi(s, lo, hi) == hi);
    let t = s.subrange(lo, hi);
    assert(trimmed(s, lo, hi) == t);
    let b: int = if t.len() > 0 && t[0] == '-' {
        1
    } else {
        0
    };
    assert(b == j - lo);
    assert(is_digit(t[b]));
    if frac {
        assert forall|m: int| b <= m < k - lo implies is_digit(#[trigger] t[m]) by {
            assert(t[m] == s[lo + m]);
        }
        assert(!is_digit(t[k - lo]));
        lemma_digit_run_end_char(t, b, k - lo);
        assert forall|m: int| k + 1 - lo <= m < t.len() implies is_digit(#[trigger] t[m]) by {
            assert(t[m] == s[lo + m]);
        }
        lemma_digit_run_end_char(t, k + 1 - lo, t.len() as int);
    } else {
        assert forall|m: int| b <= m < t.len() implies is_digit(#[trigger] t[m]) by {
            assert(t[m] == s[lo + m]);
        }
        lemma_digit_run_end_char(t, b, t.len() as int);
    }
}

/// Within a matched number list, the extractor's comma cut is exact: every
/// comma of the bracketed span is a separator, every piece trims to the one
/// number the grammar matched there, and every piece reads as a decimal.
/// So the ratings are one per piece: none is dropped, none is invented.
pub proof fn lemma_list_pieces(s: Seq<char>, cur: int, n0: int, n1: int, le: int)
    requires
        0 <= cur <= s.len(),
        n0 == ws_run_end(s, cur),
        number_end(s, n0) == Some(n1),
        list_items_end(s, n1) == Some(le),
    ensures
        ratings_of(s, cur, le - 1).len() == 1 + comma_count(s, cur, le - 1),
    decreases s.len() - cur,
{
    lemma_ws_run_end_bounds(s, cur);
    lemma_ws_run_chars(s, cur);
    lemma_number_end_bounds(s, n0);
    lemma_number_chars(s, n0);
    lemma_number_span_reads(s, n0, n1);
    lemma_list_items_end_bounds(s, n1);
    lemma_ws_run_end_bounds(s, n1);
    lemma_ws_run_chars(s, n1);
    let j2 = ws_run_end(s, n1);
    assert forall|m: int| cur <= m < j2 implies (#[trigger] s[m]) != ',' by {
        if m < n0 {
            assert(is_ws(s[m]));
        } else if m < n1 {
            assert(s[m] == '-' || s[m] == '.' || is_digit(s[m]));
        } else {
            assert(is_ws(s[m]));
        }
    }
    assert forall|m: int| cur <= m < n0 implies is_trim_ws(#[trigger] s[m]) by {
        assert(is_ws(s[m]));
    }
    assert forall|m: int| n1 <= m < j2 implies is_trim_ws(#[trigger] s[m]) by {
        assert(is_ws(s[m]));
    }
    if j2 < s.len() && s[j2] == ',' {
        let k = ws_run_end(s, j2 + 1);
        lemma_ws_run_end_bounds(s, j2 + 1);
        match number_end(s, k) {
            Some(e2) => {
                lemma_number_end_bounds(s, k);
                lemma_list_items_end_bounds(s, e2);
                lemma_comma_scan_char(s, cur, j2, le - 1);
                lemma_trim_lo_run(s, cur, n0, j2);
                lemma_trim_hi_run(s, n0, n1, j2);
                assert(trimmed(s, cur, j2) =~= s.subrange(n0, n1));
                lemma_list_pieces(s, j2 + 1, k, e2, le);
                lemma_comma_count_split(s, cur, j2, le - 1);
                lemma_comma_count_zero(s, cur, j2);
                assert(comma_count(s, j2, le - 1) == 1 + comma_count(s, j2 + 1, le - 1));
            },
            None => {},
        }
    } else {
        lemma_comma_scan_char(s, cur, j2, j2);
        lemma_trim_lo_run(s, cur, n0, j2);
        lemma_trim_hi_run(s, n0, n1, j2);
        assert(trimmed(s, cur, j2) =~= s.subrange(n0, n1));
        lemma_comma_count_zero(s, cur, j2);
    }
}

/// Parses one whole token as a decimal.
pub fn parse_decimal(t: &Vec<char>) -> (r: Option<Decimal>)
    ensures
        match r {
            Some(d) => decimal_of_token(t@) == Some(d@),
            None => decimal_of_token(t@) is None,
        },
{
    let neg = t.len() > 0 && t[0] == '-';
    let b: usize = if neg {
        1
    } else {
        0
    };
    if b < t.len() && is_digit_char(t[b]) {
        let de = skip_digits(t.as_slice(), b);
        let int_digits = copy_range(t.as_slice(), b, de);
        if de == t.len() {
            let d = Decimal { negative: neg, int_digits, frac_digits: Vec::new() };
            proof {
                assert(d@.frac_digits =~= Seq::<char>::empty());
            }
            Some(d)
        } else if t[de] == '.' && de + 1 < t.len() && is_digit_char(t[de + 1]) {
            let fe = skip_digits(t.as_slice(), de + 1);
            if fe == t.len() {
                let frac_digits = copy_range(t.as_slice(), de + 1, fe);
                Some(Decimal { negative: neg, int_digits, frac_digits })
            } else {
                None
            }
        } else {
            None
        }
    } else {
        None
    }
}

/// Copies the span `[lo, hi)` of the input.
pub fn copy_range(input: &[char], lo: usize, hi: usize) -> (r: Vec<char>)
    requires
        lo <= hi <= input.len(),
    ensures
        r@ == input@.subrange(lo as int, hi as int),
{
    let mut out: Vec<char> = Vec::new();
    let mut k = lo;
    while k < hi
        invariant
            lo <= k <= hi <= input.len(),
            out@ =~= input@.subrange(lo as int, k as int),
        decreases hi - k,
    {
        out.push(input[k]);
        k = k + 1;
    }
    proof {
        assert(out@ =~= input@.subrange(lo as int, hi as int));
    }
    out
}

/// Position of the first comma in `[lo, hi)`, or `hi` if there is none.
pub open spec fn comma_scan(s: Seq<char>, lo: int, hi: int) -> int
    recommends
        0 <= lo <= hi <= s.len(),
    decreases hi - lo when 0 <= lo <= hi <= s.len()
{
    if lo < hi && s[lo] != ',' {
        comma_scan(s, lo + 1, hi)
    } else {
        lo
    }
}

pub proof fn lemma_comma_scan_char(s: Seq<char>, lo: int, m: int, hi: int)
    requires
        0 <= lo <= m <= hi <= s.len(),
        forall|k: int| lo <= k < m ==> (#[trigger] s[k]) != ',',
        m == hi || s[m] == ',',
    ensures
        comma_scan(s, lo, hi) == m,
    decreases m - lo,
{
    if lo < m {
        lemma_comma_scan_char(s, lo + 1, m, hi);
    }
}

/// How many commas the span `[lo, hi)` holds: one more than the number of
/// pieces the record extractor cuts it into.
pub open spec fn comma_count(s: Seq<char>, lo: int, hi: int) -> int
    recommends
        0 <= lo <= hi <= s.len(),
    decreases hi - lo when 0 <= lo <= hi <= s.len()
{
    if lo < hi {
        (if s[lo] == ',' {
            1int
        } else {
            0int
        }) + comma_count(s, lo + 1, hi)
    } else {
        0
    }
}

pub proof fn lemma_comma_count_zero(s: Seq<char>, lo: int, hi: int)
    requires
        0 <= lo <= hi <= s.len(),
        forall|k: int| lo <= k < hi ==> (#[trigger] s[k]) != ',',
    ensures
        comma_count(s, lo, hi) == 0,
    decreases hi - lo,
{
    if lo < hi {
        lemma_comma_count_zero(s, lo + 1, hi);
    }
}

pub proof fn lemma_comma_count_split(s: Seq<char>, lo: int, m: int, hi: int)
    requires
        0 <= lo <= m <= hi <= s.len(),
    ensures
        comma_count(s, lo, hi) == comma_count(s, lo, m) + comma_count(s, m, hi),
    decreases m - lo,
{
    if lo < m {
        lemma_comma_count_split(s, lo + 1, m, hi);
    }
}

/// Finds the first comma in `[lo, hi)`.
pub fn find_comma(input: &[char], lo: usize, hi: usize) -> (r: usize)
    requires
        lo <= hi <= input.len(),
    ensures
        r as int == comma_scan(input@, lo as int, hi as int),
        lo <= r <= hi,
{
    let mut k = lo;
    while k < hi && input[k] != ','
        invariant
            lo <= k <= hi <= input.len(),
            comma_scan(input@, lo as int, hi as int) == comma_scan(input@, k as int, hi as int),
        decreases hi - k,
    {
        k = k + 1;
    }
    k
}

/// The user ratings that the span `[lo, hi)` holds: the span is cut at the
/// commas, each piece trimmed and read as a decimal, and a piece that is no
/// number is dropped, in source order.
pub open spec fn ratings_of(s: Seq<char>, lo: int, hi: int) -> Seq<DecimalSpec>
    recommends
        0 <= lo <= hi <= s.len(),
    decreases hi - lo when 0 <= lo <= hi <= s.len()
{
    let c = comma_scan(s, lo, hi);
    let head = match decimal_of_token(trimmed(s, lo, c)) {
        Some(d) => seq![d],
        None => Seq::<DecimalSpec>::empty(),
    };
    if lo <= c < hi {
        head + ratings_of(s, c + 1, hi)
    } else {
        head
    }
}

pub proof fn lemma_ratings_of_wf(s: Seq<char>, lo: int, hi: int)
    requires
        0 <= lo <= hi <= s.len(),
    ensures
        forall|k: int|
            0 <= k < ratings_of(s, lo, hi).len() ==> decimal_wf(#[trigger] ratings_of(
                s,
                lo,
                hi,
            )[k]),
    decreases hi - lo,
{
    let c = comma_scan(s, lo, hi);
    lemma_decimal_of_token_wf(trimmed(s, lo, c));
    let head = match decimal_of_token(trimmed(s, lo, c)) {
        Some(d) => seq![d],
        None => Seq::<DecimalSpec>::empty(),
    };
    if lo <= c < hi {
        lemma_ratings_of_wf(s, c + 1, hi);
        let tail = ratings_of(s, c + 1, hi);
        assert forall|k: int| 0 <= k < ratings_of(s, lo, hi).len() implies decimal_wf(
            #[trigger] ratings_of(s, lo, hi)[k],
        ) by {
            if k < head.len() {
                assert(ratings_of(s, lo, hi)[k] == head[0]);
            } else {
                assert(ratings_of(s, lo, hi)[k] == tail[k - head.len()]);
            }
        }
    } else {
        assert forall|k: int| 0 <= k < ratings_of(s, lo, hi).len() implies decimal_wf(
            #[trigger] ratings_of(s, lo, hi)[k],
        ) by {
            assert(ratings_of(s, lo, hi)[k] == head[0]);
        }
    }
}

/// The sequence of decimal values that a vector stands for.
pub open spec fn decimals_view(v: Seq<Decimal>) -> Seq<DecimalSpec> {
    v.map_values(|d: Decimal| d@)
}

/// Reads the user-ratings span, comma piece by comma piece.
pub fn parse_ratings(input: &[char], lo: usize, hi: usize) -> (r: Vec<Decimal>)
    requires
        lo <= hi <= input.len(),
    ensures
        decimals_view(r@) == ratings_of(input@, lo as int, hi as int),
{
    let ghost whole = ratings_of(input@, lo as int, hi as int);
    let mut acc: Vec<Decimal> = Vec::new();
    let mut cur = lo;
    loop
        invariant
            lo <= cur <= hi <= input.len(),
            decimals_view(acc@) + ratings_of(input@, cur as int, hi as int) == whole,
            whole == ratings_of(input@, lo as int, hi as int),
        decreases hi - cur,
    {
        let c = find_comma(input, cur, hi);
        let token = extract_trimmed(input, cur, c);
        let ghost before = acc@;
        match parse_decimal(&token) {
            Some(d) => {
                acc.push(d);
            },
            None => {},
        }
        proof {
            let s = input@;
            let ci = c as int;
            let head = match decimal_of_token(trimmed(s, cur as int, ci)) {
                Some(d) => seq![d],
                None => Seq::<DecimalSpec>::empty(),
            };
            assert(decimals_view(acc@) =~= decimals_view(before) + head);
            if ci < hi as int {
                assert(ratings_of(s, cur as int, hi as int) == head + ratings_of(
                    s,
                    ci + 1,
                    hi as int,
                ));
                assert((decimals_view(before) + head) + ratings_of(s, ci + 1, hi as int)
                    =~= decimals_view(before) + (head + ratings_of(s, ci + 1, hi as int)));
            } else {
                assert(ratings_of(s, cur as int, hi as int) == head);
            }
        }
        if c < hi {
            cur = c + 1;
        } else {
            proof {
                assert(decimals_view(acc@) =~= whole);
            }
            return acc;
        }
    }
}

/// One catalog record: the nine fields of a product, each populated, text
/// kept as it stood in the source after trimming.
#[derive(Debug, Clone, PartialEq, Eq)]
pub struct Product {
    pub product_name: Vec<char>,
    pub skin_type: Vec<char>,
    pub ingredients: Vec<char>,
    pub rating: Decimal,
    pub price: Decimal,
    pub user_ratings: Vec<Decimal>,
    pub recommendations: Vec<char>,
    pub reviews: Vec<Vec<char>>,
    pub availability: bool,
}

/// The specification form of a record.
pub struct ProductSpec {
    pub product_name: Seq<char>,
    pub skin_type: Seq<char>,
    pub ingredients: Seq<char>,
    pub rating: DecimalSpec,
    pub price: DecimalSpec,
    pub user_ratings: Seq<DecimalSpec>,
    pub recommendations: Seq<char>,
    pub reviews: Seq<Seq<char>>,
    pub availability: bool,
}

impl View for Product {
    type V = ProductSpec;

    open spec fn view(&self) -> ProductSpec {
        ProductSpec {
            product_name: self.product_name@,
            skin_type: self.skin_type@,
            ingredients: self.ingredients@,
            rating: self.rating@,
            price: self.price@,
            user_ratings: decimals_view(self.user_ratings@),
            recommendations: self.recommendations@,
            reviews: self.reviews@.map_values(|v: Vec<char>| v@),
            availability: self.availability,
        }
    }
}

/// The record that one well-formed item node stands for: text payloads
/// trimmed, numbers read as decimals with zero as the fallback, the ratings
/// list cut at its commas, review texts trimmed in order, availability as
/// the boolean the grammar saw.
pub open spec fn product_of(s: Seq<char>, p: ItemParts) -> ProductSpec {
    ProductSpec {
        product_name: trimmed(s, p.name.0, p.name.1),
        skin_type: trimmed(s, p.skin.0, p.skin.1),
        ingredients: trimmed(s, p.ingredients.0, p.ingredients.1),
        rating: match decimal_of_token(trimmed(s, p.rating_num.0, p.rating_num.1)) {
            Some(d) => d,
            None => zero_decimal(),
        },
        price: match decimal_of_token(trimmed(s, p.price_num.0, p.price_num.1)) {
            Some(d) => d,
            None => zero_decimal(),
        },
        user_ratings: ratings_of(s, p.ratings_inner.0, p.ratings_inner.1),
        recommendations: trimmed(s, p.recommendations.0, p.recommendations.1),
        reviews: p.reviews.map_values(|sp: (int, int)| trimmed(s, sp.0, sp.1)),
        availability: p.avail_true,
    }
}

impl Product {
    /// Builds the record of one matched item node.  Extraction is total:
    /// every anomaly degrades to the field's default.
    pub fn from_pair(input: &[char], node: &ItemNode) -> (r: Product)
        requires
            item_wf(input@, node@),
        ensures
            r@ == product_of(input@, node@),
    {
        let product_name = extract_trimmed(input, node.name.0, node.name.1);
        let skin_type = extract_trimmed(input, node.skin.0, node.skin.1);
        let ingredients = extract_trimmed(input, node.ingredients.0, node.ingredients.1);
        let rating = match parse_decimal(
            &extract_trimmed(input, node.rating_num.0, node.rating_num.1),
        ) {
            Some(d) => d,
            None => Decimal::zero(),
        };
        let price = match parse_decimal(
            &extract_trimmed(input, node.price_num.0, node.price_num.1),
        ) {
            Some(d) => d,
            None => Decimal::zero(),
        };
        let user_ratings = parse_ratings(input, node.ratings_inner.0, node.ratings_inner.1);
        let recommendations = extract_trimmed(
            input,
            node.recommendations.0,
            node.recommendations.1,
        );
        let mut reviews: Vec<Vec<char>> = Vec::new();
        let mut k: usize = 0;
        while k < node.reviews.len()
            invariant
                0 <= k <= node.reviews.len(),
                item_wf(input@, node@),
                reviews@.map_values(|v: Vec<char>| v@) =~= node@.reviews.subrange(
                    0,
                    k as int,
                ).map_values(|sp: (int, int)| trimmed(input@, sp.0, sp.1)),
            decreases node.reviews.len() - k,
        {
            let sp = node.reviews[k];
            proof {
                assert(node@.reviews[k as int] == (sp.0 as int, sp.1 as int));
            }
            let ghost prev = reviews@;
            reviews.push(extract_trimmed(input, sp.0, sp.1));
            proof {
                let ghost f = |sp2: (int, int)| trimmed(input@, sp2.0, sp2.1);
                let ghost g = |v: Vec<char>| v@;
                assert(reviews@.map_values(g) =~= prev.map_values(g).push(
                    trimmed(input@, sp.0 as int, sp.1 as int),
                ));
                assert(node@.reviews.subrange(0, k + 1).map_values(f) =~= node@.reviews.subrange(
                    0,
                    k as int,
                ).map_values(f).push(f(node@.reviews[k as int])));
            }
            k = k + 1;
        }
        proof {
            assert(node@.reviews.subrange(0, node@.reviews.len() as int) =~= node@.reviews);
        }
        Product {
            product_name,
            skin_type,
            ingredients,
            rating,
            price,
            user_ratings,
            recommendations,
            reviews,
            availability: node.avail_true,
        }
    }
}

} // verus!
