//! Grammar engine, lexical layer: character scans, literal matching, and the
//! field labels of the catalog dialect.

use vstd::prelude::*;
use crate::is_ws;
use crate::is_ws_char;
use crate::is_inline_ws;
use crate::is_inline_ws_char;
use crate::is_digit;
use crate::is_digit_char;

verus! {

/// End of the whitespace run that starts at `i`: the first position at or
/// after `i` that is not a whitespace character.
pub open spec fn ws_run_end(s: Seq<char>, i: int) -> int
    recommends
        0 <= i <= s.len(),
    decreases s.len() - i when 0 <= i <= s.len()
{
    if i < s.len() && is_ws(s[i]) {
        ws_run_end(s, i + 1)
    } else {
        i
    }
}

pub proof fn lemma_ws_run_end_bounds(s: Seq<char>, i: int)
    requires
        0 <= i <= s.len(),
    ensures
        i <= ws_run_end(s, i) <= s.len(),
    decreases s.len() - i,
{
    if i < s.len() && is_ws(s[i]) {
        lemma_ws_run_end_bounds(s, i + 1);
    }
}

pub proof fn lemma_ws_run_chars(s: Seq<char>, i: int)
    requires
        0 <= i <= s.len(),
    ensures
        forall|k: int| i <= k < ws_run_end(s, i) ==> is_ws(#[trigger] s[k]),
    decreases s.len() - i,
{
    if i < s.len() && is_ws(s[i]) {
        lemma_ws_run_end_bounds(s, i + 1);
        lemma_ws_run_chars(s, i + 1);
    }
}

/// Skips the whitespace run starting at `pos`.
pub fn skip_ws(input: &[char], pos: usize) -> (r: usize)
    requires
        pos <= input.len(),
    ensures
        r as int == ws_run_end(input@, pos as int),
        pos <= r <= input.len(),
{
    let mut j = pos;
    while j < input.len() && is_ws_char(input[j])
        invariant
            pos <= j <= input.len(),
            ws_run_end(input@, pos as int) == ws_run_end(input@, j as int),
        decreases input.len() - j,
    {
        j = j + 1;
    }
    j
}

/// End of the run of spaces and tabs that starts at `i`.
pub open spec fn inline_ws_run_end(s: Seq<char>, i: int) -> int
    recommends
        0 <= i <= s.len(),
    decreases s.len() - i when 0 <= i <= s.len()
{
    if i < s.len() && is_inline_ws(s[i]) {
        inline_ws_run_end(s, i + 1)
    } else {
        i
    }
}

pub proof fn lemma_inline_ws_run_end_bounds(s: Seq<char>, i: int)
    requires
        0 <= i <= s.len(),
    ensures
        i <= inline_ws_run_end(s, i) <= s.len(),
    decreases s.len() - i,
{
    if i < s.len() && is_inline_ws(s[i]) {
        lemma_inline_ws_run_end_bounds(s, i + 1);
    }
}

/// Skips spaces and tabs starting at `pos`.
pub fn skip_inline_ws(input: &[char], pos: usize) -> (r: usize)
    requires
        pos <= input.len(),
    ensures
        r as int == inline_ws_run_end(input@, pos as int),
        pos <= r <= input.len(),
{
    let mut j = pos;
    while j < input.len() && is_inline_ws_char(input[j])
        invariant
            pos <= j <= input.len(),
            inline_ws_run_end(input@, pos as int) == inline_ws_run_end(input@, j as int),
        decreases input.len() - j,
    {
        j = j + 1;
    }
    j
}

/// End of the digit run that starts at `i`.
pub open spec fn digit_run_end(s: Seq<char>, i: int) -> int
    recommends
        0 <= i <= s.len(),
    decreases s.len() - i when 0 <= i <= s.len()
{
    if i < s.len() && is_digit(s[i]) {
        digit_run_end(s, i + 1)
    } else {
        i
    }
}

pub proof fn lemma_digit_run_end_bounds(s: Seq<char>, i: int)
    requires
        0 <= i <= s.len(),
    ensures
        i <= digit_run_end(s, i) <= s.len(),
    decreases s.len() - i,
{
    if i < s.len() && is_digit(s[i]) {
        lemma_digit_run_end_bounds(s, i + 1);
    }
}

pub proof fn lemma_digit_run_chars(s: Seq<char>, i: int)
    requires
        0 <= i <= s.len(),
    ensures
        forall|k: int| i <= k < digit_run_end(s, i) ==> is_digit(#[trigger] s[k]),
    decreases s.len() - i,
{
    if i < s.len() && is_digit(s[i]) {
        lemma_digit_run_end_bounds(s, i + 1);
        lemma_digit_run_chars(s, i + 1);
    }
}

pub proof fn lemma_digit_run_end_char(s: Seq<char>, i: int, m: int)
    requires
        0 <= i <= m <= s.len(),
        forall|k: int| i <= k < m ==> is_digit(#[trigger] s[k]),
        m == s.len() || !is_digit(s[m]),
    ensures
        digit_run_end(s, i) == m,
    decreases m - i,
{
    if i < m {
        lemma_digit_run_end_char(s, i + 1, m);
    }
}

/// Skips digits starting at `pos`.
pub fn skip_digits(input: &[char], pos: usize) -> (r: usize)
    requires
        pos <= input.len(),
    ensures
        r as int == digit_run_end(input@, pos as int),
        pos <= r <= input.len(),
{
    let mut j = pos;
    while j < input.len() && is_digit_char(input[j])
        invariant
            pos <= j <= input.len(),
            digit_run_end(input@, pos as int) == digit_run_end(input@, j as int),
        decreases input.len() - j,
    {
        j = j + 1;
    }
    j
}

/// Position of the first occurrence of `c` at or after `i`, or the length of
/// `s` if there is none.
pub open spec fn char_scan(s: Seq<char>, i: int, c: char) -> int
    recommends
        0 <= i <= s.len(),
    decreases s.len() - i when 0 <= i <= s.len()
{
    if i < s.len() && s[i] != c {
        char_scan(s, i + 1, c)
    } else {
        i
    }
}

pub proof fn lemma_char_scan_bounds(s: Seq<char>, i: int, c: char)
    requires
        0 <= i <= s.len(),
    ensures
        i <= char_scan(s, i, c) <= s.len(),
        char_scan(s, i, c) < s.len() ==> s[char_scan(s, i, c)] == c,
    decreases s.len() - i,
{
    if i < s.len() && s[i] != c {
        lemma_char_scan_bounds(s, i + 1, c);
    }
}

/// Finds the first occurrence of `c` at or after `pos`.
pub fn find_char(input: &[char], pos: usize, c: char) -> (r: usize)
    requires
        pos <= input.len(),
    ensures
        r as int == char_scan(input@, pos as int, c),
        pos <= r <= input.len(),
{
    let mut j = pos;
    while j < input.len() && input[j] != c
        invariant
            pos <= j <= input.len(),
            char_scan(input@, pos as int, c) == char_scan(input@, j as int, c),
        decreases input.len() - j,
    {
        j = j + 1;
    }
    j
}

/// The literal `lit` stands in `s` at position `i`.
pub open spec fn lit_match(s: Seq<char>, i: int, lit: Seq<char>) -> bool {
    &&& 0 <= i
    &&& i + lit.len() <= s.len()
    &&& forall|k: int| 0 <= k < lit.len() ==> s[i + k] == lit[k]
}

/// Compares the characters of `lit` against `input` at `pos`.
pub fn match_lit(input: &[char], pos: usize, lit: &[char]) -> (r: bool)
    requires
        pos <= input.len(),
    ensures
        r == lit_match(input@, pos as int, lit@),
{
    if input.len() - pos < lit.len() {
        return false;
    }
    let mut k: usize = 0;
    while k < lit.len()
        invariant
            0 <= k <= lit.len(),
            pos + lit.len() <= input.len(),
            forall|m: int| 0 <= m < k ==> input@[pos + m] == lit@[m],
        decreases lit.len() - k,
    {
        if input[pos + k] != lit[k] {
            return false;
        }
        k = k + 1;
    }
    true
}

/// The opening of a product name line: `*Product`.
pub open spec fn product_label() -> Seq<char> {
    seq!['*', 'P', 'r', 'o', 'd', 'u', 'c', 't']
}

pub fn product_label_chars() -> (r: Vec<char>)
    ensures
        r@ == product_label(),
{
    let r: Vec<char> = vec!['*', 'P', 'r', 'o', 'd', 'u', 'c', 't'];
    proof { assert(r@ =~= product_label()); }
    r
}

/// The close of a label: `*:`.
pub open spec fn star_colon() -> Seq<char> {
    seq!['*', ':']
}

pub fn star_colon_chars() -> (r: Vec<char>)
    ensures
        r@ == star_colon(),
{
    let r: Vec<char> = vec!['*', ':'];
    proof { assert(r@ =~= star_colon()); }
    r
}

/// The field label `*Skin Type*:`.
pub open spec fn skin_type_label() -> Seq<char> {
    seq!['*', 'S', 'k', 'i', 'n', ' ', 'T', 'y', 'p', 'e', '*', ':']
}

pub fn skin_type_label_chars() -> (r: Vec<char>)
    ensures
        r@ == skin_type_label(),
{
    let r: Vec<char> = vec!['*', 'S', 'k', 'i', 'n', ' ', 'T', 'y', 'p', 'e', '*', ':'];
    proof { assert(r@ =~= skin_type_label()); }
    r
}

/// The field label `*Ingredients*:`.
pub open spec fn ingredients_label() -> Seq<char> {
    seq!['*', 'I', 'n', 'g', 'r', 'e', 'd', 'i', 'e', 'n', 't', 's', '*', ':']
}

pub fn ingredients_label_chars() -> (r: Vec<char>)
    ensures
        r@ == ingredients_label(),
{
    let r: Vec<char> = vec!['*', 'I', 'n', 'g', 'r', 'e', 'd', 'i', 'e', 'n', 't', 's', '*', ':'];
    proof { assert(r@ =~= ingredients_label()); }
    r
}

/// The field label `*Rating*:`.
pub open spec fn rating_label() -> Seq<char> {
    seq!['*', 'R', 'a', 't', 'i', 'n', 'g', '*', ':']
}

pub fn rating_label_chars() -> (r: Vec<char>)
    ensures
        r@ == rating_label(),
{
    let r: Vec<char> = vec!['*', 'R', 'a', 't', 'i', 'n', 'g', '*', ':'];
    proof { assert(r@ =~= rating_label()); }
    r
}

/// The field label `*Price*:`.
pub open spec fn price_label() -> Seq<char> {
    seq!['*', 'P', 'r', 'i', 'c', 'e', '*', ':']
}

pub fn price_label_chars() -> (r: Vec<char>)
    ensures
        r@ == price_label(),
{
    let r: Vec<char> = vec!['*', 'P', 'r', 'i', 'c', 'e', '*', ':'];
    proof { assert(r@ =~= price_label()); }
    r
}

/// The field label `*User Ratings*:`.
pub open spec fn user_ratings_label() -> Seq<char> {
    seq!['*', 'U', 's', 'e', 'r', ' ', 'R', 'a', 't', 'i', 'n', 'g', 's', '*', ':']
}

pub fn user_ratings_label_chars() -> (r: Vec<char>)
    ensures
        r@ == user_ratings_label(),
{
    let r: Vec<char> = vec![
        '*', 'U', 's', 'e', 'r', ' ', 'R', 'a', 't', 'i', 'n', 'g', 's', '*', ':',
    ];
    proof { assert(r@ =~= user_ratings_label()); }
    r
}

/// The field label `*Recommendations*:`.
pub open spec fn recommendations_label() -> Seq<char> {
    seq![
        '*', 'R', 'e', 'c', 'o', 'm', 'm', 'e', 'n', 'd', 'a', 't', 'i', 'o', 'n', 's', '*', ':',
    ]
}

pub fn recommendations_label_chars() -> (r: Vec<char>)
    ensures
        r@ == recommendations_label(),
{
    let r: Vec<char> = vec![
        '*', 'R', 'e', 'c', 'o', 'm', 'm', 'e', 'n', 'd', 'a', 't', 'i', 'o', 'n', 's', '*', ':',
    ];
    proof { assert(r@ =~= recommendations_label()); }
    r
}

/// The field label `*Reviews*:`.
pub open spec fn reviews_label() -> Seq<char> {
    seq!['*', 'R', 'e', 'v', 'i', 'e', 'w', 's', '*', ':']
}

pub fn reviews_label_chars() -> (r: Vec<char>)
    ensures
        r@ == reviews_label(),
{
    let r: Vec<char> = vec!['*', 'R', 'e', 'v', 'i', 'e', 'w', 's', '*', ':'];
    proof { assert(r@ =~= reviews_label()); }
    r
}

/// The field label `*Availability*:`.
pub open spec fn availability_label() -> Seq<char> {
    seq!['*', 'A', 'v', 'a', 'i', 'l', 'a', 'b', 'i', 'l', 'i', 't', 'y', '*', ':']
}

pub fn availability_label_chars() -> (r: Vec<char>)
    ensures
        r@ == availability_label(),
{
    let r: Vec<char> = vec![
        '*', 'A', 'v', 'a', 'i', 'l', 'a', 'b', 'i', 'l', 'i', 't', 'y', '*', ':',
    ];
    proof { assert(r@ =~= availability_label()); }
    r
}

/// The currency code `UAH`.
pub open spec fn uah_lit() -> Seq<char> {
    seq!['U', 'A', 'H']
}

pub fn uah_chars() -> (r: Vec<char>)
    ensures
        r@ == uah_lit(),
{
    let r: Vec<char> = vec!['U', 'A', 'H'];
    proof { assert(r@ =~= uah_lit()); }
    r
}

/// The currency code `EUR`.
pub open spec fn eur_lit() -> Seq<char> {
    seq!['E', 'U', 'R']
}

pub fn eur_chars() -> (r: Vec<char>)
    ensures
        r@ == eur_lit(),
{
    let r: Vec<char> = vec!['E', 'U', 'R'];
    proof { assert(r@ =~= eur_lit()); }
    r
}

/// The currency code `USD`.
pub open spec fn usd_lit() -> Seq<char> {
    seq!['U', 'S', 'D']
}

pub fn usd_chars() -> (r: Vec<char>)
    ensures
        r@ == usd_lit(),
{
    let r: Vec<char> = vec!['U', 'S', 'D'];
    proof { assert(r@ =~= usd_lit()); }
    r
}

/// The boolean literal `true`.
pub open spec fn true_lit() -> Seq<char> {
    seq!['t', 'r', 'u', 'e']
}

pub fn true_chars() -> (r: Vec<char>)
    ensures
        r@ == true_lit(),
{
    let r: Vec<char> = vec!['t', 'r', 'u', 'e'];
    proof { assert(r@ =~= true_lit()); }
    r
}

/// The boolean literal `false`.
pub open spec fn false_lit() -> Seq<char> {
    seq!['f', 'a', 'l', 's', 'e']
}

pub fn false_chars() -> (r: Vec<char>)
    ensures
        r@ == false_lit(),
{
    let r: Vec<char> = vec!['f', 'a', 'l', 's', 'e'];
    proof { assert(r@ =~= false_lit()); }
    r
}

} // verus!
