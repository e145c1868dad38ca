//! Grammar engine, rule layer: the primitive rules of the catalog dialect.
//!
//! Each rule has a specification function that gives the position just past
//! its match (or `None` on failure), and an executable matcher proved to
//! return exactly that.  Matching is possessive, as in an ordered-choice
//! grammar: a rule either fails or matches one definite span.

use vstd::prelude::*;
use crate::is_ws;
use crate::is_ws_char;
use crate::is_digit;
use crate::is_digit_char;
use crate::grammar::ws_run_end;
use crate::grammar::lemma_ws_run_end_bounds;
use crate::grammar::skip_ws;
use crate::grammar::digit_run_end;
use crate::grammar::lemma_digit_run_end_bounds;
use crate::grammar::lemma_digit_run_chars;
use crate::grammar::skip_digits;
use crate::grammar::char_scan;
use crate::grammar::lemma_char_scan_bounds;
use crate::grammar::find_char;
use crate::grammar::lit_match;
use crate::grammar::match_lit;
use crate::grammar::uah_lit;
use crate::grammar::uah_chars;
use crate::grammar::eur_lit;
use crate::grammar::eur_chars;
use crate::grammar::usd_lit;
use crate::grammar::usd_chars;
use crate::grammar::true_lit;
use crate::grammar::true_chars;
use crate::grammar::false_lit;
use crate::grammar::false_chars;

verus! {

/// `whitespace-unit`: exactly one whitespace character.
pub open spec fn whitespace_end(s: Seq<char>, i: int) -> Option<int> {
    if 0 <= i < s.len() && is_ws(s[i]) {
        Some(i + 1)
    } else {
        None
    }
}

/// Matches one whitespace character at `pos`.
pub fn match_whitespace(input: &[char], pos: usize) -> (r: Option<usize>)
    requires
        pos <= input.len(),
    ensures
        match r {
            Some(e) => whitespace_end(input@, pos as int) == Some(e as int) && pos < e <= input.len(),
            None => whitespace_end(input@, pos as int) is None,
        },
{
    if pos < input.len() && is_ws_char(input[pos]) {
        Some(pos + 1)
    } else {
        None
    }
}

/// `space-run`: one or more consecutive whitespace characters, as one span.
pub open spec fn space_end(s: Seq<char>, i: int) -> Option<int> {
    if 0 <= i < s.len() && is_ws(s[i]) {
        Some(ws_run_end(s, i))
    } else {
        None
    }
}

/// Matches a maximal whitespace run at `pos`.
pub fn match_space(input: &[char], pos: usize) -> (r: Option<usize>)
    requires
        pos <= input.len(),
    ensures
        match r {
            Some(e) => space_end(input@, pos as int) == Some(e as int) && pos < e <= input.len(),
            None => space_end(input@, pos as int) is None,
        },
{
    if pos < input.len() && is_ws_char(input[pos]) {
        let e = skip_ws(input, pos);
        proof {
            lemma_ws_run_end_bounds(input@, pos + 1);
        }
        Some(e)
    } else {
        None
    }
}

/// Position just past the next newline at or after `i`, or `None` if the
/// rest of `s` holds no newline.
pub open spec fn line_end(s: Seq<char>, i: int) -> Option<int>
    recommends
        0 <= i <= s.len(),
{
    let p = char_scan(s, i, '\n');
    if p < s.len() {
        Some(p + 1)
    } else {
        None
    }
}

/// `any-text`: one or more characters other than a newline, up to and
/// including the terminating newline.
pub open spec fn any_text_end(s: Seq<char>, i: int) -> Option<int> {
    if 0 <= i < s.len() && s[i] != '\n' {
        line_end(s, i)
    } else {
        None
    }
}

pub proof fn lemma_any_text_end_bounds(s: Seq<char>, i: int)
    requires
        0 <= i <= s.len(),
    ensures
        any_text_end(s, i) matches Some(e) ==> i < e <= s.len(),
{
    lemma_char_scan_bounds(s, i, '\n');
}

/// Matches free text at `pos`.
pub fn match_any_text(input: &[char], pos: usize) -> (r: Option<usize>)
    requires
        pos <= input.len(),
    ensures
        match r {
            Some(e) => any_text_end(input@, pos as int) == Some(e as int) && pos < e <= input.len(),
            None => any_text_end(input@, pos as int) is None,
        },
{
    if pos < input.len() && input[pos] != '\n' {
        let p = find_char(input, pos, '\n');
        if p < input.len() {
            Some(p + 1)
        } else {
            None
        }
    } else {
        None
    }
}

/// `number`: an optional minus sign, one or more digits, and an optional
/// fractional part of a dot followed by one or more digits.
pub open spec fn number_end(s: Seq<char>, i: int) -> Option<int>
    recommends
        0 <= i <= s.len(),
{
    let j = if i < s.len() && s[i] == '-' {
        i + 1
    } else {
        i
    };
    if j < s.len() && is_digit(s[j]) {
        let k = digit_run_end(s, j);
        if k + 1 < s.len() && s[k] == '.' && is_digit(s[k + 1]) {
            Some(digit_run_end(s, k + 1))
        } else {
            Some(k)
        }
    } else {
        None
    }
}

pub proof fn lemma_number_end_bounds(s: Seq<char>, i: int)
    requires
        0 <= i <= s.len(),
    ensures
        number_end(s, i) is Some ==> i < number_end(s, i).unwrap() <= s.len(),
{
    let j = if i < s.len() && s[i] == '-' {
        i + 1
    } else {
        i
    };
    if j < s.len() && is_digit(s[j]) {
        lemma_digit_run_end_bounds(s, j + 1);
        let k = digit_run_end(s, j);
        if k + 1 < s.len() && s[k] == '.' && is_digit(s[k + 1]) {
            lemma_digit_run_end_bounds(s, k + 2);
        }
    }
}

pub proof fn lemma_number_chars(s: Seq<char>, i: int)
    requires
        0 <= i <= s.len(),
    ensures
        number_end(s, i) matches Some(e) ==> forall|k: int|
            i <= k < e ==> (#[trigger] s[k]) == '-' || s[k] == '.' || is_digit(s[k]),
{
    let j = if i < s.len() && s[i] == '-' {
        i + 1
    } else {
        i
    };
    if j < s.len() && is_digit(s[j]) {
        lemma_digit_run_end_bounds(s, j + 1);
        lemma_digit_run_chars(s, j);
        let k = digit_run_end(s, j);
        if k + 1 < s.len() && s[k] == '.' && is_digit(s[k + 1]) {
            lemma_digit_run_end_bounds(s, k + 2);
            lemma_digit_run_chars(s, k + 1);
        }
    }
}

/// Matches a signed decimal number at `pos`.
pub fn match_number(input: &[char], pos: usize) -> (r: Option<usize>)
    requires
        pos <= input.len(),
    ensures
        match r {
            Some(e) => number_end(input@, pos as int) == Some(e as int) && pos < e <= input.len(),
            None => number_end(input@, pos as int) is None,
        },
{
    let j = if pos < input.len() && input[pos] == '-' {
        pos + 1
    } else {
        pos
    };
    if j < input.len() && is_digit_char(input[j]) {
        let k = skip_digits(input, j);
        proof {
            lemma_digit_run_end_bounds(input@, j + 1);
        }
        if k < input.len() && input[k] == '.' && k + 1 < input.len() && is_digit_char(input[k + 1]) {
            let e = skip_digits(input, k + 1);
            proof {
                lemma_digit_run_end_bounds(input@, k + 2);
            }
            Some(e)
        } else {
            Some(k)
        }
    } else {
        None
    }
}

/// `currency-code`: one of the literals `UAH`, `EUR`, `USD`, tried in that
/// order (they do not overlap, so the order cannot change the result).
pub open spec fn currency_end(s: Seq<char>, i: int) -> Option<int> {
    if lit_match(s, i, uah_lit()) || lit_match(s, i, eur_lit()) || lit_match(s, i, usd_lit()) {
        Some(i + 3)
    } else {
        None
    }
}

/// Matches a currency code at `pos`.
pub fn match_currency(input: &[char], pos: usize) -> (r: Option<usize>)
    requires
        pos <= input.len(),
    ensures
        match r {
            Some(e) => currency_end(input@, pos as int) == Some(e as int) && pos < e <= input.len(),
            None => currency_end(input@, pos as int) is None,
        },
{
    if match_lit(input, pos, uah_chars().as_slice())
        || match_lit(input, pos, eur_chars().as_slice())
        || match_lit(input, pos, usd_chars().as_slice()) {
        Some(pos + 3)
    } else {
        None
    }
}

/// `boolean`: the literal `true` or the literal `false`.
pub open spec fn boolean_end(s: Seq<char>, i: int) -> Option<int> {
    if lit_match(s, i, true_lit()) {
        Some(i + 4)
    } else if lit_match(s, i, false_lit()) {
        Some(i + 5)
    } else {
        None
    }
}

/// Matches a boolean literal at `pos`.
pub fn match_boolean(input: &[char], pos: usize) -> (r: Option<usize>)
    requires
        pos <= input.len(),
    ensures
        match r {
            Some(e) => boolean_end(input@, pos as int) == Some(e as int) && pos < e <= input.len(),
            None => boolean_end(input@, pos as int) is None,
        },
{
    if match_lit(input, pos, true_chars().as_slice()) {
        Some(pos + 4)
    } else if match_lit(input, pos, false_chars().as_slice()) {
        Some(pos + 5)
    } else {
        None
    }
}

/// After the first number of a bracketed list: zero or more further
/// `, number` groups, then the closing bracket.  Whitespace may stand
/// around commas and before the bracket.
pub open spec fn list_items_end(s: Seq<char>, i: int) -> Option<int>
    decreases s.len() - i when 0 <= i <= s.len()
{
    let j = ws_run_end(s, i);
    if j < s.len() && s[j] == ',' {
        let k = ws_run_end(s, j + 1);
        match number_end(s, k) {
            Some(e) => if i < e && e <= s.len() {
                list_items_end(s, e)
            } else {
                None
            },
            None => None,
        }
    } else if j < s.len() && s[j] == ']' {
        Some(j + 1)
    } else {
        None
    }
}

pub proof fn lemma_list_items_end_bounds(s: Seq<char>, i: int)
    requires
        0 <= i <= s.len(),
    ensures
        list_items_end(s, i) matches Some(e) ==> i < e <= s.len(),
    decreases s.len() - i,
{
    lemma_ws_run_end_bounds(s, i);
    let j = ws_run_end(s, i);
    if j < s.len() && s[j] == ',' {
        lemma_ws_run_end_bounds(s, j + 1);
        let k = ws_run_end(s, j + 1);
        lemma_number_end_bounds(s, k);
        match number_end(s, k) {
            Some(e) => {
                if i < e && e <= s.len() {
                    lemma_list_items_end_bounds(s, e);
                }
            },
            None => {},
        }
    }
}

/// `number-list`: a `[`-delimited, `]`-terminated, comma-separated sequence
/// of one or more numbers.
pub open spec fn number_list_end(s: Seq<char>, i: int) -> Option<int> {
    if 0 <= i && i < s.len() && s[i] == '[' {
        let j = ws_run_end(s, i + 1);
        match number_end(s, j) {
            Some(e) => if i < e && e <= s.len() {
                list_items_end(s, e)
            } else {
                None
            },
            None => None,
        }
    } else {
        None
    }
}

pub proof fn lemma_number_list_end_bounds(s: Seq<char>, i: int)
    requires
        0 <= i <= s.len(),
    ensures
        number_list_end(s, i) matches Some(e) ==> i + 2 < e <= s.len(),
{
    if 0 <= i && i < s.len() && s[i] == '[' {
        lemma_ws_run_end_bounds(s, i + 1);
        let j = ws_run_end(s, i + 1);
        lemma_number_end_bounds(s, j);
        match number_end(s, j) {
            Some(e) => {
                if i < e && e <= s.len() {
                    lemma_list_items_end_bounds(s, e);
                }
            },
            None => {},
        }
    }
}

/// Matches a bracketed number list at `pos`.
pub fn match_number_list(input: &[char], pos: usize) -> (r: Option<usize>)
    requires
        pos <= input.len(),
    ensures
        match r {
            Some(e) => number_list_end(input@, pos as int) == Some(e as int) && pos + 2 < e
                <= input.len(),
            None => number_list_end(input@, pos as int) is None,
        },
{
    if !(pos < input.len() && input[pos] == '[') {
        return None;
    }
    let j = skip_ws(input, pos + 1);
    let first = match match_number(input, j) {
        Some(e) => e,
        None => {
            return None;
        },
    };
    let mut cur = first;
    loop
        invariant
            pos + 2 <= cur <= input.len(),
            number_list_end(input@, pos as int) == list_items_end(input@, cur as int),
        decreases input.len() - cur,
    {
        let j2 = skip_ws(input, cur);
        if j2 < input.len() && input[j2] == ',' {
            let k = skip_ws(input, j2 + 1);
            match match_number(input, k) {
                Some(e2) => {
                    cur = e2;
                },
                None => {
                    return None;
                },
            }
        } else if j2 < input.len() && input[j2] == ']' {
            return Some(j2 + 1);
        } else {
            return None;
        }
    }
}

} // verus!
