//! Document driver and the per-rule parse entry point.
//!
//! `Grammar::parse` attempts one named rule at the start of the input and
//! reports the matched span; `parse_document` runs the whole-document rule
//! and extracts the record of every item, in source order.

use vstd::prelude::*;
use crate::rules::whitespace_end;
use crate::rules::match_whitespace;
use crate::rules::space_end;
use crate::rules::match_space;
use crate::rules::any_text_end;
use crate::rules::match_any_text;
use crate::rules::number_end;
use crate::rules::match_number;
use crate::rules::currency_end;
use crate::rules::match_currency;
use crate::rules::boolean_end;
use crate::rules::match_boolean;
use crate::rules::number_list_end;
use crate::rules::match_number_list;
use crate::fields::product_name_parts;
use crate::fields::match_product_name;
use crate::fields::skin_type_parts;
use crate::fields::ingredients_parts;
use crate::fields::recommendations_parts;
use crate::fields::match_text_field;
use crate::fields::rating_parts;
use crate::fields::match_rating;
use crate::fields::price_parts;
use crate::fields::match_price;
use crate::fields::user_ratings_parts;
use crate::fields::match_user_ratings;
use crate::fields::review_parts;
use crate::fields::match_review;
use crate::fields::reviews_parts;
use crate::fields::match_reviews;
use crate::fields::availability_parts;
use crate::fields::match_availability;
use crate::grammar::skin_type_label_chars;
use crate::grammar::ingredients_label_chars;
use crate::grammar::recommendations_label_chars;
use crate::item::item_parts;
use crate::item::match_item;
use crate::item::document_parts;
use crate::item::items_fail_pos;
use crate::item::match_document;
use crate::item::nodes_view;
use crate::record::Product;
use crate::record::ProductSpec;
use crate::record::product_of;

verus! {

/// The named rules of the grammar, as a caller selects them.
#[allow(non_camel_case_types)]
#[derive(Clone, Copy, PartialEq, Eq, Debug)]
pub enum Rule {
    WHITESPACE,
    SPACE,
    products,
    product,
    product_name,
    skin_type,
    ingredients,
    rating,
    price,
    currency,
    number,
    number_list,
    user_ratings,
    recommendations,
    review,
    reviews,
    boolean,
    availability,
    any_text,
}

/// A matched span: the rule, and the half-open range of positions it
/// covered, starting at the beginning of the input.
#[derive(Clone, Copy, PartialEq, Eq, Debug)]
pub struct Pair {
    pub rule: Rule,
    pub start: usize,
    pub end: usize,
}

/// A syntax failure, with the position where the failed attempt stopped,
/// for diagnostics.
#[derive(Clone, Copy, PartialEq, Eq, Debug)]
pub struct ParseError {
    pub pos: usize,
}

/// Where each rule's match ends when attempted at the start of `s`, or
/// `None` when the rule fails there.  A rule other than `products` matches
/// a prefix; `products` must consume the whole input.
pub open spec fn rule_end(rule: Rule, s: Seq<char>) -> Option<int> {
    match rule {
        Rule::WHITESPACE => whitespace_end(s, 0),
        Rule::SPACE => space_end(s, 0),
        Rule::products => if document_parts(s) is Some {
            Some(s.len() as int)
        } else {
            None
        },
        Rule::product => match item_parts(s, 0) {
            Some(p) => Some(p.end),
            None => None,
        },
        Rule::product_name => match product_name_parts(s, 0) {
            Some(p) => Some(p.1),
            None => None,
        },
        Rule::skin_type => match skin_type_parts(s, 0) {
            Some(p) => Some(p.1),
            None => None,
        },
        Rule::ingredients => match ingredients_parts(s, 0) {
            Some(p) => Some(p.1),
            None => None,
        },
        Rule::rating => match rating_parts(s, 0) {
            Some(p) => Some(p.2),
            None => None,
        },
        Rule::price => match price_parts(s, 0) {
            Some(p) => Some(p.2),
            None => None,
        },
        Rule::currency => currency_end(s, 0),
        Rule::number => number_end(s, 0),
        Rule::number_list => number_list_end(s, 0),
        Rule::user_ratings => match user_ratings_parts(s, 0) {
            Some(p) => Some(p.2),
            None => None,
        },
        Rule::recommendations => match recommendations_parts(s, 0) {
            Some(p) => Some(p.1),
            None => None,
        },
        Rule::review => match review_parts(s, 0) {
            Some(p) => Some(p.2),
            None => None,
        },
        Rule::reviews => match reviews_parts(s, 0) {
            Some(p) => Some(p.1),
            None => None,
        },
        Rule::boolean => boolean_end(s, 0),
        Rule::availability => match availability_parts(s, 0) {
            Some(p) => Some(p.1),
            None => None,
        },
        Rule::any_text => any_text_end(s, 0),
    }
}

/// Where a failed parse of `rule` reports its error: for `products`, where
/// document matching stopped; for any other rule, the start of the input,
/// where the one attempt was made.
pub open spec fn rule_fail_pos(rule: Rule, s: Seq<char>) -> int {
    match rule {
        Rule::products => items_fail_pos(s, 0),
        _ => 0,
    }
}

/// The grammar engine.  Its one operation attempts a named rule against an
/// input.
pub struct Grammar;

impl Grammar {
    /// Attempts `rule` at the start of `input`.  Success gives the matched
    /// span; failure gives a syntax error whose position says where the
    /// failed attempt stopped.
    pub fn parse(rule: Rule, input: &[char]) -> (r: Result<Pair, ParseError>)
        ensures
            match r {
                Ok(p) => rule_end(rule, input@) == Some(p.end as int) && p.start == 0 && p.rule
                    == rule && p.end <= input.len(),
                Err(e) => rule_end(rule, input@) is None && e.pos as int == rule_fail_pos(
                    rule,
                    input@,
                ) && e.pos <= input.len(),
            },
    {
        let end: Option<usize> = match rule {
            Rule::WHITESPACE => match_whitespace(input, 0),
            Rule::SPACE => match_space(input, 0),
            Rule::products => {
                match match_document(input) {
                    Ok(_) => Some(input.len()),
                    Err(e) => {
                        return Err(ParseError { pos: e });
                    },
                }
            },
            Rule::product => match match_item(input, 0) {
                Some(n) => Some(n.end),
                None => None,
            },
            Rule::product_name => match match_product_name(input, 0) {
                Some(p) => Some(p.1),
                None => None,
            },
            Rule::skin_type => match match_text_field(input, 0, skin_type_label_chars().as_slice()) {
                Some(p) => Some(p.1),
                None => None,
            },
            Rule::ingredients => match match_text_field(
                input,
                0,
                ingredients_label_chars().as_slice(),
            ) {
                Some(p) => Some(p.1),
                None => None,
            },
            Rule::rating => match match_rating(input, 0) {
                Some(p) => Some(p.2),
                None => None,
            },
            Rule::price => match match_price(input, 0) {
                Some(p) => Some(p.2),
                None => None,
            },
            Rule::currency => match_currency(input, 0),
            Rule::number => match_number(input, 0),
            Rule::number_list => match_number_list(input, 0),
            Rule::user_ratings => match match_user_ratings(input, 0) {
                Some(p) => Some(p.2),
                None => None,
            },
            Rule::recommendations => match match_text_field(
                input,
                0,
                recommendations_label_chars().as_slice(),
            ) {
                Some(p) => Some(p.1),
                None => None,
            },
            Rule::review => match match_review(input, 0) {
                Some(p) => Some(p.2),
                None => None,
            },
            Rule::reviews => match match_reviews(input, 0) {
                Some(p) => Some(p.1),
                None => None,
            },
            Rule::boolean => match_boolean(input, 0),
            Rule::availability => match match_availability(input, 0) {
                Some(p) => Some(p.1),
                None => None,
            },
            Rule::any_text => match_any_text(input, 0),
        };
        match end {
            Some(e) => Ok(Pair { rule, start: 0, end: e }),
            None => Err(ParseError { pos: 0 }),
        }
    }
}

/// The sequence of record values that a vector stands for.
pub open spec fn products_view(v: Seq<Product>) -> Seq<ProductSpec> {
    v.map_values(|p: Product| p@)
}

/// The records of a document: one per matched item, in source order, or
/// `None` when the document rule fails.
pub open spec fn document_products(s: Seq<char>) -> Option<Seq<ProductSpec>> {
    match document_parts(s) {
        Some(ps) => Some(ps.map_values(|p| product_of(s, p))),
        None => None,
    }
}

/// Parses a whole catalog.  Success gives the record of every item, in
/// source order; failure gives a single document-level error whose position
/// says where matching stopped.  No partial catalog is ever returned.
pub fn parse_document(input: &[char]) -> (r: Result<Vec<Product>, ParseError>)
    ensures
        match r {
            Ok(v) => {
                &&& document_products(input@) matches Some(qs)
                &&& products_view(v@) == qs
            },
            Err(e) => document_products(input@) is None && e.pos as int == items_fail_pos(
                input@,
                0,
            ) && e.pos <= input.len(),
        },
{
    let nodes = match match_document(input) {
        Ok(ns) => ns,
        Err(e) => {
            return Err(ParseError { pos: e });
        },
    };
    let ghost ps = document_parts(input@).unwrap();
    let mut out: Vec<Product> = Vec::new();
    let mut k: usize = 0;
    while k < nodes.len()
        invariant
            0 <= k <= nodes.len(),
            document_parts(input@) == Some(ps),
            nodes_view(nodes@) == ps,
            forall|m: int|
                0 <= m < nodes@.len() ==> crate::item::item_wf(input@, (#[trigger] nodes@[m])@),
            products_view(out@) =~= ps.subrange(0, k as int).map_values(
                |p| product_of(input@, p),
            ),
        decreases nodes.len() - k,
    {
        let ghost prev = out@;
        let p = Product::from_pair(input, &nodes[k]);
        out.push(p);
        proof {
            let s = input@;
            let f = |q| product_of(s, q);
            let g = |q: Product| q@;
            assert(out@.map_values(g) =~= prev.map_values(g).push(p@));
            assert(ps.subrange(0, k + 1).map_values(f) =~= ps.subrange(0, k as int).map_values(
                f,
            ).push(f(ps[k as int])));
            assert(ps[k as int] == nodes@[k as int]@);
        }
        k = k + 1;
    }
    proof {
        assert(ps.subrange(0, ps.len() as int) =~= ps);
        assert(products_view(out@) =~= document_products(input@).unwrap());
    }
    Ok(out)
}

} // verus!
