//! Grammar engine, item layer: one catalog item and the whole document.
//!
//! An item is the nine field lines in strict order, whitespace between them;
//! its parse-tree node records the payload span of every field.  A document
//! is one or more items, whitespace around them, consuming the whole input.

use vstd::prelude::*;
use crate::grammar::ws_run_end;
use crate::grammar::lemma_ws_run_end_bounds;
use crate::grammar::skip_ws;
use crate::fields::lemma_product_name_parts_bounds;
use crate::fields::lemma_text_field_parts_bounds;
use crate::fields::lemma_rating_parts_bounds;
use crate::fields::lemma_price_parts_bounds;
use crate::fields::lemma_user_ratings_parts_bounds;
use crate::fields::lemma_user_ratings_parts_matched;
use crate::fields::ratings_inner_matched;
use crate::fields::lemma_reviews_parts_props;
use crate::fields::lemma_availability_parts_bounds;
use crate::grammar::skin_type_label;
use crate::grammar::ingredients_label;
use crate::grammar::recommendations_label;
use crate::rules::number_end;
use crate::fields::product_name_parts;
use crate::fields::match_product_name;
use crate::fields::skin_type_parts;
use crate::fields::ingredients_parts;
use crate::fields::recommendations_parts;
use crate::fields::match_text_field;
use crate::fields::rating_parts;
use crate::fields::match_rating;
use crate::fields::price_parts;
use crate::fields::match_price;
use crate::fields::user_ratings_parts;
use crate::fields::match_user_ratings;
use crate::fields::reviews_parts;
use crate::fields::match_reviews;
use crate::fields::availability_parts;
use crate::fields::match_availability;
use crate::fields::spans_view;
use crate::grammar::skin_type_label_chars;
use crate::grammar::ingredients_label_chars;
use crate::grammar::recommendations_label_chars;

verus! {

/// The parse-tree node of one matched item, in specification form: the
/// payload span of every field, and the span of the whole item.
pub struct ItemParts {
    pub start: int,
    pub end: int,
    /// Free text of the name line, trailing newline included.
    pub name: (int, int),
    /// Free text of the skin-type line.
    pub skin: (int, int),
    /// Free text of the ingredients line.
    pub ingredients: (int, int),
    /// The number of the rating line.
    pub rating_num: (int, int),
    /// The number of the price line.
    pub price_num: (int, int),
    /// The characters between the brackets of the user-ratings list.
    pub ratings_inner: (int, int),
    /// Free text of the recommendations line.
    pub recommendations: (int, int),
    /// The quoted text span of each review, in source order.
    pub reviews: Seq<(int, int)>,
    /// Whether the availability literal was `true`.
    pub avail_true: bool,
}

/// `item`: the nine fields in strict fixed order, each a mandatory sub-rule,
/// whitespace between them.  The match runs from the name line through the
/// newline after availability.
pub open spec fn item_parts(s: Seq<char>, i: int) -> Option<ItemParts> {
    match product_name_parts(s, i) {
        Some(name) => match skin_type_parts(s, ws_run_end(s, name.1)) {
            Some(skin) => match ingredients_parts(s, ws_run_end(s, skin.1)) {
                Some(ingr) => match rating_parts(s, ws_run_end(s, ingr.1)) {
                    Some(rat) => match price_parts(s, ws_run_end(s, rat.2)) {
                        Some(pri) => match user_ratings_parts(s, ws_run_end(s, pri.2)) {
                            Some(ur) => match recommendations_parts(s, ws_run_end(s, ur.2)) {
                                Some(rec) => match reviews_parts(s, ws_run_end(s, rec.1)) {
                                    Some(rv) => match availability_parts(s, ws_run_end(s, rv.1)) {
                                        Some(av) => Some(
                                            ItemParts {
                                                start: i,
                                                end: av.1,
                                                name,
                                                skin,
                                                ingredients: ingr,
                                                rating_num: (rat.0, rat.1),
                                                price_num: (pri.0, pri.1),
                                                ratings_inner: (ur.0, ur.1),
                                                recommendations: rec,
                                                reviews: rv.0,
                                                avail_true: av.0,
                                            },
                                        ),
                                        None => None,
                                    },
                                    None => None,
                                },
                                None => None,
                            },
                            None => None,
                        },
                        None => None,
                    },
                    None => None,
                },
                None => None,
            },
            None => None,
        },
        None => None,
    }
}

/// The payload spans of an item node all lie within the input: what the
/// record extractor asks of a node before it reads it.
pub open spec fn item_wf(s: Seq<char>, p: ItemParts) -> bool {
    &&& 0 <= p.name.0 <= p.name.1 <= s.len()
    &&& 0 <= p.skin.0 <= p.skin.1 <= s.len()
    &&& 0 <= p.ingredients.0 <= p.ingredients.1 <= s.len()
    &&& 0 <= p.rating_num.0 <= p.rating_num.1 <= s.len()
    &&& 0 <= p.price_num.0 <= p.price_num.1 <= s.len()
    &&& 0 <= p.ratings_inner.0 <= p.ratings_inner.1 <= s.len()
    &&& 0 <= p.recommendations.0 <= p.recommendations.1 <= s.len()
    &&& forall|k: int|
        0 <= k < p.reviews.len() ==> 0 <= (#[trigger] p.reviews[k]).0 <= p.reviews[k].1 <= s.len()
}

/// The review spans of an item node stand in source order: each ends
/// before the next begins.
pub open spec fn reviews_ordered(p: ItemParts) -> bool {
    forall|a: int, b: int|
        0 <= a < b < p.reviews.len() ==> (#[trigger] p.reviews[a]).1 < (#[trigger] p.reviews[b]).0
}

pub proof fn lemma_item_parts_props(s: Seq<char>, i: int)
    requires
        0 <= i <= s.len(),
    ensures
        item_parts(s, i) matches Some(p) ==> {
            &&& p.start == i
            &&& i < p.end <= s.len()
            &&& item_wf(s, p)
            &&& reviews_ordered(p)
            &&& number_end(s, p.rating_num.0) == Some(p.rating_num.1)
            &&& number_end(s, p.price_num.0) == Some(p.price_num.1)
            &&& ratings_inner_matched(s, p.ratings_inner.0, p.ratings_inner.1)
        },
{
    lemma_product_name_parts_bounds(s, i);
    match product_name_parts(s, i) {
        Some(name) => {
            lemma_ws_run_end_bounds(s, name.1);
            let g1 = ws_run_end(s, name.1);
            lemma_text_field_parts_bounds(s, g1, skin_type_label());
            match skin_type_parts(s, g1) {
                Some(skin) => {
                    lemma_ws_run_end_bounds(s, skin.1);
                    let g2 = ws_run_end(s, skin.1);
                    lemma_text_field_parts_bounds(s, g2, ingredients_label());
                    match ingredients_parts(s, g2) {
                        Some(ingr) => {
                            lemma_ws_run_end_bounds(s, ingr.1);
                            let g3 = ws_run_end(s, ingr.1);
                            lemma_rating_parts_bounds(s, g3);
                            match rating_parts(s, g3) {
                                Some(rat) => {
                                    lemma_ws_run_end_bounds(s, rat.2);
                                    let g4 = ws_run_end(s, rat.2);
                                    lemma_price_parts_bounds(s, g4);
                                    match price_parts(s, g4) {
                                        Some(pri) => {
                                            lemma_ws_run_end_bounds(s, pri.2);
                                            let g5 = ws_run_end(s, pri.2);
                                            lemma_user_ratings_parts_bounds(s, g5);
                                            lemma_user_ratings_parts_matched(s, g5);
                                            match user_ratings_parts(s, g5) {
                                                Some(ur) => {
                                                    lemma_ws_run_end_bounds(s, ur.2);
                                                    let g6 = ws_run_end(s, ur.2);
                                                    lemma_text_field_parts_bounds(
                                                        s,
                                                        g6,
                                                        recommendations_label(),
                                                    );
                                                    match recommendations_parts(s, g6) {
                                                        Some(rec) => {
                                                            lemma_ws_run_end_bounds(s, rec.1);
                                                            let g7 = ws_run_end(s, rec.1);
                                                            lemma_reviews_parts_props(s, g7);
                                                            match reviews_parts(s, g7) {
                                                                Some(rv) => {
                                                                    lemma_ws_run_end_bounds(
                                                                        s,
                                                                        rv.1,
                                                                    );
                                                                    let g8 = ws_run_end(s, rv.1);
                                                                    lemma_availability_parts_bounds(
                                                                        s,
                                                                        g8,
                                                                    );
                                                                },
                                                                None => {},
                                                            }
                                                        },
                                                        None => {},
                                                    }
                                                },
                                                None => {},
                                            }
                                        },
                                        None => {},
                                    }
                                },
                                None => {},
                            }
                        },
                        None => {},
                    }
                },
                None => {},
            }
        },
        None => {},
    }
}

/// The parse-tree node of one matched item, in executable form.
pub struct ItemNode {
    pub start: usize,
    pub end: usize,
    pub name: (usize, usize),
    pub skin: (usize, usize),
    pub ingredients: (usize, usize),
    pub rating_num: (usize, usize),
    pub price_num: (usize, usize),
    pub ratings_inner: (usize, usize),
    pub recommendations: (usize, usize),
    pub reviews: Vec<(usize, usize)>,
    pub avail_true: bool,
}

impl View for ItemNode {
    type V = ItemParts;

    open spec fn view(&self) -> ItemParts {
        ItemParts {
            start: self.start as int,
            end: self.end as int,
            name: (self.name.0 as int, self.name.1 as int),
            skin: (self.skin.0 as int, self.skin.1 as int),
            ingredients: (self.ingredients.0 as int, self.ingredients.1 as int),
            rating_num: (self.rating_num.0 as int, self.rating_num.1 as int),
            price_num: (self.price_num.0 as int, self.price_num.1 as int),
            ratings_inner: (self.ratings_inner.0 as int, self.ratings_inner.1 as int),
            recommendations: (self.recommendations.0 as int, self.recommendations.1 as int),
            reviews: spans_view(self.reviews@),
            avail_true: self.avail_true,
        }
    }
}

/// Matches one item at `pos` and builds its parse-tree node.
pub fn match_item(input: &[char], pos: usize) -> (r: Option<ItemNode>)
    requires
        pos <= input.len(),
    ensures
        match r {
            Some(n) => item_parts(input@, pos as int) == Some(n@) && n.start == pos && pos < n.end
                <= input.len() && item_wf(input@, n@),
            None => item_parts(input@, pos as int) is None,
        },
{
    let name = match match_product_name(input, pos) {
        Some(x) => x,
        None => {
            return None;
        },
    };
    let skin = match match_text_field(input, skip_ws(input, name.1), skin_type_label_chars().as_slice()) {
        Some(x) => x,
        None => {
            return None;
        },
    };
    let ingr = match match_text_field(
        input,
        skip_ws(input, skin.1),
        ingredients_label_chars().as_slice(),
    ) {
        Some(x) => x,
        None => {
            return None;
        },
    };
    let rat = match match_rating(input, skip_ws(input, ingr.1)) {
        Some(x) => x,
        None => {
            return None;
        },
    };
    let pri = match match_price(input, skip_ws(input, rat.2)) {
        Some(x) => x,
        None => {
            return None;
        },
    };
    let ur = match match_user_ratings(input, skip_ws(input, pri.2)) {
        Some(x) => x,
        None => {
            return None;
        },
    };
    let rec = match match_text_field(
        input,
        skip_ws(input, ur.2),
        recommendations_label_chars().as_slice(),
    ) {
        Some(x) => x,
        None => {
            return None;
        },
    };
    let rv = match match_reviews(input, skip_ws(input, rec.1)) {
        Some(x) => x,
        None => {
            return None;
        },
    };
    let av = match match_availability(input, skip_ws(input, rv.1)) {
        Some(x) => x,
        None => {
            return None;
        },
    };
    Some(
        ItemNode {
            start: pos,
            end: av.1,
            name,
            skin,
            ingredients: ingr,
            rating_num: (rat.0, rat.1),
            price_num: (pri.0, pri.1),
            ratings_inner: (ur.0, ur.1),
            recommendations: rec,
            reviews: rv.0,
            avail_true: av.0,
        },
    )
}

/// Items from position `i` to the end of the input: whitespace, then either
/// the end of the input or an item followed by the same again.
pub open spec fn items_from(s: Seq<char>, i: int) -> Option<Seq<ItemParts>>
    decreases s.len() - i when 0 <= i <= s.len()
{
    let j = ws_run_end(s, i);
    if j == s.len() {
        Some(Seq::empty())
    } else {
        match item_parts(s, j) {
            Some(p) => if i < p.end && p.end <= s.len() {
                match items_from(s, p.end) {
                    Some(rest) => Some(seq![p] + rest),
                    None => None,
                }
            } else {
                None
            },
            None => None,
        }
    }
}

/// `document`: one or more items, whitespace around them, consuming the
/// whole input.  Zero items is not a document, and trailing unmatched text
/// fails the whole match.
pub open spec fn document_parts(s: Seq<char>) -> Option<Seq<ItemParts>> {
    match items_from(s, 0) {
        Some(ps) => if ps.len() >= 1 {
            Some(ps)
        } else {
            None
        },
        None => None,
    }
}

/// Where document matching stops when it is attempted from position `i`:
/// the start of the first item attempt that fails, or the end of the input
/// when every attempt succeeds.  This is the position a document-level
/// syntax error reports.
pub open spec fn items_fail_pos(s: Seq<char>, i: int) -> int
    decreases s.len() - i when 0 <= i <= s.len()
{
    let j = ws_run_end(s, i);
    if j == s.len() {
        j
    } else {
        match item_parts(s, j) {
            Some(p) => if i < p.end && p.end <= s.len() {
                items_fail_pos(s, p.end)
            } else {
                j
            },
            None => j,
        }
    }
}

pub proof fn lemma_items_from_props(s: Seq<char>, i: int)
    requires
        0 <= i <= s.len(),
    ensures
        items_from(s, i) matches Some(ps) ==> {
            &&& forall|k: int|
                0 <= k < ps.len() ==> item_wf(s, #[trigger] ps[k]) && reviews_ordered(ps[k]) && i
                    <= ps[k].start < ps[k].end <= s.len()
            &&& forall|k: int|
                0 <= k < ps.len() ==> item_parts(s, (#[trigger] ps[k]).start) == Some(ps[k])
            &&& forall|a: int, b: int|
                0 <= a < b < ps.len() ==> (#[trigger] ps[a]).end <= (#[trigger] ps[b]).start
        },
    decreases s.len() - i,
{
    lemma_ws_run_end_bounds(s, i);
    let j = ws_run_end(s, i);
    if j == s.len() {
    } else {
        lemma_item_parts_props(s, j);
        match item_parts(s, j) {
            Some(p) => {
                if i < p.end && p.end <= s.len() {
                    lemma_items_from_props(s, p.end);
                    match items_from(s, p.end) {
                        Some(rest) => {
                            let ps = seq![p] + rest;
                            assert forall|k: int| 0 <= k < ps.len() implies item_wf(
                                s,
                                #[trigger] ps[k],
                            ) && reviews_ordered(ps[k]) && i <= ps[k].start < ps[k].end
                                <= s.len() by {
                                if k == 0 {
                                    assert(ps[0] == p);
                                } else {
                                    assert(ps[k] == rest[k - 1]);
                                }
                            }
                            assert forall|k: int| 0 <= k < ps.len() implies item_parts(
                                s,
                                (#[trigger] ps[k]).start,
                            ) == Some(ps[k]) by {
                                if k == 0 {
                                    assert(ps[0] == p);
                                } else {
                                    assert(ps[k] == rest[k - 1]);
                                }
                            }
                            assert forall|a: int, b: int| 0 <= a < b < ps.len() implies (
                            #[trigger] ps[a]).end <= (#[trigger] ps[b]).start by {
                                if a == 0 {
                                    assert(ps[0] == p);
                                    assert(ps[b] == rest[b - 1]);
                                } else {
                                    assert(ps[a] == rest[a - 1]);
                                    assert(ps[b] == rest[b - 1]);
                                }
                            }
                        },
                        None => {},
                    }
                }
            },
            None => {},
        }
    }
}

/// The sequence of item nodes that a vector stands for.
pub open spec fn nodes_view(v: Seq<ItemNode>) -> Seq<ItemParts> {
    v.map_values(|n: ItemNode| n@)
}

/// Matches the whole document and builds the parse-tree node of every item,
/// in source order.  On failure the returned position is where matching
/// stopped, for diagnostics.
pub fn match_document(input: &[char]) -> (r: Result<Vec<ItemNode>, usize>)
    ensures
        match r {
            Ok(v) => {
                &&& document_parts(input@) matches Some(ps)
                &&& nodes_view(v@) == ps
                &&& forall|k: int| 0 <= k < v@.len() ==> item_wf(input@, (#[trigger] v@[k])@)
            },
            Err(e) => document_parts(input@) is None && e as int == items_fail_pos(input@, 0)
                && e <= input.len(),
        },
{
    let mut acc: Vec<ItemNode> = Vec::new();
    let mut cur: usize = 0;
    loop
        invariant
            cur <= input.len(),
            items_fail_pos(input@, cur as int) == items_fail_pos(input@, 0),
            forall|k: int| 0 <= k < acc@.len() ==> item_wf(input@, (#[trigger] acc@[k])@),
            forall|rest: Seq<ItemParts>|
                items_from(input@, cur as int) == Some(rest) ==> items_from(input@, 0) == Some(
                    nodes_view(acc@) + rest,
                ),
            items_from(input@, cur as int) is None ==> items_from(input@, 0) is None,
        decreases input.len() - cur,
    {
        let j = skip_ws(input, cur);
        if j == input.len() {
            proof {
                assert(items_from(input@, cur as int) == Some(Seq::<ItemParts>::empty()));
                assert(nodes_view(acc@) + Seq::<ItemParts>::empty() =~= nodes_view(acc@));
            }
            if acc.len() == 0 {
                return Err(j);
            }
            return Ok(acc);
        }
        match match_item(input, j) {
            Some(n) => {
                proof {
                    let s = input@;
                    let p = n@;
                    assert(items_from(s, cur as int) == (match items_from(s, p.end) {
                        Some(rest) => Some(seq![p] + rest),
                        None => None,
                    }));
                    assert forall|rest: Seq<ItemParts>|
                        items_from(s, p.end) == Some(rest) implies items_from(s, 0) == Some(
                        nodes_view(acc@.push(n)) + rest,
                    ) by {
                        assert(items_from(s, cur as int) == Some(seq![p] + rest));
                        assert(nodes_view(acc@) + (seq![p] + rest) =~= nodes_view(acc@.push(n))
                            + rest);
                    }
                }
                let e = n.end;
                acc.push(n);
                cur = e;
            },
            None => {
                return Err(j);
            },
        }
    }
}

} // verus!
