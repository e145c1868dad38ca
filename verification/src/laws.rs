//! The properties the library warrants of parsing and extraction, stated
//! over the same specification functions that the public contracts use.

use vstd::prelude::*;
use crate::item::document_parts;
use crate::item::items_from;
use crate::item::item_wf;
use crate::item::reviews_ordered;
use crate::item::lemma_items_from_props;
use crate::item::lemma_item_parts_props;
use crate::record::decimal_of_token;
use crate::record::lemma_number_span_reads;
use crate::record::comma_count;
use crate::record::lemma_list_pieces;
use crate::rules::number_end;
use crate::fields::ratings_inner_matched;
use crate::grammar::ws_run_end;
use crate::item::ItemParts;
use crate::parse::document_products;
use crate::record::ProductSpec;
use crate::record::product_of;
use crate::record::decimal_wf;
use crate::record::lemma_decimal_of_token_wf;
use crate::record::lemma_ratings_of_wf;
use crate::record::trimmed;

verus! {

/// Parsing is deterministic: one input has one record sequence.  Two
/// successful parses of the same text yield structurally identical
/// sequences, so parsing twice changes nothing.
pub proof fn lemma_parse_deterministic(s: Seq<char>, d1: Seq<ProductSpec>, d2: Seq<ProductSpec>)
    requires
        document_products(s) == Some(d1),
        document_products(s) == Some(d2),
    ensures
        d1 == d2,
{
}

/// Extraction is total: whenever the document rule matches, every matched
/// item node is well formed, so the record extractor is defined on each and
/// yields a record with all nine fields populated; there is one record per
/// item.
pub proof fn lemma_extraction_total(s: Seq<char>)
    requires
        document_parts(s) is Some,
    ensures
        document_products(s) is Some,
        document_products(s).unwrap().len() == document_parts(s).unwrap().len(),
        forall|k: int|
            0 <= k < document_parts(s).unwrap().len() ==> item_wf(
                s,
                #[trigger] document_parts(s).unwrap()[k],
            ),
{
    lemma_items_from_props(s, 0);
}

/// Order is preserved: the items of a parsed document lie in source order
/// (each item's span ends no later than the next begins), and within each
/// item the review spans lie in source order as well.  The user-ratings
/// sequence reads its bracketed span left to right by definition.
pub proof fn lemma_order_preservation(s: Seq<char>)
    requires
        document_parts(s) is Some,
    ensures
        forall|k: int|
            0 <= k < document_parts(s).unwrap().len() ==> (#[trigger] document_parts(
                s,
            ).unwrap()[k]).start < document_parts(s).unwrap()[k].end,
        forall|a: int, b: int|
            0 <= a < b < document_parts(s).unwrap().len() ==> (#[trigger] document_parts(
                s,
            ).unwrap()[a]).end <= (#[trigger] document_parts(s).unwrap()[b]).start,
        forall|k: int|
            0 <= k < document_parts(s).unwrap().len() ==> reviews_ordered(
                #[trigger] document_parts(s).unwrap()[k],
            ),
{
    lemma_items_from_props(s, 0);
}

/// The numbers of an extracted record are sound: the rating, the price and
/// every user rating are well-formed decimals — at least one integer digit,
/// digits alone in both parts — whether they were read from the source or
/// fell back to zero.
pub proof fn lemma_record_numbers_wf(s: Seq<char>, p: ItemParts)
    requires
        item_wf(s, p),
    ensures
        decimal_wf(product_of(s, p).rating),
        decimal_wf(product_of(s, p).price),
        forall|k: int|
            0 <= k < product_of(s, p).user_ratings.len() ==> decimal_wf(
                #[trigger] product_of(s, p).user_ratings[k],
            ),
{
    lemma_decimal_of_token_wf(trimmed(s, p.rating_num.0, p.rating_num.1));
    lemma_decimal_of_token_wf(trimmed(s, p.price_num.0, p.price_num.1));
    lemma_ratings_of_wf(s, p.ratings_inner.0, p.ratings_inner.1);
}

/// Once the grammar has matched, the rating and price of every record are
/// read from the matched number text, never defaulted: the payload the
/// `number` rule matched always reads as a decimal, so the zero fallback
/// of those two fields cannot fire on a parsed document.
pub proof fn lemma_matched_numbers_are_read(s: Seq<char>)
    requires
        document_parts(s) is Some,
    ensures
        forall|k: int|
            0 <= k < document_parts(s).unwrap().len() ==> decimal_of_token(
                trimmed(
                    s,
                    (#[trigger] document_parts(s).unwrap()[k]).rating_num.0,
                    document_parts(s).unwrap()[k].rating_num.1,
                ),
            ) == Some(product_of(s, document_parts(s).unwrap()[k]).rating),
        forall|k: int|
            0 <= k < document_parts(s).unwrap().len() ==> decimal_of_token(
                trimmed(
                    s,
                    (#[trigger] document_parts(s).unwrap()[k]).price_num.0,
                    document_parts(s).unwrap()[k].price_num.1,
                ),
            ) == Some(product_of(s, document_parts(s).unwrap()[k]).price),
{
    lemma_items_from_props(s, 0);
    let ps = document_parts(s).unwrap();
    assert forall|k: int| 0 <= k < ps.len() implies decimal_of_token(
        trimmed(s, (#[trigger] ps[k]).rating_num.0, ps[k].rating_num.1),
    ) == Some(product_of(s, ps[k]).rating) && decimal_of_token(
        trimmed(s, ps[k].price_num.0, ps[k].price_num.1),
    ) == Some(product_of(s, ps[k]).price) by {
        let p = ps[k];
        lemma_item_parts_props(s, p.start);
        lemma_number_span_reads(s, p.rating_num.0, p.rating_num.1);
        lemma_number_span_reads(s, p.price_num.0, p.price_num.1);
    }
}

/// On a parsed document no user rating is dropped and none is invented:
/// every comma of a matched ratings list is a separator and every piece
/// reads as a decimal, so each record holds exactly one rating per
/// comma-separated piece of its bracketed list.
pub proof fn lemma_matched_ratings_all_read(s: Seq<char>)
    requires
        document_parts(s) is Some,
    ensures
        forall|k: int|
            0 <= k < document_parts(s).unwrap().len() ==> product_of(
                s,
                #[trigger] document_parts(s).unwrap()[k],
            ).user_ratings.len() == 1 + comma_count(
                s,
                document_parts(s).unwrap()[k].ratings_inner.0,
                document_parts(s).unwrap()[k].ratings_inner.1,
            ),
{
    lemma_items_from_props(s, 0);
    let ps = document_parts(s).unwrap();
    assert forall|k: int| 0 <= k < ps.len() implies product_of(
        s,
        #[trigger] ps[k],
    ).user_ratings.len() == 1 + comma_count(s, ps[k].ratings_inner.0, ps[k].ratings_inner.1) by {
        let p = ps[k];
        lemma_item_parts_props(s, p.start);
        assert(ratings_inner_matched(s, p.ratings_inner.0, p.ratings_inner.1));
        let n0 = ws_run_end(s, p.ratings_inner.0);
        let n1 = number_end(s, n0).unwrap();
        lemma_list_pieces(s, p.ratings_inner.0, n0, n1, p.ratings_inner.1 + 1);
    }
}

/// An empty input is no document: the document rule asks for at least one
/// item, so parsing the empty string fails.
pub proof fn lemma_empty_input_fails(s: Seq<char>)
    requires
        s.len() == 0,
    ensures
        document_products(s) is None,
{
    assert(ws_run_end(s, 0) == 0);
    assert(items_from(s, 0) == Some(Seq::<crate::item::ItemParts>::empty()));
}

} // verus!
