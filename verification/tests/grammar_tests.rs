use cosmetics_parser::Grammar;
use cosmetics_parser::Rule;
use cosmetics_parser::Pair;
use cosmetics_parser::Product;
use cosmetics_parser::Decimal;
use cosmetics_parser::parse_document;
use cosmetics_parser::item::ItemNode;

fn chars(s: &str) -> Vec<char> {
    s.chars().collect()
}

fn matched(input: &[char], pair: &Pair) -> String {
    input[pair.start..pair.end].iter().collect()
}

fn string_of(v: &[char]) -> String {
    v.iter().collect()
}

fn decimal(negative: bool, int_digits: &str, frac_digits: &str) -> Decimal {
    Decimal {
        negative,
        int_digits: chars(int_digits),
        frac_digits: chars(frac_digits),
    }
}

#[test]
fn test_whitespace() {
    let input = chars(" ");
    let pair = Grammar::parse(Rule::WHITESPACE, &input).expect("no pair");

    assert_eq!(matched(&input, &pair), " ");
    assert_eq!(pair.start, 0);
    assert_eq!(pair.end, 1);

    let pair = Grammar::parse(Rule::WHITESPACE, &chars(""));
    assert!(pair.is_err(), "Expected error but got {:?}", pair);
}

#[test]
fn test_space() {
    let input = chars("  ");
    let pair = Grammar::parse(Rule::SPACE, &input).expect("no pair");

    assert_eq!(matched(&input, &pair), "  ");
    assert_eq!(pair.start, 0);
    assert_eq!(pair.end, 2);

    let pair = Grammar::parse(Rule::SPACE, &chars(""));
    assert!(pair.is_err(), "Expected error but got {:?}", pair);
}

#[test]
fn test_product() {
    let input = chars(
        "*Product 1*: Face Cream \"Moisturizing\"
     *Skin Type*: Dry Skin
     *Ingredients*: Water, Glycerin, Hyaluronic Acid, Jojoba Oil
     *Rating*: 4.5
     *Price*: 299.99 UAH
     *User Ratings*: [5, 4, 5, 3, 4]
     *Recommendations*: Use in the morning and evening after cleansing the skin. Suitable for sensitive skin.
     *Reviews*:
     1.\t\"This cream perfectly moisturizes my skin. It absorbs easily!\"
     2.\t\"No excessive shine, perfect for autumn.\"
     *Availability*: true\n",
    );

    let pair = Grammar::parse(Rule::product, &input).expect("no pair");

    assert_eq!(matched(&input, &pair), string_of(&input));
    assert_eq!(pair.start, 0);
    assert_eq!(pair.end, 485);

    let pair = Grammar::parse(
        Rule::product,
        &chars(
            "*Product 1*: Face Cream \"Moisturizing\"
     *Skin Type*: Dry Skin
     *Ingredients*: Water, Glycerin, Hyaluronic Acid, Jojoba Oil
     *Price*: 299.99 UAH
     *User Ratings*: [5, 4, 5, 3, 4]
     *Recommendations*: Use in the morning and evening after cleansing the skin. Suitable for sensitive skin.
     *Reviews*:
     1.\t\"This cream perfectly moisturizes my skin. It absorbs easily!\"
     2.\t\"No excessive shine, perfect for autumn.\"
     *Availability*: true\n",
        ),
    );
    assert!(pair.is_err(), "Expected error but got {:?}", pair);

    let pair = Grammar::parse(Rule::product, &chars(""));
    assert!(pair.is_err(), "Expected error but got {:?}", pair);
}

#[test]
fn test_rating() {
    let input = chars("*Rating*: 4.5\n");
    let pair = Grammar::parse(Rule::rating, &input).expect("no pair");

    assert_eq!(matched(&input, &pair), "*Rating*: 4.5\n");
    assert_eq!(pair.start, 0);
    assert_eq!(pair.end, 14);

    let pair = Grammar::parse(Rule::rating, &chars("*Rating*:\n"));
    assert!(pair.is_err(), "Expected error but got {:?}", pair);

    let pair = Grammar::parse(Rule::rating, &chars(""));
    assert!(pair.is_err(), "Expected error but got {:?}", pair);
}

#[test]
fn test_availability() {
    let input = chars("*Availability*: true\n");
    let pair = Grammar::parse(Rule::availability, &input).expect("no pair");

    assert_eq!(matched(&input, &pair), "*Availability*: true\n");
    assert_eq!(pair.start, 0);
    assert_eq!(pair.end, 21);

    let pair = Grammar::parse(Rule::availability, &chars("*Availability*: нема\n"));
    assert!(pair.is_err(), "Expected error but got {:?}", pair);

    let pair = Grammar::parse(Rule::availability, &chars(""));
    assert!(pair.is_err(), "Expected error but got {:?}", pair);
}

#[test]
fn test_price() {
    let input = chars("*Price*: 299.99 UAH\n");
    let pair = Grammar::parse(Rule::price, &input).expect("no pair");

    assert_eq!(matched(&input, &pair), "*Price*: 299.99 UAH\n");
    assert_eq!(pair.start, 0);
    assert_eq!(pair.end, 20);

    let pair = Grammar::parse(Rule::price, &chars("299.99 UAH\n"));
    assert!(pair.is_err(), "Expected error but got {:?}", pair);

    let pair = Grammar::parse(Rule::price, &chars(""));
    assert!(pair.is_err(), "Expected error but got {:?}", pair);
}

#[test]
fn test_user_ratings() {
    let input = chars("*User Ratings*: [5, 4, 5, 3, 4]\n");
    let pair = Grammar::parse(Rule::user_ratings, &input).expect("no pair");

    assert_eq!(matched(&input, &pair), "*User Ratings*: [5, 4, 5, 3, 4]\n");
    assert_eq!(pair.start, 0);
    assert_eq!(pair.end, 32);

    let pair = Grammar::parse(Rule::user_ratings, &chars("*User Ratings*: 5, 4, 5"));
    assert!(pair.is_err(), "Expected error but got {:?}", pair);

    let pair = Grammar::parse(Rule::user_ratings, &chars(""));
    assert!(pair.is_err(), "Expected error but got {:?}", pair);
}

#[test]
fn test_product_name() {
    let input = chars("*Product 1*: Face Cream \"Moisturizing\"\n");
    let pair = Grammar::parse(Rule::product_name, &input).expect("no pair");

    assert_eq!(matched(&input, &pair), "*Product 1*: Face Cream \"Moisturizing\"\n");
    assert_eq!(pair.start, 0);
    assert_eq!(pair.end, 39);

    let pair = Grammar::parse(
        Rule::product_name,
        &chars("Product 1: Face Cream \"Moisturizing\"\n"),
    );
    assert!(pair.is_err(), "Expected error but got {:?}", pair);

    let pair = Grammar::parse(Rule::product_name, &chars(""));
    assert!(pair.is_err(), "Expected error but got {:?}", pair);
}

#[test]
fn test_recommendations() {
    let input = chars(
        "*Recommendations*: Use in the morning and evening after cleansing the skin. Suitable for sensitive skin.\n",
    );
    let pair = Grammar::parse(Rule::recommendations, &input).expect("no pair");

    assert_eq!(
        matched(&input, &pair),
        "*Recommendations*: Use in the morning and evening after cleansing the skin. Suitable for sensitive skin.\n"
    );
    assert_eq!(pair.start, 0);
    assert_eq!(pair.end, 105);

    let pair = Grammar::parse(Rule::recommendations, &chars("*Recommendations*:\n"));
    assert!(pair.is_err(), "Expected error but got {:?}", pair);

    let pair = Grammar::parse(Rule::recommendations, &chars(""));
    assert!(pair.is_err(), "Expected error but got {:?}", pair);
}

#[test]
fn test_ingredients() {
    let input = chars("*Ingredients*: Water, Glycerin, Hyaluronic Acid, Jojoba Oil\n");
    let pair = Grammar::parse(Rule::ingredients, &input).expect("no pair");

    assert_eq!(
        matched(&input, &pair),
        "*Ingredients*: Water, Glycerin, Hyaluronic Acid, Jojoba Oil\n"
    );
    assert_eq!(pair.start, 0);
    assert_eq!(pair.end, 60);

    let pair = Grammar::parse(
        Rule::ingredients,
        &chars("Water, Glycerin, Hyaluronic Acid, Jojoba Oil\n"),
    );
    assert!(pair.is_err(), "Expected error but got {:?}", pair);

    let pair = Grammar::parse(Rule::ingredients, &chars(""));
    assert!(pair.is_err(), "Expected error but got {:?}", pair);
}

#[test]
fn test_reviews() {
    let input = chars(
        "*Reviews*:\n 1.\t\"This cream perfectly moisturizes my skin. It absorbs easily!\" 2.\t\"No excessive shine, perfect for autumn.\"\n",
    );
    let pair = Grammar::parse(Rule::reviews, &input).expect("no pair");

    assert_eq!(
        matched(&input, &pair),
        "*Reviews*:\n 1.\t\"This cream perfectly moisturizes my skin. It absorbs easily!\" 2.\t\"No excessive shine, perfect for autumn.\"\n"
    );
    assert_eq!(pair.start, 0);
    assert_eq!(pair.end, 123);

    let pair = Grammar::parse(
        Rule::reviews,
        &chars("*Review*:\n 1.\t\"This cream perfectly moisturizes my skin. It absorbs easily!\"\n"),
    );
    assert!(pair.is_err(), "Expected error but got {:?}", pair);

    let pair = Grammar::parse(Rule::reviews, &chars(""));
    assert!(pair.is_err(), "Expected error but got {:?}", pair);
}

#[test]
fn test_skin_type() {
    let input = chars("*Skin Type*: Dry Skin\n");
    let pair = Grammar::parse(Rule::skin_type, &input).expect("no pair");

    assert_eq!(matched(&input, &pair), "*Skin Type*: Dry Skin\n");
    assert_eq!(pair.start, 0);
    assert_eq!(pair.end, 22);

    let pair = Grammar::parse(Rule::skin_type, &chars("*Skin Type*:\n"));
    assert!(pair.is_err(), "Expected error but got {:?}", pair);

    let pair = Grammar::parse(Rule::skin_type, &chars(""));
    assert!(pair.is_err(), "Expected error but got {:?}", pair);
}

#[test]
fn test_number() {
    let input = chars("299.99");
    let pair = Grammar::parse(Rule::number, &input).expect("no pair");

    assert_eq!(matched(&input, &pair), "299.99");
    assert_eq!(pair.start, 0);
    assert_eq!(pair.end, 6);

    let input = chars("299");
    let pair = Grammar::parse(Rule::number, &input).expect("no pair");

    assert_eq!(matched(&input, &pair), "299");
    assert_eq!(pair.start, 0);
    assert_eq!(pair.end, 3);

    let input = chars("-273.15");
    let pair = Grammar::parse(Rule::number, &input).expect("no pair");

    assert_eq!(matched(&input, &pair), "-273.15");
    assert_eq!(pair.start, 0);
    assert_eq!(pair.end, 7);

    let input = chars("-273");
    let pair = Grammar::parse(Rule::number, &input).expect("no pair");

    assert_eq!(matched(&input, &pair), "-273");
    assert_eq!(pair.start, 0);
    assert_eq!(pair.end, 4);

    let pair = Grammar::parse(Rule::number, &chars(""));
    assert!(pair.is_err(), "Expected error but got {:?}", pair);
}

#[test]
fn test_number_list() {
    let input = chars("[5, 4, 5, 3, 4]");
    let pair = Grammar::parse(Rule::number_list, &input).expect("no pair");

    assert_eq!(matched(&input, &pair), "[5, 4, 5, 3, 4]");
    assert_eq!(pair.start, 0);
    assert_eq!(pair.end, 15);

    let pair = Grammar::parse(Rule::number_list, &chars("5 4 5 3 4"));
    assert!(pair.is_err(), "Expected error but got {:?}", pair);

    let pair = Grammar::parse(Rule::number_list, &chars(""));
    assert!(pair.is_err(), "Expected error but got {:?}", pair);
}

#[test]
fn test_single_review() {
    let input = chars("1.\"This cream perfectly moisturizes my skin. It absorbs easily!\"\n");
    let pair = Grammar::parse(Rule::review, &input).expect("no pair");

    assert_eq!(
        matched(&input, &pair),
        "1.\"This cream perfectly moisturizes my skin. It absorbs easily!\"\n"
    );
    assert_eq!(pair.start, 0);
    assert_eq!(pair.end, 65);

    let pair = Grammar::parse(
        Rule::review,
        &chars("\"This cream perfectly moisturizes my skin. It absorbs easily!\"\n"),
    );
    assert!(pair.is_err(), "Expected error but got {:?}", pair);

    let pair = Grammar::parse(Rule::review, &chars(""));
    assert!(pair.is_err(), "Expected error but got {:?}", pair);
}

#[test]
fn test_currency() {
    let input = chars("UAH");
    let pair = Grammar::parse(Rule::currency, &input).expect("no pair");

    assert_eq!(matched(&input, &pair), "UAH");
    assert_eq!(pair.start, 0);
    assert_eq!(pair.end, 3);

    let input = chars("EUR");
    let pair = Grammar::parse(Rule::currency, &input).expect("no pair");

    assert_eq!(matched(&input, &pair), "EUR");
    assert_eq!(pair.start, 0);
    assert_eq!(pair.end, 3);

    let input = chars("USD");
    let pair = Grammar::parse(Rule::currency, &input).expect("no pair");

    assert_eq!(matched(&input, &pair), "USD");
    assert_eq!(pair.start, 0);
    assert_eq!(pair.end, 3);

    let pair = Grammar::parse(Rule::currency, &chars("IDR"));
    assert!(pair.is_err(), "Expected error but got {:?}", pair);

    let pair = Grammar::parse(Rule::currency, &chars(""));
    assert!(pair.is_err(), "Expected error but got {:?}", pair);
}

#[test]
fn test_any_text() {
    let input = chars("gbehfhr behjf 45 bhcjbhcb jhjfhjrb\n");
    let pair = Grammar::parse(Rule::any_text, &input).expect("no pair");

    assert_eq!(matched(&input, &pair), "gbehfhr behjf 45 bhcjbhcb jhjfhjrb\n");
    assert_eq!(pair.start, 0);
    assert_eq!(pair.end, 35);

    let pair = Grammar::parse(Rule::any_text, &chars("gbehfhr behjf 45 bhcjbhcb jhjfhjrb"));
    assert!(pair.is_err(), "Expected error but got {:?}", pair);

    let pair = Grammar::parse(Rule::any_text, &chars(""));
    assert!(pair.is_err(), "Expected error but got {:?}", pair);
}

#[test]
fn test_bool() {
    let input = chars("true");
    let pair = Grammar::parse(Rule::boolean, &input).expect("no pair");

    assert_eq!(matched(&input, &pair), "true");
    assert_eq!(pair.start, 0);
    assert_eq!(pair.end, 4);

    let pair = Grammar::parse(Rule::boolean, &chars("gbehfhr"));
    assert!(pair.is_err(), "Expected error but got {:?}", pair);

    let pair = Grammar::parse(Rule::boolean, &chars(""));
    assert!(pair.is_err(), "Expected error but got {:?}", pair);
}

const ONE_PRODUCT: &str = "*Product 1*: Face Cream \"Moisturizing\"\n *Skin Type*: Dry Skin\n *Ingredients*: Water, Glycerin\n *Rating*: 4.5\n *Price*: 299.99 UAH\n *User Ratings*: [5, 4, 5, 3, 4]\n *Recommendations*: Use daily.\n *Reviews*:\n 1. \"Great product\"\n *Availability*: true\n";

#[test]
fn test_parse_document_one_product() {
    let input = chars(ONE_PRODUCT);
    let doc = parse_document(&input).expect("document should parse");

    assert_eq!(doc.len(), 1);
    let rec = &doc[0];
    assert_eq!(string_of(&rec.product_name), "Face Cream \"Moisturizing\"");
    assert_eq!(string_of(&rec.skin_type), "Dry Skin");
    assert_eq!(string_of(&rec.ingredients), "Water, Glycerin");
    assert_eq!(rec.rating, decimal(false, "4", "5"));
    assert_eq!(rec.price, decimal(false, "299", "99"));
    assert_eq!(
        rec.user_ratings,
        vec![
            decimal(false, "5", ""),
            decimal(false, "4", ""),
            decimal(false, "5", ""),
            decimal(false, "3", ""),
            decimal(false, "4", ""),
        ]
    );
    assert_eq!(string_of(&rec.recommendations), "Use daily.");
    assert_eq!(rec.reviews.len(), 1);
    assert_eq!(string_of(&rec.reviews[0]), "Great product");
    assert!(rec.availability);
}

#[test]
fn test_parse_document_is_deterministic() {
    let input = chars(ONE_PRODUCT);
    let first = parse_document(&input).expect("document should parse");
    let second = parse_document(&input).expect("document should parse");
    assert_eq!(first, second);
}

#[test]
fn test_parse_document_preserves_order() {
    let two = format!(
        "{}\n{}",
        ONE_PRODUCT,
        ONE_PRODUCT.replace("Product 1", "Product 2").replace("Face Cream", "Night Cream")
    );
    let input = chars(&two);
    let doc = parse_document(&input).expect("document should parse");

    assert_eq!(doc.len(), 2);
    assert_eq!(string_of(&doc[0].product_name), "Face Cream \"Moisturizing\"");
    assert_eq!(string_of(&doc[1].product_name), "Night Cream \"Moisturizing\"");
}

#[test]
fn test_document_missing_rating_fails() {
    let broken = ONE_PRODUCT.replace(" *Rating*: 4.5\n", "");
    let result = parse_document(&chars(&broken));
    assert!(result.is_err(), "Expected error but got {:?}", result);
    assert_eq!(result.unwrap_err().pos, 0);
}

#[test]
fn test_document_unbracketed_ratings_fails() {
    let broken = ONE_PRODUCT.replace("[5, 4, 5, 3, 4]", "5, 4, 5");
    let result = parse_document(&chars(&broken));
    assert!(result.is_err(), "Expected error but got {:?}", result);
}

#[test]
fn test_document_invalid_currency_fails() {
    let broken = ONE_PRODUCT.replace("299.99 UAH", "299.99 IDR");
    let result = parse_document(&chars(&broken));
    assert!(result.is_err(), "Expected error but got {:?}", result);
}

#[test]
fn test_document_trailing_text_fails() {
    let broken = format!("{}stray", ONE_PRODUCT);
    let result = parse_document(&chars(&broken));
    assert!(result.is_err(), "Expected error but got {:?}", result);
    assert_eq!(result.unwrap_err().pos, ONE_PRODUCT.chars().count());
}

#[test]
fn test_empty_document_fails() {
    let result = parse_document(&chars(""));
    assert!(result.is_err(), "Expected error but got {:?}", result);
    assert_eq!(result.unwrap_err().pos, 0);

    let pair = Grammar::parse(Rule::products, &chars(""));
    assert!(pair.is_err(), "Expected error but got {:?}", pair);
}

#[test]
fn test_products_rule_consumes_whole_input() {
    let two = format!("{}\n{}", ONE_PRODUCT, ONE_PRODUCT.replace("Product 1", "Product 2"));
    let input = chars(&two);
    let pair = Grammar::parse(Rule::products, &input).expect("no pair");
    assert_eq!(pair.start, 0);
    assert_eq!(pair.end, input.len());
}

#[test]
fn test_from_pair_drops_non_numeric_ratings() {
    let input = chars("5, abc, 4.5");
    let node = ItemNode {
        start: 0,
        end: 0,
        name: (0, 0),
        skin: (0, 0),
        ingredients: (0, 0),
        rating_num: (0, 0),
        price_num: (0, 0),
        ratings_inner: (0, input.len()),
        recommendations: (0, 0),
        reviews: Vec::new(),
        avail_true: false,
    };
    let rec = Product::from_pair(&input, &node);

    assert_eq!(rec.user_ratings, vec![decimal(false, "5", ""), decimal(false, "4", "5")]);
    assert_eq!(rec.rating, decimal(false, "0", ""));
    assert_eq!(rec.price, decimal(false, "0", ""));
    assert_eq!(string_of(&rec.product_name), "");
    assert!(!rec.availability);
    assert!(rec.reviews.is_empty());
}

#[test]
fn test_negative_numbers_in_ratings_list() {
    let altered = ONE_PRODUCT.replace("[5, 4, 5, 3, 4]", "[-1.5, 2]");
    let doc = parse_document(&chars(&altered)).expect("document should parse");
    assert_eq!(doc[0].user_ratings, vec![decimal(true, "1", "5"), decimal(false, "2", "")]);
}

#[test]
fn test_reviews_keep_source_order() {
    let altered = ONE_PRODUCT.replace(
        " *Reviews*:\n 1. \"Great product\"\n",
        " *Reviews*:\n 1. \"First opinion\"\n 2. \"Second opinion\"\n 3. \"Third opinion\"\n",
    );
    let doc = parse_document(&chars(&altered)).expect("document should parse");
    let reviews: Vec<String> = doc[0].reviews.iter().map(|r| string_of(r)).collect();
    assert_eq!(reviews, vec!["First opinion", "Second opinion", "Third opinion"]);
}

#[test]
fn test_flush_left_product_parses() {
    let flush = ONE_PRODUCT.replace("\n ", "\n");
    let doc = parse_document(&chars(&flush)).expect("document should parse");
    assert_eq!(doc.len(), 1);
    assert_eq!(string_of(&doc[0].product_name), "Face Cream \"Moisturizing\"");
}

#[test]
fn test_blank_lines_between_products() {
    let two = format!("{}\n\n\n{}", ONE_PRODUCT, ONE_PRODUCT.replace("Product 1", "Product 2"));
    let doc = parse_document(&chars(&two)).expect("document should parse");
    assert_eq!(doc.len(), 2);
}

#[test]
fn test_seven_products() {
    let mut text = String::new();
    for k in 1..=7 {
        text.push_str(&ONE_PRODUCT.replace("Product 1", &format!("Product {}", k)));
        text.push('\n');
    }
    let input = chars(&text);
    let doc = parse_document(&input).expect("document should parse");
    assert_eq!(doc.len(), 7);

    let pair = Grammar::parse(Rule::products, &input).expect("no pair");
    assert_eq!(pair.end, input.len());
}

#[test]
fn test_availability_false_is_kept() {
    let altered = ONE_PRODUCT.replace("*Availability*: true", "*Availability*: false");
    let doc = parse_document(&chars(&altered)).expect("document should parse");
    assert!(!doc[0].availability);
}
