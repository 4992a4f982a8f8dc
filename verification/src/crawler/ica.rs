//! The ICA crawler.
use vstd::prelude::*;

use super::{parse_unit_price, unit_price, CrawlResult};
use crate::json::{member_of, Json};

verus! {

/// Crawls ICA stores, one article per request.
#[derive(Debug, Hash, PartialEq, Eq, Clone, Copy)]
pub struct ICACrawler;

/// The address at which ICA answers for an article of a store.
pub open spec fn ica_product_url(store_id: Seq<char>, product_id: Seq<char>) -> Seq<char> {
    "https://handlaprivatkund.ica.se/stores/"@ + store_id + "/api/v4/products/bop?retailerProductId="@
        + product_id
}

/// The result that an ICA answer gives for task `id`: the unit price
/// under `price.unit.current.amount` of the first product listed under
/// `entities.product`. `None` where that list is not a non-empty object,
/// or the amount is no text, or no price can be read from it.
pub open spec fn ica_result(id: u64, body: Json) -> Option<CrawlResult> {
    match body.member("entities"@).member("product"@).first_member_value() {
        None => None,
        Some(product) => match product.member("price"@).member("unit"@).member(
            "current"@,
        ).member("amount"@).text() {
            None => None,
            Some(amount) => match unit_price(amount) {
                None => None,
                Some(price) => Some(CrawlResult { id, price, member_price: None }),
            },
        },
    }
}

/// The unit amount of an ICA product: `price.unit.current.amount`.
pub open spec fn unit_amount(product: Json) -> Json {
    product.member("price"@).member("unit"@).member("current"@).member("amount"@)
}

/// The price in ICA's answer is always the one that the first product's
/// unit amount states, the result is for the task asked, and ICA gives no
/// member price.
pub proof fn lemma_ica_price_is_unit_amount(id: u64, body: Json)
    ensures
        ica_result(id, body) matches Some(r) ==> {
            &&& r.id == id
            &&& r.member_price is None
            &&& body.member("entities"@).member("product"@).first_member_value() matches Some(
                product,
            )
            &&& unit_amount(product).text() matches Some(t)
            &&& unit_price(t) == Some(r.price)
        },
        (body.member("entities"@).member("product"@).first_member_value() matches Some(product)
            && unit_amount(product).text() matches Some(t) && unit_price(t) is Some)
            ==> ica_result(id, body) is Some,
{
}

/// Of ICA's answer only the first product's unit amount matters: answers
/// whose first products agree on it give the same result, whatever else
/// they hold (such as the package price under `price.current`).
pub proof fn lemma_ica_reads_unit_amount_only(id: u64, a: Json, b: Json)
    requires
        a.member("entities"@).member("product"@).first_member_value() matches Some(pa),
        b.member("entities"@).member("product"@).first_member_value() matches Some(pb),
        unit_amount(a.member("entities"@).member("product"@).first_member_value()->Some_0)
            == unit_amount(b.member("entities"@).member("product"@).first_member_value()->Some_0),
    ensures
        ica_result(id, a) == ica_result(id, b),
{
}

impl ICACrawler {
    /// ICA is asked once a second.
    pub fn crawl_delay() -> (r: u64)
        ensures
            r == 1,
    {
        1
    }

    /// The address to ask for article `product_id` of store `store_id`.
    pub fn product_url(store_id: &str, product_id: &str) -> (r: String)
        ensures
            r@ == ica_product_url(store_id@, product_id@),
    {
        let mut url = String::new();
        url.append("https://handlaprivatkund.ica.se/stores/");
        url.append(store_id);
        url.append("/api/v4/products/bop?retailerProductId=");
        url.append(product_id);
        url
    }

    /// Reads ICA's answer for task `id`.
    pub fn result_from_response(id: u64, body: &Json) -> (r: Option<CrawlResult>)
        ensures
            r == ica_result(id, *body),
    {
        let products = member_of(member_of(Some(body), "entities"), "product");
        let product = match products {
            Some(p) => match p.first_member_value_ref() {
                Some(v) => v,
                None => {
                    return None;
                },
            },
            None => {
                return None;
            },
        };
        let amount = member_of(
            member_of(member_of(member_of(Some(product), "price"), "unit"), "current"),
            "amount",
        );
        let text = match amount {
            Some(a) => match a.as_str() {
                Some(t) => t,
                None => {
                    return None;
                },
            },
            None => {
                return None;
            },
        };
        match parse_unit_price(text) {
            Some(price) => Some(CrawlResult { id, price, member_price: None }),
            None => None,
        }
    }
}

} // verus!
