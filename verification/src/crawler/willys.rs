//! The Willys crawler.
use vstd::prelude::*;

use super::{parse_unit_price, unit_price, CrawlResult, Decimal};
use crate::json::{member_of, Json};

verus! {

/// Crawls Willys, one article per request.
#[derive(Debug, Hash, PartialEq, Eq, Clone, Copy)]
pub struct WillysCrawler;

/// The address at which Willys answers for an article.
pub open spec fn willys_product_url(product_id: Seq<char>) -> Seq<char> {
    "https://www.willys.se/axfood/rest/p/"@ + product_id
}

/// The promotion price where a promotion object's `comparePrice` is a
/// text that states one.
pub open spec fn promotion_price(compare_price: Json) -> Option<Decimal> {
    match compare_price.text() {
        Some(t) => unit_price(t),
        None => None,
    }
}

/// The result that a Willys answer gives for task `id`: the unit price
/// that `comparePrice` states, and as member price the one that the first
/// entry of `potentialPromotions` states, where that entry is an object.
/// `None` where `comparePrice` is no text or states no price, or where that
/// first entry is an object without a `comparePrice` member.
pub open spec fn willys_result(id: u64, body: Json) -> Option<CrawlResult> {
    match body.member("comparePrice"@).text() {
        None => None,
        Some(t) => match unit_price(t) {
            None => None,
            Some(price) => match body.member("potentialPromotions"@).first_element() {
                Some(promotion) => if promotion is Object {
                    match promotion.object_member("comparePrice"@) {
                        None => None,
                        Some(p) => Some(
                            CrawlResult { id, price, member_price: promotion_price(p) },
                        ),
                    }
                } else {
                    Some(CrawlResult { id, price, member_price: None })
                },
                None => Some(CrawlResult { id, price, member_price: None }),
            },
        },
    }
}

/// The price in Willys' answer is always the one its `comparePrice` member
/// states, and the result is for the task asked; with no promotion listed
/// there is no member price, and where the first promotion states its own
/// `comparePrice` text, the member price is what that text states.
pub proof fn lemma_willys_price_is_compare_price(id: u64, body: Json)
    ensures
        match willys_result(id, body) {
            Some(r) => {
                &&& r.id == id
                &&& (body.member("comparePrice"@).text() matches Some(t) && unit_price(t) == Some(
                    r.price,
                ))
                &&& body.member("potentialPromotions"@).first_element() is None
                    ==> r.member_price is None
                &&& match body.member("potentialPromotions"@).first_element() {
                    Some(p) => match p.object_member("comparePrice"@) {
                        Some(v) => match v.text() {
                            Some(t) => r.member_price == unit_price(t),
                            None => r.member_price is None,
                        },
                        None => true,
                    },
                    None => true,
                }
            },
            None => true,
        },
{
}

/// Willys' answer is read only where the comparison price reads as a price;
/// where it does and no promotion is listed, it is always read.
pub proof fn lemma_willys_reads_when_priced(id: u64, body: Json)
    ensures
        willys_result(id, body) is Some ==> (body.member("comparePrice"@).text() matches Some(t)
            && unit_price(t) is Some),
        (body.member("comparePrice"@).text() matches Some(t) && unit_price(t) is Some
            && body.member("potentialPromotions"@).first_element() is None) ==> willys_result(
            id,
            body,
        ) is Some,
{
}

/// Only the members `comparePrice` and `potentialPromotions` of Willys'
/// answer matter: answers that agree on them give the same result.
pub proof fn lemma_willys_reads_two_members(id: u64, a: Json, b: Json)
    requires
        a.member("comparePrice"@) == b.member("comparePrice"@),
        a.member("potentialPromotions"@) == b.member("potentialPromotions"@),
    ensures
        willys_result(id, a) == willys_result(id, b),
{
}

impl WillysCrawler {
    /// Willys is asked every ten seconds.
    pub fn crawl_delay() -> (r: u64)
        ensures
            r == 10,
    {
        10
    }

    /// The address to ask for article `product_id`.
    pub fn product_url(product_id: &str) -> (r: String)
        ensures
            r@ == willys_product_url(product_id@),
    {
        let mut url = String::new();
        url.append("https://www.willys.se/axfood/rest/p/");
        url.append(product_id);
        url
    }

    /// Reads Willys' answer for task `id`.
    pub fn result_from_response(id: u64, body: &Json) -> (r: Option<CrawlResult>)
        ensures
            r == willys_result(id, *body),
    {
        let compare = member_of(Some(body), "comparePrice");
        let text = match compare {
            Some(c) => match c.as_str() {
                Some(t) => t,
                None => {
                    return None;
                },
            },
            None => {
                return None;
            },
        };
        let price = match parse_unit_price(text) {
            Some(p) => p,
            None => {
                return None;
            },
        };
        let promotions = member_of(Some(body), "potentialPromotions");
        let first = match promotions {
            Some(p) => p.first_element_ref(),
            None => None,
        };
        match first {
            Some(promotion) => if promotion.is_object() {
                match promotion.get("comparePrice") {
                    None => None,
                    Some(p) => {
                        let member_price = match p.as_str() {
                            Some(t) => parse_unit_price(t),
                            None => None,
                        };
                        Some(CrawlResult { id, price, member_price })
                    },
                }
            } else {
                Some(CrawlResult { id, price, member_price: None })
            },
            None => Some(CrawlResult { id, price, member_price: None }),
        }
    }
}

} // verus!
