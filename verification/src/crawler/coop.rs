//! The Coop crawler.
use vstd::prelude::*;

use super::{default_crawl_delay, CrawlResult, CrawlTask, Decimal};
use crate::json::{member_of, Json};

verus! {

/// Crawls Coop stores, all articles of a store in one request.
#[derive(Debug, Hash, PartialEq, Eq, Clone, Copy)]
pub struct CoopCrawler;

/// The address at which Coop answers for articles of store `store_id`.
pub open spec fn coop_url(store_id: Seq<char>) -> Seq<char> {
    "https://external.api.coop.se/personalization/search/entities/by-id?api-version=v1&store="@
        + store_id + "&groups=CUSTOMER_PRIVATE&direct=false"@
}

/// What `serde_json::to_string` writes for a list of strings: a JSON
/// array of JSON strings, in the escaping that serde_json chooses.
pub uninterp spec fn json_string_list(items: Seq<Seq<char>>) -> Seq<char>;

/// The texts of a list of strings.
pub open spec fn texts(items: Seq<String>) -> Seq<Seq<char>> {
    items.map_values(|s: String| s@)
}

/// `serde_json::Error`, carried through and never read.
#[verifier::external_type_specification]
#[verifier::external_body]
pub struct ExJsonError(serde_json::Error);

/// `serde_json::to_string` on a list of strings. Claimed: it succeeds, and
/// what the `Ok` holds is `json_string_list` of the strings' texts.
/// serde_json documents that serialization fails only where the value's
/// `Serialize` impl decides to fail or the value holds a map with non-string
/// keys; a list of strings does neither (its `Serialize` only hands each
/// string to the serializer, which writes into a `Vec<u8>`).
#[verifier::external_body]
fn encode_string_list(items: &Vec<String>) -> (r: Result<String, serde_json::Error>)
    ensures
        r is Ok,
        r matches Ok(s) ==> s@ == json_string_list(texts(items@)),
{
    serde_json::to_string(items)
}

/// The articles in a Coop answer: the array under `results.items`, where
/// there is one.
pub open spec fn coop_items(body: Json) -> Option<Seq<Json>> {
    match body.member("results"@).member("items"@) {
        Json::Array(items) => Some(items@),
        _ => None,
    }
}

/// The first article in a Coop answer, where it is an object.
pub open spec fn coop_first_item(body: Json) -> Option<Json> {
    match body.member("results"@).member("items"@).first_element() {
        Some(item) => if item is Object {
            Some(item)
        } else {
            None
        },
        None => None,
    }
}

/// The prices that Coop states for one article.
#[derive(Debug, Clone, Copy)]
pub struct ProductPrice {
    pub price: Decimal,
    pub member_price: Option<Decimal>,
}

/// One request for all the articles of a store.
pub struct CoopBatch {
    /// Where to send the request.
    pub url: String,
    /// The articles to ask for, in the order of the tasks.
    pub fetch_ids: Vec<String>,
    /// The tasks' ids, in the same order.
    pub ids: Vec<u64>,
}

impl CoopCrawler {
    /// Coop keeps the default delay: a random whole number of seconds from
    /// 1 to 4.
    pub fn crawl_delay() -> (r: u64)
        ensures
            1 <= r < 5,
    {
        default_crawl_delay()
    }

    /// The address to ask for articles of store `store_id`.
    pub fn request_url(store_id: &str) -> (r: String)
        ensures
            r@ == coop_url(store_id@),
    {
        let mut url = String::new();
        url.append(
            "https://external.api.coop.se/personalization/search/entities/by-id?api-version=v1&store=",
        );
        url.append(store_id);
        url.append("&groups=CUSTOMER_PRIVATE&direct=false");
        url
    }

    /// The request body that asks for the articles `fetch_ids`: their JSON
    /// array, which can always be written.
    pub fn request_body(fetch_ids: &Vec<String>) -> (r: Option<String>)
        ensures
            r is Some,
            r matches Some(s) ==> s@ == json_string_list(texts(fetch_ids@)),
    {
        match encode_string_list(fetch_ids) {
            Ok(s) => Some(s),
            Err(_) => None,
        }
    }

    /// The articles in Coop's answer to a request for several.
    pub fn reply_items(body: &Json) -> (r: Option<&Vec<Json>>)
        ensures
            match r {
                Some(items) => coop_items(*body) == Some(items@),
                None => coop_items(*body) is None,
            },
    {
        match member_of(member_of(Some(body), "results"), "items") {
            Some(Json::Array(items)) => Some(items),
            _ => None,
        }
    }

    /// The article in Coop's answer to a request for one.
    pub fn first_reply_item(body: &Json) -> (r: Option<&Json>)
        ensures
            match r {
                Some(item) => coop_first_item(*body) == Some(*item),
                None => coop_first_item(*body) is None,
            },
    {
        match member_of(member_of(Some(body), "results"), "items") {
            Some(items) => match items.first_element_ref() {
                Some(item) => if item.is_object() {
                    Some(item)
                } else {
                    None
                },
                None => None,
            },
            None => None,
        }
    }

    /// Gathers the tasks of one store into one request: nothing to ask
    /// where there are no tasks; else the articles of all tasks, asked at the
    /// store of the first task.
    pub fn plan_batch(tasks: &Vec<CrawlTask>) -> (r: Option<CoopBatch>)
        requires
            tasks.len() > 0 ==> tasks@[0].butik_id is Some,
        ensures
            r is None <==> tasks.len() == 0,
            r matches Some(b) ==> {
                &&& b.url@ == coop_url(tasks@[0].butik_id->Some_0@)
                &&& b.fetch_ids.len() == tasks.len()
                &&& b.ids.len() == tasks.len()
                &&& forall|i: int|
                    0 <= i < tasks.len() ==> #[trigger] b.fetch_ids@[i]@ == tasks@[i].fetch_id@
                &&& forall|i: int| 0 <= i < tasks.len() ==> #[trigger] b.ids@[i] == tasks@[i].id
            },
    {
        if tasks.len() == 0 {
            return None;
        }
        let url = match &tasks[0].butik_id {
            Some(store) => Self::request_url(store.as_str()),
            None => {
                return None;
            },
        };
        let mut fetch_ids: Vec<String> = Vec::new();
        let mut ids: Vec<u64> = Vec::new();
        let mut i: usize = 0;
        while i < tasks.len()
            invariant
                i <= tasks.len(),
                fetch_ids.len() == i,
                ids.len() == i,
                forall|j: int| 0 <= j < i ==> #[trigger] fetch_ids@[j]@ == tasks@[j].fetch_id@,
                forall|j: int| 0 <= j < i ==> #[trigger] ids@[j] == tasks@[j].id,
            decreases tasks.len() - i,
        {
            fetch_ids.push(tasks[i].fetch_id.clone());
            ids.push(tasks[i].id);
            i = i + 1;
        }
        Some(CoopBatch { url, fetch_ids, ids })
    }

    /// Pairs the tasks' ids with the prices that came back, in order, as
    /// far as both go.
    pub fn pair_results(ids: &Vec<u64>, prices: &Vec<ProductPrice>) -> (r: Vec<CrawlResult>)
        ensures
            r.len() == (if ids.len() < prices.len() {
                ids.len()
            } else {
                prices.len()
            }),
            forall|i: int|
                0 <= i < r.len() ==> #[trigger] r@[i] == (CrawlResult {
                    id: ids@[i],
                    price: prices@[i].price,
                    member_price: prices@[i].member_price,
                }),
    {
        let n = if ids.len() < prices.len() {
            ids.len()
        } else {
            prices.len()
        };
        let mut r: Vec<CrawlResult> = Vec::new();
        let mut i: usize = 0;
        while i < n
            invariant
                i <= n,
                n <= ids.len(),
                n <= prices.len(),
                r.len() == i,
                forall|j: int|
                    0 <= j < i ==> #[trigger] r@[j] == (CrawlResult {
                        id: ids@[j],
                        price: prices@[j].price,
                        member_price: prices@[j].member_price,
                    }),
            decreases n - i,
        {
            let p = prices[i];
            r.push(CrawlResult { id: ids[i], price: p.price, member_price: p.member_price });
            i = i + 1;
        }
        r
    }
}

} // verus!
