use price_crawler::crawler::coop::{CoopCrawler, ProductPrice};
use price_crawler::crawler::ica::ICACrawler;
use price_crawler::crawler::willys::WillysCrawler;
use price_crawler::crawler::CrawlTask;
use price_crawler::json::Json;

fn text(s: &str) -> Json {
    Json::Str(s.to_string())
}

fn object(members: Vec<(&str, Json)>) -> Json {
    Json::Object(members.into_iter().map(|(k, v)| (k.to_string(), v)).collect())
}

fn ica_body(amount: Json) -> Json {
    object(vec![(
        "entities",
        object(vec![(
            "product",
            object(vec![
                (
                    "1203222",
                    object(vec![(
                        "price",
                        object(vec![("unit", object(vec![("current", object(vec![("amount", amount)]))]))]),
                    )]),
                ),
                ("9999999", object(vec![])),
            ]),
        )]),
    )])
}

#[test]
fn ica_reads_unit_amount_of_first_product() {
    let r = ICACrawler::result_from_response(1, &ica_body(text("54,90 kr"))).unwrap();
    assert_eq!(r.id, 1);
    assert_eq!(r.price, (54, 90));
    assert_eq!(r.member_price, None);
}

#[test]
fn ica_without_amount_text_gives_none() {
    assert!(ICACrawler::result_from_response(1, &ica_body(Json::Number("54.9".to_string()))).is_none());
    assert!(ICACrawler::result_from_response(1, &ica_body(text("okänt"))).is_none());
    assert!(ICACrawler::result_from_response(1, &object(vec![])).is_none());
    let empty_products = object(vec![("entities", object(vec![("product", object(vec![]))]))]);
    assert!(ICACrawler::result_from_response(1, &empty_products).is_none());
}

#[test]
fn ica_product_url() {
    assert_eq!(
        ICACrawler::product_url("1004293", "1203222"),
        "https://handlaprivatkund.ica.se/stores/1004293/api/v4/products/bop?retailerProductId=1203222"
    );
}

#[test]
fn willys_reads_price_and_promotion() {
    let body = object(vec![
        ("comparePrice", text("89,90 kr")),
        ("potentialPromotions", Json::Array(vec![object(vec![("comparePrice", text("69,90 kr"))])])),
    ]);
    let r = WillysCrawler::result_from_response(1, &body).unwrap();
    assert_eq!(r.id, 1);
    assert_eq!(r.price, (89, 90));
    assert_eq!(r.member_price, Some((69, 90)));
}

#[test]
fn willys_without_promotions() {
    let body = object(vec![("comparePrice", text("89,90 kr")), ("potentialPromotions", Json::Array(vec![]))]);
    let r = WillysCrawler::result_from_response(2, &body).unwrap();
    assert_eq!(r.id, 2);
    assert_eq!(r.member_price, None);
    let body = object(vec![("comparePrice", text("89,90 kr"))]);
    assert_eq!(WillysCrawler::result_from_response(2, &body).unwrap().member_price, None);
    let body = object(vec![
        ("comparePrice", text("89,90 kr")),
        ("potentialPromotions", Json::Array(vec![text("not an object")])),
    ]);
    assert_eq!(WillysCrawler::result_from_response(2, &body).unwrap().member_price, None);
}

#[test]
fn willys_promotion_without_readable_price() {
    let body = object(vec![
        ("comparePrice", text("89,90 kr")),
        ("potentialPromotions", Json::Array(vec![object(vec![("comparePrice", Json::Null)])])),
    ]);
    assert_eq!(WillysCrawler::result_from_response(3, &body).unwrap().member_price, None);
}

#[test]
fn willys_promotion_object_lacking_price_gives_none() {
    let body = object(vec![
        ("comparePrice", text("89,90 kr")),
        ("potentialPromotions", Json::Array(vec![object(vec![("name", text("2 för 30"))])])),
    ]);
    assert!(WillysCrawler::result_from_response(3, &body).is_none());
}

#[test]
fn willys_without_price_gives_none() {
    assert!(WillysCrawler::result_from_response(3, &object(vec![])).is_none());
    let body = object(vec![("comparePrice", text("pris saknas"))]);
    assert!(WillysCrawler::result_from_response(3, &body).is_none());
}

#[test]
fn willys_product_url() {
    assert_eq!(WillysCrawler::product_url("101253220_KG"), "https://www.willys.se/axfood/rest/p/101253220_KG");
}

fn coop_task(id: u64, fetch_id: &str) -> CrawlTask {
    CrawlTask {
        id,
        butik_id: Some("252600".to_string()),
        butik_name: "coop".to_string(),
        fetch_id: fetch_id.to_string(),
    }
}

#[test]
fn coop_batch_asks_for_all_articles_at_first_store() {
    let tasks = vec![coop_task(1, "8711327343573"), coop_task(2, "7312331808211")];
    let batch = CoopCrawler::plan_batch(&tasks).unwrap();
    assert_eq!(
        batch.url,
        "https://external.api.coop.se/personalization/search/entities/by-id?api-version=v1&store=252600&groups=CUSTOMER_PRIVATE&direct=false"
    );
    assert_eq!(batch.fetch_ids, vec!["8711327343573".to_string(), "7312331808211".to_string()]);
    assert_eq!(batch.ids, vec![1, 2]);
    assert_eq!(
        CoopCrawler::request_body(&batch.fetch_ids).unwrap(),
        "[\"8711327343573\",\"7312331808211\"]"
    );
}

#[test]
fn coop_no_tasks_no_batch() {
    assert!(CoopCrawler::plan_batch(&Vec::new()).is_none());
}

#[test]
fn coop_request_body_escapes() {
    assert_eq!(CoopCrawler::request_body(&vec!["a\"b".to_string()]).unwrap(), "[\"a\\\"b\"]");
    assert_eq!(CoopCrawler::request_body(&Vec::new()).unwrap(), "[]");
}

#[test]
fn coop_results_pair_in_order_as_far_as_both_go() {
    let prices = vec![
        ProductPrice { price: (10, 0), member_price: None },
        ProductPrice { price: (20, 50), member_price: Some((15, 0)) },
    ];
    let r = CoopCrawler::pair_results(&vec![1, 2, 3], &prices);
    assert_eq!(r.len(), 2);
    assert_eq!((r[0].id, r[0].price, r[0].member_price), (1, (10, 0), None));
    assert_eq!((r[1].id, r[1].price, r[1].member_price), (2, (20, 50), Some((15, 0))));
    let r = CoopCrawler::pair_results(&vec![5], &prices);
    assert_eq!(r.len(), 1);
    assert_eq!(r[0].id, 5);
}

#[test]
fn json_member_lookup() {
    let v = object(vec![("a", text("x")), ("b", Json::Null)]);
    assert!(matches!(v.get("a"), Some(Json::Str(s)) if s == "x"));
    assert!(matches!(v.get("b"), Some(Json::Null)));
    assert!(v.get("c").is_none());
    assert!(text("a").get("a").is_none());
}

fn coop_reply(items: Json) -> Json {
    object(vec![("results", object(vec![("items", items)]))])
}

#[test]
fn coop_reply_items_are_under_results_items() {
    let body = coop_reply(Json::Array(vec![object(vec![("piecePrice", Json::Number("25.9".to_string()))]), Json::Null]));
    let items = CoopCrawler::reply_items(&body).unwrap();
    assert_eq!(items.len(), 2);
    assert!(matches!(items[0].get("piecePrice"), Some(Json::Number(n)) if n == "25.9"));
    assert!(CoopCrawler::reply_items(&object(vec![])).is_none());
    assert!(CoopCrawler::reply_items(&coop_reply(Json::Null)).is_none());
}

#[test]
fn coop_first_reply_item_must_be_an_object() {
    let body = coop_reply(Json::Array(vec![object(vec![("comparativePrice", Json::Number("3".to_string()))])]));
    let item = CoopCrawler::first_reply_item(&body).unwrap();
    assert!(item.get("comparativePrice").is_some());
    assert!(CoopCrawler::first_reply_item(&coop_reply(Json::Array(vec![text("x")]))).is_none());
    assert!(CoopCrawler::first_reply_item(&coop_reply(Json::Array(vec![]))).is_none());
    assert!(CoopCrawler::first_reply_item(&object(vec![])).is_none());
}
