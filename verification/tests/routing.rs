use price_crawler::crawler::coop::CoopCrawler;
use price_crawler::crawler::ica::ICACrawler;
use price_crawler::crawler::willys::WillysCrawler;
use price_crawler::crawler::{default_crawl_delay, store_kind, store_kind_from_lowercase, CrawlTask, StoreKind};

#[test]
fn chains_are_told_by_name() {
    assert_eq!(store_kind("Coop Forum"), Some(StoreKind::Coop));
    assert_eq!(store_kind("ICA Supermarket"), Some(StoreKind::Ica));
    assert_eq!(store_kind("Willys Hemma"), Some(StoreKind::Willys));
    assert_eq!(store_kind("Hemköp City"), Some(StoreKind::Hemkop));
}

#[test]
fn names_are_compared_in_lower_case() {
    assert_eq!(store_kind("COOP"), Some(StoreKind::Coop));
    assert_eq!(store_kind("HEMKÖP"), Some(StoreKind::Hemkop));
    // Without lower-casing nothing matches.
    assert_eq!(store_kind_from_lowercase("COOP"), None);
}

#[test]
fn first_chain_in_order_wins() {
    assert_eq!(store_kind("Coop bredvid ICA"), Some(StoreKind::Coop));
    assert_eq!(store_kind("ICA vid Willys"), Some(StoreKind::Ica));
    assert_eq!(store_kind("hemköp, inte ica"), Some(StoreKind::Hemkop));
}

#[test]
fn unknown_store_has_no_crawler() {
    assert_eq!(store_kind("Lidl"), None);
    assert_eq!(store_kind(""), None);
}

#[test]
fn task_goes_to_its_chain() {
    let task = CrawlTask {
        id: 1,
        butik_id: Some("1004293".to_string()),
        butik_name: "ICA Supermarket".to_string(),
        fetch_id: "1203222".to_string(),
    };
    assert_eq!(task.store_kind(), Some(StoreKind::Ica));
}

#[test]
fn crawl_delays() {
    assert_eq!(ICACrawler::crawl_delay(), 1);
    assert_eq!(WillysCrawler::crawl_delay(), 10);
    for _ in 0..100 {
        let d = CoopCrawler::crawl_delay();
        assert!((1..5).contains(&d));
        let d = default_crawl_delay();
        assert!((1..5).contains(&d));
    }
}
