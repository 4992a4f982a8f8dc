use price_crawler::model::{Commodity, BUTIK_SLOTS};
use price_crawler::store::{place_ranked_prices, RankedPrice};

fn articles(n: u32) -> Vec<Commodity<f64>> {
    (1..=n).map(|i| Commodity::new(i, format!("vara {}", i), "kg".to_string())).collect()
}

#[test]
fn new_article_has_empty_slots() {
    let c: Commodity<f64> = Commodity::new(3, "mjölk".to_string(), "l".to_string());
    assert_eq!(c.id, 3);
    assert_eq!(c.name, "mjölk");
    assert_eq!(c.unit, "l");
    assert_eq!(c.butik_prices.len(), BUTIK_SLOTS);
    assert!(c.butik_prices.iter().all(|p| p.is_none()));
}

#[test]
fn ranked_prices_go_to_their_slots() {
    let mut cs = articles(2);
    let rows = vec![
        RankedPrice { butik_id: 1, commodity_id: 1, price: 12.5, rank: 2 },
        RankedPrice { butik_id: 3, commodity_id: 1, price: 10.0, rank: 1 },
        RankedPrice { butik_id: 6, commodity_id: 2, price: 3.0, rank: 1 },
    ];
    assert!(place_ranked_prices(&mut cs, &rows));
    let p = cs[0].butik_prices[0].unwrap();
    assert_eq!((p.rank, p.price), (2, 12.5));
    let p = cs[0].butik_prices[2].unwrap();
    assert_eq!((p.rank, p.price), (1, 10.0));
    assert!(cs[0].butik_prices[1].is_none());
    let p = cs[1].butik_prices[5].unwrap();
    assert_eq!((p.rank, p.price), (1, 3.0));
    assert_eq!(cs[1].butik_prices.iter().filter(|p| p.is_some()).count(), 1);
}

#[test]
fn last_row_for_a_slot_wins() {
    let mut cs = articles(1);
    let rows = vec![
        RankedPrice { butik_id: 2, commodity_id: 1, price: 9.0, rank: 3 },
        RankedPrice { butik_id: 2, commodity_id: 1, price: 8.0, rank: 1 },
    ];
    assert!(place_ranked_prices(&mut cs, &rows));
    let p = cs[0].butik_prices[1].unwrap();
    assert_eq!((p.rank, p.price), (1, 8.0));
}

#[test]
fn rank_is_cut_to_sixteen_bits() {
    let mut cs = articles(1);
    let rows = vec![RankedPrice { butik_id: 1, commodity_id: 1, price: 1.0, rank: 65537 }];
    assert!(place_ranked_prices(&mut cs, &rows));
    assert_eq!(cs[0].butik_prices[0].unwrap().rank, 1);
}

#[test]
fn row_outside_the_table_changes_nothing() {
    for bad in [
        RankedPrice { butik_id: 1, commodity_id: 3, price: 1.0, rank: 1 },
        RankedPrice { butik_id: 7, commodity_id: 1, price: 1.0, rank: 1 },
        RankedPrice { butik_id: 0, commodity_id: 1, price: 1.0, rank: 1 },
        RankedPrice { butik_id: 1, commodity_id: 0, price: 1.0, rank: 1 },
    ] {
        let mut cs = articles(2);
        let rows = vec![RankedPrice { butik_id: 1, commodity_id: 1, price: 5.0, rank: 1 }, bad];
        assert!(!place_ranked_prices(&mut cs, &rows));
        assert!(cs.iter().all(|c| c.butik_prices.iter().all(|p| p.is_none())));
    }
}
