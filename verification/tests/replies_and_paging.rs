use listing_ledger::routes::offers::{admin_offers_show, all_better_price_chnage_is_ok, SOReq};
use listing_ledger::arith::divide;
use listing_ledger::routes::{window, Window, DEFAULT_PER_PAGE};
use listing_ledger::models::{NewOffer, Offer, Stamp};
use listing_ledger::types::{err, ok, Res};

#[test]
fn replies_are_built_step_by_step() {
    let res = Res::new();
    assert_eq!(res.status, 0);
    assert_eq!(res.msg, "");
    assert!(res.data.is_none());
    let res = res.status(1).msg("no".to_string()).data(Some(serde_json::Value::from(3)));
    assert_eq!(res.status, 1);
    assert_eq!(res.msg, "no");
    assert_eq!(res.data, Some(serde_json::Value::from(3)));
    let plain = Res::default();
    assert_eq!((plain.status, plain.msg.as_str(), plain.data), (0, "", None));
}

#[test]
fn ok_and_err_are_both_replies() {
    let good = ok(serde_json::Value::from("x")).unwrap();
    assert_eq!(good.status, 0);
    assert_eq!(good.msg, "success");
    assert_eq!(good.data, Some(serde_json::Value::from("x")));
    let bad = err("not found".to_string()).unwrap();
    assert_eq!(bad.status, 1);
    assert_eq!(bad.msg, "not found");
    assert!(bad.data.is_none());
}

#[test]
fn division_drops_the_remainder_toward_zero() {
    assert_eq!(divide(7, 2), 3);
    assert_eq!(divide(-7, 2), -3);
    assert_eq!(divide(7, -2), -3);
    assert_eq!(divide(-7, -2), 3);
    assert_eq!(divide(0, -5), 0);
    assert_eq!(divide(i64::MIN, -1), 9223372036854775808i128);
}

#[test]
fn window_clamps_the_page() {
    assert_eq!(DEFAULT_PER_PAGE, 20);
    assert_eq!(window(1, 0, 0), Window { page: 1, per_page: 20, offset: 0 });
    assert_eq!(window(5, 20, 45), Window { page: 3, per_page: 20, offset: 40 });
    assert_eq!(window(2, 20, 40), Window { page: 2, per_page: 20, offset: 20 });
    assert_eq!(window(3, 20, 40), Window { page: 3, per_page: 20, offset: 40 });
    assert_eq!(window(4, 20, 40), Window { page: 3, per_page: 20, offset: 40 });
    assert_eq!(window(-3, 7, 40), Window { page: 1, per_page: 7, offset: 0 });
    assert_eq!(window(2, -10, 45), Window { page: 1, per_page: -10, offset: 0 });
    assert_eq!(window(3, -10, -45), Window { page: 3, per_page: -10, offset: -20 });
    assert_eq!(
        window(i64::MAX, 1, i64::MAX),
        Window { page: i64::MAX, per_page: 1, offset: i64::MAX - 1 }
    );
    assert_eq!(
        window(i64::MAX, -1, i64::MIN),
        Window { page: i64::MAX, per_page: -1, offset: -(i64::MAX - 1) }
    );
}

#[test]
fn offer_search_is_paged() {
    let search = SOReq {
        page: 2,
        per_page: 0,
        offer_id: 0,
        product_id: 0,
        model_id: String::new(),
        supplier: String::new(),
        pending: 999,
        deleted: false,
    };
    assert_eq!(search.window(100), Window { page: 2, per_page: 20, offset: 20 });
}

fn offer(tips: &str, pending: i64) -> Offer {
    let no = NewOffer {
        offer_id: 1,
        title: String::new(),
        cover: String::new(),
        wireless_video_id: 0,
        detail_video_id: 0,
        model_id: String::new(),
        sale30: 0,
        sale_info: r#"{"color":{},"size":{},"detail":{}}"#.to_string(),
        price: 100,
        better_price: 90,
        sku_info: String::new(),
        detail_url: String::new(),
        supplier: String::new(),
        store_url: String::new(),
        promotion_end: None,
    };
    let mut offer = Offer::new(&no, Stamp { seconds: 0, day: 19700101 }).unwrap();
    offer.tips = tips.to_string();
    offer.pending = pending;
    offer
}

#[test]
fn a_small_price_change_is_accepted_unseen() {
    let mut o = offer("15 => 20 折扣价变更;", -1);
    assert!(all_better_price_chnage_is_ok(&mut o));
    assert_eq!(o.pending, 0);
    assert_eq!(o.tips, "");
    let mut o = offer("5 => 0 折扣价变更;", -1);
    assert!(all_better_price_chnage_is_ok(&mut o));
}

#[test]
fn anything_else_waits_for_the_operator() {
    for (tips, pending) in [
        ("15 => 20 折扣价变更;", 0),
        ("15 => 20 折扣价变更;", -2),
        ("!草稿箱;15 => 20 折扣价变更;", -1),
        ("15 => 20 折扣价变更;SKU变更;", -1),
        ("15 => -20 折扣价变更;", -1),
        ("15 => 120 折扣价变更;", -1),
        ("", -1),
    ] {
        let mut o = offer(tips, pending);
        assert!(!all_better_price_chnage_is_ok(&mut o));
        assert_eq!(o.tips, tips);
        assert_eq!(o.pending, pending);
    }
    let mut deleted = offer("15 => 20 折扣价变更;", -1);
    deleted.deleted_at = Some(Stamp { seconds: 5, day: 19700101 });
    assert!(!all_better_price_chnage_is_ok(&mut deleted));
    assert_eq!(deleted.pending, -1);
}

fn search() -> SOReq {
    SOReq {
        page: 1,
        per_page: 20,
        offer_id: 0,
        product_id: 0,
        model_id: "  ".to_string(),
        supplier: String::new(),
        pending: 999,
        deleted: false,
    }
}

#[test]
fn an_empty_search_shows_every_live_offer() {
    let mut o = offer("", -1);
    assert!(admin_offers_show(&search(), &o));
    o.deleted_at = Some(Stamp { seconds: 5, day: 19700101 });
    assert!(!admin_offers_show(&search(), &o));
    let mut deleted = search();
    deleted.deleted = true;
    assert!(admin_offers_show(&deleted, &o));
}

#[test]
fn a_search_filters_by_what_it_names() {
    let mut o = offer("", -1);
    o.product_id = 4;
    o.model_id = "m1".to_string();
    o.supplier = "acme".to_string();
    let mut by_id = search();
    by_id.offer_id = 1;
    assert!(admin_offers_show(&by_id, &o));
    by_id.offer_id = 2;
    assert!(!admin_offers_show(&by_id, &o));
    by_id.offer_id = -2;
    assert!(admin_offers_show(&by_id, &o));
    let mut by_product = search();
    by_product.product_id = 4;
    assert!(admin_offers_show(&by_product, &o));
    by_product.product_id = 5;
    assert!(!admin_offers_show(&by_product, &o));
    let mut by_model = search();
    by_model.model_id = "m1".to_string();
    assert!(admin_offers_show(&by_model, &o));
    by_model.model_id = " m1 ".to_string();
    assert!(!admin_offers_show(&by_model, &o));
    let mut by_supplier = search();
    by_supplier.supplier = "other".to_string();
    assert!(!admin_offers_show(&by_supplier, &o));
    by_supplier.supplier = "acme".to_string();
    assert!(admin_offers_show(&by_supplier, &o));
    let mut by_flag = search();
    by_flag.pending = -1;
    assert!(admin_offers_show(&by_flag, &o));
    by_flag.pending = 0;
    assert!(!admin_offers_show(&by_flag, &o));
}
