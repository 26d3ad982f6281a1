use listing_ledger::models::{NewOrder, NewProduct, Order, Product, Stamp};
use listing_ledger::routes::orders::{
    admin_order_show, attributed_product, comes_before, is_purgeable, locate_order, locate_patch, next, set_lg_id,
    update_or_add, update_weight, SOReq, UpOdLg,
};
use listing_ledger::types::{AeError, Failure};

fn now() -> Stamp {
    Stamp { seconds: 1_700_000_000, day: 20231114 }
}

fn later() -> Stamp {
    Stamp { seconds: 1_700_000_777, day: 20231114 }
}

fn order(product_num: i64, item_num: i64, products: &str) -> Order {
    Order::new(
        &NewOrder {
            order_id: 5,
            remark: "r".to_string(),
            product_num,
            item_num,
            products: products.to_string(),
        },
        now(),
    )
}

fn product(product_id: i64) -> Product {
    let mut p = Product::new(
        &NewProduct {
            product_id,
            title: "t".to_string(),
            cover: "c".to_string(),
            price: 500,
            stock_info: String::new(),
            model_id: "m".to_string(),
        },
        now(),
    );
    p.pending = 0;
    p
}

#[test]
fn new_order_is_unweighed() {
    let o = order(1, 2, "{}");
    assert_eq!(o.id, None);
    assert_eq!(o.lg_order_id, None);
    assert_eq!(o.weight, 0);
    assert_eq!(o.used_stock, "");
    assert_eq!(o.order_id, 5);
    assert_eq!(o.created_at, now());
}

#[test]
fn order_update_changes_the_remark_alone() {
    let mut o = order(1, 2, "{}");
    let patch = NewOrder {
        order_id: 6,
        remark: "new".to_string(),
        product_num: 3,
        item_num: 4,
        products: "p".to_string(),
    };
    o.update(&patch, later());
    assert_eq!(o.remark, "new");
    assert_eq!(o.updated_at, later());
    assert_eq!((o.order_id, o.product_num, o.item_num), (5, 1, 2));
    assert_eq!(o.products, "{}");
}

#[test]
fn weight_is_written_once() {
    let mut o = order(2, 2, "{}");
    assert_eq!(o.measure(350, 2, later()), Ok(false));
    assert_eq!(o.weight, 350);
    assert_eq!(o.measure(400, 2, later()), Err(AeError(Failure::AlreadyMeasured)));
    assert_eq!(o.weight, 350);
    let mut single = order(1, 2, "{}");
    assert_eq!(single.measure(350, 2, later()), Ok(true));
    let mut split = order(1, 2, "{}");
    assert!(!split.is_attributable(1));
    assert!(split.is_attributable(2));
    assert!(split.asks_product(2));
    assert!(!split.asks_product(1));
    assert_eq!(split.measure(350, 1, later()), Ok(false));
    assert!(!split.asks_product(2));
}

#[test]
fn weight_of_a_single_product_order_enters_the_estimate() {
    let mut o = order(1, 2, r#"{"9":[["RED-M",2]]}"#);
    let mut p = product(9);
    assert_eq!(update_weight(&mut o, &mut p, 700, 2, 1000, 32, later()), Ok(true));
    assert_eq!(o.weight, 700);
    assert_eq!(o.updated_at, later());
    assert_eq!((p.sale_weight, p.weight_cal_count, p.weight, p.pending), (700, 2, 350, -1));
    assert_eq!(
        update_weight(&mut o, &mut p, 700, 2, 1000, 32, later()),
        Err(AeError(Failure::AlreadyMeasured))
    );
    assert_eq!((p.sale_weight, p.weight_cal_count), (700, 2));
}

#[test]
fn weight_of_a_mixed_order_is_kept_but_not_attributed() {
    let mut o = order(2, 2, r#"{"9":[["RED-M",1]],"10":[["X",1]]}"#);
    let mut p = product(9);
    assert_eq!(update_weight(&mut o, &mut p, 700, 2, 1000, 32, later()), Ok(false));
    assert_eq!(o.weight, 700);
    assert_eq!((p.sale_weight, p.weight_cal_count, p.pending), (0, 0, 0));
    let mut split = order(1, 3, r#"{"9":[["RED-M",3]]}"#);
    assert_eq!(update_weight(&mut split, &mut p, 700, 2, 1000, 32, later()), Ok(false));
    assert_eq!(split.weight, 700);
    assert_eq!(p.weight_cal_count, 0);
}

#[test]
fn weight_update_fails_as_a_whole() {
    let mut p = product(9);
    let mut broken = order(1, 2, "not json");
    assert_eq!(
        update_weight(&mut broken, &mut p, 700, 2, 1000, 32, later()),
        Err(AeError(Failure::Malformed))
    );
    assert_eq!(broken.weight, 0);
    let mut empty = order(1, 2, "{}");
    assert_eq!(
        update_weight(&mut empty, &mut p, 700, 2, 1000, 32, later()),
        Err(AeError(Failure::NoProduct))
    );
    let mut other = order(1, 2, r#"{"10":[["X",2]]}"#);
    assert_eq!(
        update_weight(&mut other, &mut p, 700, 2, 1000, 32, later()),
        Err(AeError(Failure::NoProduct))
    );
    let mut negative = order(1, 2, r#"{"9":[["X",2]]}"#);
    assert_eq!(
        update_weight(&mut negative, &mut p, -700, 2, 1000, 32, later()),
        Err(AeError(Failure::OutOfRange))
    );
    assert_eq!(negative.weight, 0);
    assert_eq!((p.sale_weight, p.weight_cal_count), (0, 0));
}

#[test]
fn first_product_of_an_order_is_the_lowest_id() {
    assert_eq!(attributed_product(&order(1, 1, r#"{"12":[["A",1]],"7":[["B",1]]}"#)), Ok(7));
    assert_eq!(attributed_product(&order(1, 1, "{}")), Err(AeError(Failure::NoProduct)));
    assert_eq!(attributed_product(&order(1, 1, "[]")), Err(AeError(Failure::Malformed)));
    assert_eq!(attributed_product(&order(1, 1, r#"{"x":[]}"#)), Err(AeError(Failure::Malformed)));
}

#[test]
fn texts_are_ordered_like_a_dictionary() {
    assert!(comes_before("", "a"));
    assert!(!comes_before("", ""));
    assert!(!comes_before("a", ""));
    assert!(comes_before("a", "b"));
    assert!(!comes_before("b", "a"));
    assert!(comes_before("ab", "abc"));
    assert!(!comes_before("abc", "ab"));
    assert!(!comes_before("abc", "abc"));
    assert!(comes_before("LG100", "LG99"));
    assert!(comes_before("z", "é"));
}

#[test]
fn logistics_id_only_moves_forward() {
    let mut o = order(1, 1, "{}");
    let first = UpOdLg { order_id: 5, lg_order_id: "LG200".to_string() };
    assert!(set_lg_id(&mut o, &first, later()));
    assert_eq!(o.lg_order_id, Some("LG200".to_string()));
    assert_eq!(o.updated_at, later());
    let same = UpOdLg { order_id: 5, lg_order_id: "LG200".to_string() };
    assert!(!set_lg_id(&mut o, &same, now()));
    let earlier = UpOdLg { order_id: 5, lg_order_id: "LG100".to_string() };
    assert!(!set_lg_id(&mut o, &earlier, now()));
    assert_eq!(o.lg_order_id, Some("LG200".to_string()));
    assert_eq!(o.updated_at, later());
    let next = UpOdLg { order_id: 5, lg_order_id: "LG300".to_string() };
    assert!(set_lg_id(&mut o, &next, now()));
    assert_eq!(o.lg_order_id, Some("LG300".to_string()));
}

#[test]
fn order_search_is_paged() {
    let search = SOReq { page: 0, per_page: 10, order_id: 0, product_id: 0 };
    let shown = search.window(95);
    assert_eq!((shown.page, shown.per_page, shown.offset), (1, 10, 0));
    let search = SOReq { page: 99, per_page: 10, order_id: 0, product_id: 0 };
    let shown = search.window(95);
    assert_eq!((shown.page, shown.per_page, shown.offset), (10, 10, 90));
}

fn patch(order_id: i64, remark: &str) -> NewOrder {
    NewOrder {
        order_id,
        remark: remark.to_string(),
        product_num: 1,
        item_num: 1,
        products: "{}".to_string(),
    }
}

fn stored(order_id: i64, remark: &str) -> Order {
    let mut order = Order::new(&patch(order_id, remark), now());
    order.id = Some(order_id * 10);
    order.weight = 5;
    order
}

#[test]
fn snapshots_update_stored_orders_and_add_new_ones() {
    let mut existing = vec![stored(1, "a"), stored(2, "b"), stored(3, "c")];
    let patches = vec![
        patch(2, "b2"),
        patch(7, "new7"),
        patch(0, "zero"),
        patch(-4, "negative"),
        patch(7, "again7"),
        patch(1, "a2"),
        patch(2, "b3"),
        patch(9, "new9"),
    ];
    let added = update_or_add(&mut existing, &patches, later());
    let remarks: Vec<&str> = existing.iter().map(|o| o.remark.as_str()).collect();
    assert_eq!(remarks, vec!["a2", "b2", "c"]);
    assert_eq!(existing[0].updated_at, later());
    assert_eq!(existing[1].updated_at, later());
    assert_eq!(existing[2].updated_at, now());
    assert_eq!(existing[0].id, Some(10));
    assert_eq!(existing[0].weight, 5);
    let fresh: Vec<(i64, &str)> = added.iter().map(|o| (o.order_id, o.remark.as_str())).collect();
    assert_eq!(fresh, vec![(7, "new7"), (9, "new9")]);
    assert_eq!(added[0].id, None);
    assert_eq!(added[0].weight, 0);
    assert_eq!(added[0].created_at, later());
}

#[test]
fn no_snapshots_change_nothing() {
    let mut existing = vec![stored(1, "a")];
    let added = update_or_add(&mut existing, &vec![], later());
    assert!(added.is_empty());
    assert_eq!(existing[0].remark, "a");
    assert_eq!(existing[0].updated_at, now());
    let mut none: Vec<Order> = vec![];
    let added = update_or_add(&mut none, &vec![patch(3, "x")], later());
    assert_eq!(added.len(), 1);
    assert!(none.is_empty());
}

#[test]
fn first_occurrence_is_located() {
    let patches = vec![patch(4, "a"), patch(5, "b"), patch(4, "c")];
    assert_eq!(locate_patch(&patches, 4), 0);
    assert_eq!(locate_patch(&patches, 5), 1);
    assert_eq!(locate_patch(&patches, 6), 3);
    let orders = vec![stored(4, "a"), stored(5, "b")];
    assert_eq!(locate_order(&orders, 5), 1);
    assert_eq!(locate_order(&orders, 1), 2);
}

fn waiting(order_id: i64, lg: Option<&str>, age_days: i64) -> Order {
    let mut order = stored(order_id, "r");
    order.weight = 0;
    order.lg_order_id = lg.map(|s| s.to_string());
    order.created_at = Stamp { seconds: later().seconds - age_days * 86_400 - 1, day: 20231001 };
    order.updated_at = Stamp { seconds: later().seconds - 86_400, day: 20231113 };
    order
}

fn queue() -> Vec<Order> {
    let mut weighed = waiting(1, Some("LG1"), 10);
    weighed.weight = 300;
    let mut today = waiting(5, Some("LG5"), 10);
    today.updated_at = later();
    vec![
        weighed,
        waiting(2, None, 10),
        waiting(3, Some("LG3"), 2),
        waiting(4, Some("LG4"), 60),
        today,
        waiting(6, Some("LG6"), 3),
        waiting(7, Some("LG7"), 10),
    ]
}

#[test]
fn next_order_to_weigh() {
    let pattern = "https://lg.example/orders/{LG_ORDER_ID}?x={LG_ORDER_ID}";
    let mut orders = queue();
    assert_eq!(
        next(&orders, pattern, later()),
        Some("https://lg.example/orders/LG6?x=LG6".to_string())
    );
    orders.truncate(5);
    assert_eq!(next(&orders, pattern, later()), None);
    assert_eq!(next(&vec![], pattern, later()), None);
}

#[test]
fn an_old_order_is_purged() {
    let o = waiting(1, None, 180);
    assert!(is_purgeable(&o, later()));
    let young = waiting(1, None, 179);
    assert!(!is_purgeable(&young, later()));
}

#[test]
fn an_order_search_filters_by_what_it_names() {
    let o = order(1, 2, r#"{"9001":[["RED-M",2]]}"#);
    let all = SOReq { page: 1, per_page: 20, order_id: 0, product_id: 0 };
    assert!(admin_order_show(&all, &o));
    assert!(admin_order_show(&SOReq { order_id: 5, ..all }, &o));
    assert!(!admin_order_show(&SOReq { order_id: 6, ..all }, &o));
    assert!(admin_order_show(&SOReq { product_id: 9001, ..all }, &o));
    assert!(admin_order_show(&SOReq { product_id: 900, ..all }, &o));
    assert!(!admin_order_show(&SOReq { product_id: 9002, ..all }, &o));
    assert!(admin_order_show(&SOReq { product_id: -9002, ..all }, &o));
    assert!(!admin_order_show(&SOReq { order_id: 6, product_id: 9001, ..all }, &o));
}
