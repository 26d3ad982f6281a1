//! Operations on orders.

use vstd::prelude::*;
use vstd::string::*;
use crate::models::{
    is_older_than, older_than, NewOrder, Order, Product, Stamp, GRACE_DAYS,
};
use crate::text::{decimal, decimal_text, has_part, occurs_in, replace_all, replaced};
use crate::routes::{offset_of, page_of, per_page_of, window, Window};
use crate::tips::NEEDS_REVIEW;
use crate::types::{AeError, Failure};
use crate::weight::{estimated_weight, review_due};
use std::collections::BTreeMap;

verus! {

/// The logistics provider's id for an order.
#[derive(Debug)]
pub struct UpOdLg {
    pub order_id: i64,
    pub lg_order_id: String,
}

/// A search for orders, page by page.
#[derive(Debug)]
pub struct SOReq {
    pub page: i64,
    pub per_page: i64,
    pub order_id: i64,
    pub product_id: i64,
}

impl SOReq {
    /// The page to show of the `total` orders that the search finds.
    pub fn window(&self, total: i64) -> (shown: Window)
        ensures
            shown.page == page_of(self.page as int, self.per_page as int, total as int),
            shown.per_page == per_page_of(self.per_page as int),
            shown.offset == offset_of(self.page as int, self.per_page as int, total as int),
    {
        window(self.page, self.per_page, total)
    }
}

/// The two texts agree in their first `k` characters.
pub open spec fn agree(a: Seq<char>, b: Seq<char>, k: int) -> bool {
    forall|j: int| 0 <= j < k ==> a[j] == b[j]
}

/// `a` comes before `b` in the order of the dictionary, character by
/// character: at the first place where they differ `a` has the lower
/// character, or `a` ends there and `b` goes on.
pub open spec fn text_less(a: Seq<char>, b: Seq<char>) -> bool {
    exists|k: int|
        0 <= k <= a.len() && k <= b.len() && #[trigger] agree(a, b, k) && k < b.len() && (k
            == a.len() || (a[k] as u32) < (b[k] as u32))
}

/// Tells whether `a` comes before `b`.
pub fn comes_before(a: &str, b: &str) -> (less: bool)
    ensures
        less == text_less(a@, b@),
{
    let n = a.unicode_len();
    let m = b.unicode_len();
    let mut i: usize = 0;
    while i < n && i < m
        invariant
            n == a@.len(),
            m == b@.len(),
            i <= n,
            i <= m,
            agree(a@, b@, i as int),
        decreases n - i,
    {
        let x = a.get_char(i) as u32;
        let y = b.get_char(i) as u32;
        if x != y {
            proof {
                if x < y {
                    assert(agree(a@, b@, i as int));
                } else {
                    assert forall|k: int|
                        0 <= k <= a@.len() && k <= b@.len() && #[trigger] agree(a@, b@, k) && k
                            < b@.len() implies !(k == a@.len() || (a@[k] as u32) < (b@[k] as u32)) by {
                        if k > i {
                            assert(a@[i as int] == b@[i as int]);
                        }
                    }
                }
            }
            return x < y;
        }
        i += 1;
    }
    proof {
        if i < m {
            assert(agree(a@, b@, i as int));
        } else {
            assert forall|k: int|
                0 <= k <= a@.len() && k <= b@.len() && #[trigger] agree(a@, b@, k) && k
                    < b@.len() implies !(k == a@.len() || (a@[k] as u32) < (b@[k] as u32)) by {
                assert(a@[k] == b@[k]);
            }
        }
    }
    i < m
}

/// The order takes the provider's id: it has none yet, or the one it has
/// comes before the new one.
pub open spec fn takes_id(order: Order, lg_order_id: Seq<char>) -> bool {
    match order.lg_order_id {
        None => true,
        Some(held) => text_less(held@, lg_order_id),
    }
}

/// Hands an order the id that the logistics provider gave it. The id is
/// taken where the order has none or an earlier one, and is ignored
/// otherwise.
pub fn set_lg_id(order: &mut Order, req: &UpOdLg, now: Stamp) -> (taken: bool)
    ensures
        taken == takes_id(*old(order), req.lg_order_id@),
        !taken ==> *final(order) == *old(order),
        taken ==> {
            &&& final(order).lg_order_id matches Some(held)
            &&& held@ == req.lg_order_id@
            &&& final(order).updated_at == now
            &&& final(order).id == old(order).id
            &&& final(order).weight == old(order).weight
            &&& final(order).used_stock == old(order).used_stock
            &&& final(order).created_at == old(order).created_at
            &&& final(order).order_id == old(order).order_id
            &&& final(order).remark == old(order).remark
            &&& final(order).product_num == old(order).product_num
            &&& final(order).item_num == old(order).item_num
            &&& final(order).products == old(order).products
        },
{
    let taken = match &order.lg_order_id {
        None => true,
        Some(held) => comes_before(held.as_str(), req.lg_order_id.as_str()),
    };
    if taken {
        order.lg_order_id = Some(req.lg_order_id.clone());
        order.updated_at = now;
    }
    taken
}

/// The ids of the products that the JSON text of an order's products maps
/// to their SKUs, in ascending order; `None` where `serde_json` refuses the
/// text.
pub uninterp spec fn json_product_ids(text: Seq<char>) -> Option<Seq<int>>;

/// The ids as integers.
pub open spec fn ids_of(ids: Seq<i64>) -> Seq<int> {
    Seq::new(ids.len(), |i: int| ids[i] as int)
}

/// Calls `serde_json::from_str` for a map from product ids to lists of SKU
/// and quantity. Not proved: that the ids handed out are the ones that
/// `json_product_ids` names for the text, and that an error comes exactly
/// where it names nothing.
#[verifier::external_body]
pub(crate) fn parse_product_ids(text: &str) -> (parsed: Result<Vec<i64>, serde_json::Error>)
    ensures
        match parsed {
            Ok(ids) => json_product_ids(text@) == Some(ids_of(ids@)),
            Err(_) => json_product_ids(text@).is_none(),
        },
{
    let read = serde_json::from_str::<BTreeMap<i64, Vec<(String, i32)>>>(text)?;
    Ok(read.into_keys().collect())
}

/// Why a measured weight cannot be attributed to `product`, if it cannot:
/// the order's products cannot be read, the order's first product is not
/// this one, or the measurement cannot enter the estimate.
pub open spec fn unattributed(
    order: Order,
    product: Product,
    weight: int,
    ratio: int,
) -> Option<Failure> {
    match json_product_ids(order.products@) {
        None => Some(Failure::Malformed),
        Some(ids) => if ids.len() == 0 || ids[0] != product.product_id {
            Some(Failure::NoProduct)
        } else if !product.measurable(weight, order.item_num as int, ratio) {
            Some(Failure::OutOfRange)
        } else {
            None
        },
    }
}

/// The product to which the weight of a single-product order is
/// attributed: the first that its products name.
pub fn attributed_product(order: &Order) -> (result: Result<i64, AeError>)
    ensures
        match json_product_ids(order.products@) {
            None => result == Err::<i64, AeError>(AeError(Failure::Malformed)),
            Some(ids) => match result {
                Ok(id) => ids.len() > 0 && ids[0] == id,
                Err(e) => ids.len() == 0 && e == AeError(Failure::NoProduct),
            },
        },
{
    match parse_product_ids(order.products.as_str()) {
        Ok(ids) => {
            if ids.len() == 0 {
                Err(AeError(Failure::NoProduct))
            } else {
                Ok(ids[0])
            }
        },
        Err(_) => Err(AeError(Failure::Malformed)),
    }
}

/// Records the measured shipping weight of an order, once, and lets it
/// enter the weight estimate of the order's product where it can be
/// attributed to one: the order is of a single product and `item_num`, the
/// units in the parcel, is the order's whole item count. `product` is looked
/// at in that case only, and must then be the order's first product.
///
/// An order that has a weight is refused. An order whose weight cannot be
/// attributed keeps the weight and the result is `false`: an advice to the
/// caller, no failure. Wherever the operation fails, order and product stay
/// as they were.
pub fn update_weight(
    order: &mut Order,
    product: &mut Product,
    weight: i64,
    item_num: i64,
    ratio: i64,
    period: i64,
    now: Stamp,
) -> (result: Result<bool, AeError>)
    requires
        old(product).wf(),
        0 < period,
    ensures
        final(product).wf(),
        result is Err ==> *final(order) == *old(order) && *final(product) == *old(product),
        result == if old(order).weight != 0 {
            Err::<bool, AeError>(AeError(Failure::AlreadyMeasured))
        } else if !old(order).attributable(item_num as int) {
            Ok(false)
        } else {
            match unattributed(*old(order), *old(product), weight as int, ratio as int) {
                Some(failure) => Err(AeError(failure)),
                None => Ok(true),
            }
        },
        result is Ok ==> {
            &&& final(order).weight == weight
            &&& final(order).updated_at == now
            &&& *final(order) == (Order {
                weight: final(order).weight,
                updated_at: final(order).updated_at,
                ..*old(order)
            })
        },
        result == Ok::<bool, AeError>(false) ==> *final(product) == *old(product),
        result == Ok::<bool, AeError>(true) ==> {
            &&& final(product).sale_weight == old(product).sale_weight + weight
            &&& final(product).weight_cal_count == old(product).weight_cal_count + old(
                order,
            ).item_num
            &&& final(product).weight == estimated_weight(
                final(product).sale_weight as int,
                final(product).weight_cal_count as int,
                ratio as int,
            )
            &&& final(product).pending == if review_due(
                old(product).weight_cal_count as int,
                final(product).weight_cal_count as int,
                period as int,
            ) {
                NEEDS_REVIEW
            } else {
                old(product).pending
            }
            &&& *final(product) == (Product {
                sale_weight: final(product).sale_weight,
                weight_cal_count: final(product).weight_cal_count,
                weight: final(product).weight,
                pending: final(product).pending,
                ..*old(product)
            })
        },
{
    if order.weight != 0 {
        return Err(AeError(Failure::AlreadyMeasured));
    }
    if order.is_attributable(item_num) {
        let id = match attributed_product(order) {
            Ok(id) => id,
            Err(e) => {
                return Err(e);
            },
        };
        if id != product.product_id {
            return Err(AeError(Failure::NoProduct));
        }
        match product.add_measurement(weight, order.item_num, ratio, period) {
            Ok(()) => {},
            Err(e) => {
                return Err(e);
            },
        }
        order.weight = weight;
        order.updated_at = now;
        Ok(true)
    } else {
        order.weight = weight;
        order.updated_at = now;
        Ok(false)
    }
}

/// The order ids of the snapshots, in order.
pub open spec fn patch_ids(patches: Seq<NewOrder>) -> Seq<int> {
    Seq::new(patches.len(), |i: int| patches[i].order_id as int)
}

/// The order ids of the orders, in order.
pub open spec fn held_ids(orders: Seq<Order>) -> Seq<int> {
    Seq::new(orders.len(), |i: int| orders[i].order_id as int)
}

/// `at` is the index of the first occurrence of `id`, or the length where
/// it does not occur.
pub open spec fn first_id_at(ids: Seq<int>, id: int, at: int) -> bool {
    &&& 0 <= at <= ids.len()
    &&& at < ids.len() ==> ids[at] == id
    &&& forall|j: int| 0 <= j < at ==> ids[j] != id
}

/// Index of the first occurrence of `id`; the length where it does not
/// occur.
pub open spec fn first_id(ids: Seq<int>, id: int) -> int {
    choose|at: int| first_id_at(ids, id, at)
}

/// There is exactly one first occurrence.
pub proof fn lemma_first_id(ids: Seq<int>, id: int, at: int)
    requires
        first_id_at(ids, id, at),
    ensures
        first_id(ids, id) == at,
{
    let chosen = first_id(ids, id);
    assert(first_id_at(ids, id, chosen));
    if chosen < at {
        assert(ids[chosen] != id);
    } else if at < chosen {
        assert(ids[at] != id);
    }
}

/// `post` is the order `pre` after the snapshot `no` was taken in at `now`:
/// the remark is the snapshot's, and all the rest but the time of the
/// update is as before.
pub open spec fn patched(pre: Order, no: NewOrder, now: Stamp, post: Order) -> bool {
    &&& post.remark@ == no.remark@
    &&& post.updated_at == now
    &&& post.id == pre.id
    &&& post.lg_order_id == pre.lg_order_id
    &&& post.weight == pre.weight
    &&& post.used_stock == pre.used_stock
    &&& post.created_at == pre.created_at
    &&& post.order_id == pre.order_id
    &&& post.product_num == pre.product_num
    &&& post.item_num == pre.item_num
    &&& post.products == pre.products
}

/// `made` is the record of the first-seen order `no`, made at `now`.
pub open spec fn made_of(no: NewOrder, now: Stamp, made: Order) -> bool {
    &&& made.id.is_none()
    &&& made.lg_order_id.is_none()
    &&& made.weight == 0
    &&& made.used_stock@.len() == 0
    &&& made.created_at == now
    &&& made.updated_at == now
    &&& made.order_id == no.order_id
    &&& made.remark@ == no.remark@
    &&& made.product_num == no.product_num
    &&& made.item_num == no.item_num
    &&& made.products@ == no.products@
}

/// The snapshot `at` brings a new order: its id is positive, no stored
/// order has it, and no earlier snapshot has it.
pub open spec fn brings_new(patches: Seq<NewOrder>, held: Seq<Order>, at: int) -> bool {
    let id = patches[at].order_id as int;
    &&& id > 0
    &&& first_id(held_ids(held), id) == held.len()
    &&& first_id(patch_ids(patches), id) == at
}

/// The indices of the first `n` snapshots that bring a new order, in
/// ascending order.
pub open spec fn new_among(patches: Seq<NewOrder>, held: Seq<Order>, n: int) -> Seq<int>
    decreases n,
{
    if n <= 0 {
        Seq::empty()
    } else if brings_new(patches, held, n - 1) {
        new_among(patches, held, n - 1).push(n - 1)
    } else {
        new_among(patches, held, n - 1)
    }
}

/// `added` holds the new records that the first `n` snapshots bring, one for
/// each of `new_among`, in its order.
pub open spec fn brought(
    patches: Seq<NewOrder>,
    held: Seq<Order>,
    n: int,
    now: Stamp,
    added: Seq<Order>,
) -> bool {
    let fresh = new_among(patches, held, n);
    &&& added.len() == fresh.len()
    &&& forall|k: int|
        0 <= k < added.len() ==> 0 <= #[trigger] fresh[k] < n && made_of(
            patches[fresh[k]],
            now,
            added[k],
        )
}

/// Finds the first snapshot of the order `id`.
pub fn locate_patch(patches: &Vec<NewOrder>, id: i64) -> (at: usize)
    ensures
        at as int == first_id(patch_ids(patches@), id as int),
        at <= patches.len(),
        at < patches.len() ==> patches[at as int].order_id == id,
{
    let ghost ids = patch_ids(patches@);
    let mut i: usize = 0;
    while i < patches.len()
        invariant
            i <= patches.len(),
            ids == patch_ids(patches@),
            forall|j: int| 0 <= j < i ==> ids[j] != id,
        decreases patches.len() - i,
    {
        if patches[i].order_id == id {
            proof {
                lemma_first_id(ids, id as int, i as int);
            }
            return i;
        }
        i += 1;
    }
    proof {
        lemma_first_id(ids, id as int, i as int);
    }
    i
}

/// Finds the first stored order with the id `id`.
pub fn locate_order(orders: &Vec<Order>, id: i64) -> (at: usize)
    ensures
        at as int == first_id(held_ids(orders@), id as int),
        at <= orders.len(),
{
    let ghost ids = held_ids(orders@);
    let mut i: usize = 0;
    while i < orders.len()
        invariant
            i <= orders.len(),
            ids == held_ids(orders@),
            forall|j: int| 0 <= j < i ==> ids[j] != id,
        decreases orders.len() - i,
    {
        if orders[i].order_id == id {
            proof {
                lemma_first_id(ids, id as int, i as int);
            }
            return i;
        }
        i += 1;
    }
    proof {
        lemma_first_id(ids, id as int, i as int);
    }
    i
}

/// Takes in snapshots of orders. A stored order takes the remark of the
/// first snapshot with its id; the first snapshot of each positive id that
/// no stored order has makes a new record. The new records are handed back
/// in the order of their snapshots.
pub fn update_or_add(existing: &mut Vec<Order>, patches: &Vec<NewOrder>, now: Stamp) -> (added:
    Vec<Order>)
    ensures
        final(existing)@.len() == old(existing)@.len(),
        forall|i: int|
            0 <= i < old(existing)@.len() ==> {
                let at = first_id(patch_ids(patches@), (#[trigger] old(existing)@[i]).order_id as int);
                if 0 <= at < patches@.len() {
                    patched(old(existing)@[i], patches@[at], now, final(existing)@[i])
                } else {
                    final(existing)@[i] == old(existing)@[i]
                }
            },
        brought(patches@, old(existing)@, patches@.len() as int, now, added@),
{
    let mut added: Vec<Order> = Vec::new();
    let mut j: usize = 0;
    while j < patches.len()
        invariant
            j <= patches.len(),
            *existing == *old(existing),
            brought(patches@, old(existing)@, j as int, now, added@),
        decreases patches.len() - j,
    {
        let ghost before = new_among(patches@, old(existing)@, j as int);
        let ghost had = added@;
        let id = patches[j].order_id;
        if id > 0 && locate_order(existing, id) == existing.len() && locate_patch(patches, id)
            == j {
            added.push(Order::new(&patches[j], now));
            assert(brings_new(patches@, old(existing)@, j as int));
            assert(new_among(patches@, old(existing)@, j + 1) == before.push(j as int));
            assert forall|k: int| 0 <= k < added@.len() implies 0 <= #[trigger] before.push(
                j as int,
            )[k] < j + 1 && made_of(patches@[before.push(j as int)[k]], now, added@[k]) by {
                if k < had.len() {
                    assert(before.push(j as int)[k] == before[k]);
                    assert(added@[k] == had[k]);
                }
            }
        } else {
            assert(!brings_new(patches@, old(existing)@, j as int));
            assert(new_among(patches@, old(existing)@, j + 1) == before);
        }
        j += 1;
    }
    let mut i: usize = 0;
    while i < existing.len()
        invariant
            i <= existing.len(),
            existing@.len() == old(existing)@.len(),
            forall|m: int| i <= m < existing@.len() ==> existing@[m] == old(existing)@[m],
            forall|m: int|
                0 <= m < i ==> {
                    let at = first_id(patch_ids(patches@), (#[trigger] old(existing)@[m]).order_id as int);
                    if 0 <= at < patches@.len() {
                        patched(old(existing)@[m], patches@[at], now, existing@[m])
                    } else {
                        existing@[m] == old(existing)@[m]
                    }
                },
        decreases existing.len() - i,
    {
        let at = locate_patch(patches, existing[i].order_id);
        if at < patches.len() {
            let held = &existing[i];
            let lg_order_id = match &held.lg_order_id {
                Some(text) => Some(text.clone()),
                None => None,
            };
            let changed = Order {
                id: held.id,
                lg_order_id,
                weight: held.weight,
                used_stock: held.used_stock.clone(),
                created_at: held.created_at,
                updated_at: now,
                order_id: held.order_id,
                remark: patches[at].remark.clone(),
                product_num: held.product_num,
                item_num: held.item_num,
                products: held.products.clone(),
            };
            existing.set(i, changed);
        }
        i += 1;
    }
    added
}

/// Days after which the weight of an order is asked for.
pub const WEIGH_AFTER_DAYS: i64 = 3;

/// Days after which the weight of an order is no longer asked for.
pub const WEIGH_WITHIN_DAYS: i64 = 60;

/// The order is due for weighing: it has the provider's id and no weight
/// yet, was made more than `WEIGH_AFTER_DAYS` and no more than
/// `WEIGH_WITHIN_DAYS` days ago, and was last updated before today.
pub open spec fn due(order: Order, now: Stamp) -> bool {
    &&& order.weight == 0
    &&& order.lg_order_id.is_some()
    &&& older_than(order.created_at, now, WEIGH_AFTER_DAYS as int)
    &&& !older_than(order.created_at, now, WEIGH_WITHIN_DAYS as int)
    &&& order.updated_at.day < now.day
}

/// `at` is the index of the first order that is due, or the length where
/// none is.
pub open spec fn first_due_at(orders: Seq<Order>, now: Stamp, at: int) -> bool {
    &&& 0 <= at <= orders.len()
    &&& at < orders.len() ==> due(orders[at], now)
    &&& forall|j: int| 0 <= j < at ==> !due(#[trigger] orders[j], now)
}

/// Index of the first order that is due; the length where none is.
pub open spec fn first_due(orders: Seq<Order>, now: Stamp) -> int {
    choose|at: int| first_due_at(orders, now, at)
}

/// There is exactly one first order that is due.
pub proof fn lemma_first_due(orders: Seq<Order>, now: Stamp, at: int)
    requires
        first_due_at(orders, now, at),
    ensures
        first_due(orders, now) == at,
{
    let chosen = first_due(orders, now);
    assert(first_due_at(orders, now, chosen));
    if chosen < at {
        assert(!due(orders[chosen], now));
    } else if at < chosen {
        assert(!due(orders[at], now));
    }
}

/// The address at which the next weight is fetched: that of the first order
/// that is due, made from `pattern` by writing the provider's id in place of
/// `{LG_ORDER_ID}`. `None` where all the orders are done for today.
pub fn next(orders: &Vec<Order>, pattern: &str, now: Stamp) -> (address: Option<String>)
    ensures
        match address {
            Some(url) => {
                &&& first_due(orders@, now) < orders@.len()
                &&& orders@[first_due(orders@, now)].lg_order_id matches Some(id)
                &&& url@ == replaced(pattern@, "{LG_ORDER_ID}"@, id@)
            },
            None => first_due(orders@, now) == orders@.len(),
        },
{
    let mut i: usize = 0;
    while i < orders.len()
        invariant
            i <= orders.len(),
            forall|j: int| 0 <= j < i ==> !due(#[trigger] orders@[j], now),
        decreases orders.len() - i,
    {
        let order = &orders[i];
        if order.weight == 0 && is_older_than(order.created_at, now, WEIGH_AFTER_DAYS)
            && !is_older_than(order.created_at, now, WEIGH_WITHIN_DAYS) && order.updated_at.day
            < now.day {
            match &order.lg_order_id {
                Some(id) => {
                    proof {
                        lemma_first_due(orders@, now, i as int);
                    }
                    return Some(replace_all(pattern, "{LG_ORDER_ID}", id.as_str()));
                },
                None => {},
            }
        }
        i += 1;
    }
    proof {
        lemma_first_due(orders@, now, i as int);
    }
    None
}

/// An order has outlived its days of grace and can be purged.
pub fn is_purgeable(order: &Order, now: Stamp) -> (purge: bool)
    ensures
        purge == older_than(order.created_at, now, GRACE_DAYS as int),
{
    is_older_than(order.created_at, now, GRACE_DAYS)
}

/// The search shows the order: the order id that the search names is the
/// order's, and the numeral of the product id that it names occurs in the
/// text of the order's products. An id of 0 or less names nothing.
pub open spec fn shown_by(search: SOReq, order: Order) -> bool {
    &&& search.order_id > 0 ==> order.order_id == search.order_id
    &&& search.product_id > 0 ==> occurs_in(
        order.products@,
        decimal_text(search.product_id as int),
    )
}

/// Tells whether the search shows the order.
pub fn admin_order_show(search: &SOReq, order: &Order) -> (shown: bool)
    ensures
        shown == shown_by(*search, *order),
{
    if search.order_id > 0 && order.order_id != search.order_id {
        return false;
    }
    if search.product_id > 0 {
        let numeral = decimal(search.product_id);
        return has_part(order.products.as_str(), numeral.as_str());
    }
    true
}

} // verus!
