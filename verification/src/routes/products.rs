//! Operations on products.

use vstd::prelude::*;
use vstd::string::*;
use crate::json::{
    counts_json, groups_of, json_at, json_counts, parse_counts, render_counts, value_at, Group,
};
use crate::import::{figures_for, sample_for, ImportRow};
use crate::ledger::{merged, recent, sample_fits, sum_sales, sum_visitors, Merge};
use crate::models::{
    is_older_than, older_than, ImportPolicy, Offer, Order, Product, Stamp, GRACE_DAYS, MONTH,
};
use crate::arith::{divide, lemma_trunc_div_bounds, trunc_div};
use crate::routes::{offset_of, page_of, per_page_of, window, Window, ANY_PENDING};
use crate::stock::{count_units, shortage, stock_less, stock_total, take_stock, units_fit};
use crate::text::{upper, uppercase};
use crate::tips::{retain_sticky, sticky_only, CLEAR, DRAFT};
use crate::types::{AeError, Failure};

verus! {

/// Largest discount in percent that an operator can give a product.
pub const MAX_DISCOUNT: i64 = 50;

/// Most products that one request can ask for by their ids.
pub const MAX_IDS: usize = 100;

/// Stock wanted for an order: `quantity` units of the SKU named by colour
/// and size, of the product with the surrogate id `id`; `stk` is the note of
/// the usage that the order keeps.
#[derive(Debug)]
pub struct UseStock {
    pub id: i64,
    pub sku: [String; 2],
    pub quantity: i64,
    pub order_id: i64,
    pub stk: String,
}

/// A search for products, page by page.
#[derive(Debug)]
pub struct SOReq {
    pub page: i64,
    pub per_page: i64,
    pub offer_id: i64,
    pub product_id: i64,
    pub inited_weight: i64,
    pub pending: i64,
    pub deleted: bool,
}

/// New tips for a product.
#[derive(Debug)]
pub struct PTReq {
    pub id: i64,
    pub tips: String,
}

/// New stock or sold units for a product: `column` names which, `info` is
/// their JSON text by colour and size.
#[derive(Debug)]
pub struct UpInfo {
    pub id: i64,
    pub column: String,
    pub info: String,
}

impl SOReq {
    /// The page to show of the `total` products that the search finds.
    pub fn window(&self, total: i64) -> (shown: Window)
        ensures
            shown.page == page_of(self.page as int, self.per_page as int, total as int),
            shown.per_page == per_page_of(self.per_page as int),
            shown.offset == offset_of(self.page as int, self.per_page as int, total as int),
    {
        window(self.page, self.per_page, total)
    }
}

/// Why the wanted units cannot be reserved, if they cannot: what `shortage`
/// says of the stock, or a stock count that would leave its range.
pub open spec fn refusal(
    stock: Seq<(Seq<char>, Seq<(Seq<char>, int)>)>,
    first: Seq<char>,
    second: Seq<char>,
    quantity: int,
    stock_count: int,
) -> Option<Failure> {
    match shortage(stock, first, second, quantity) {
        Some(failure) => Some(failure),
        None => if i64::MIN <= stock_count - quantity <= i64::MAX {
            None
        } else {
            Some(Failure::OutOfRange)
        },
    }
}

/// Reserves stock in a stock that has been read: the wanted units leave
/// their SKU and the count of the whole stock. Refuses, and says why, where
/// the SKU is not recorded, holds too little, or a figure would leave its
/// range.
pub fn reserve(
    stock: Vec<Group>,
    stock_count: i64,
    first: &String,
    second: &String,
    quantity: i64,
) -> (result: Result<(Vec<Group>, i64), Failure>)
    ensures
        match result {
            Ok((rest, count)) => {
                &&& refusal(
                    groups_of(stock@),
                    first@,
                    second@,
                    quantity as int,
                    stock_count as int,
                ).is_none()
                &&& groups_of(rest@) == stock_less(
                    groups_of(stock@),
                    first@,
                    second@,
                    quantity as int,
                )
                &&& count == stock_count - quantity
            },
            Err(failure) => refusal(
                groups_of(stock@),
                first@,
                second@,
                quantity as int,
                stock_count as int,
            ) == Some(failure),
        },
{
    let mut rest = stock;
    match take_stock(&mut rest, first, second, quantity) {
        Ok(()) => {},
        Err(failure) => {
            return Err(failure);
        },
    }
    match stock_count.checked_sub(quantity) {
        Some(count) => Ok((rest, count)),
        None => Err(Failure::OutOfRange),
    }
}

/// Reserves stock for an order. The stock text and both keys of the wanted
/// SKU are upper-cased before the SKU is looked up. Where the units are
/// there, they leave the SKU's stock and the stock count, and the order
/// keeps the note of the usage: all three together. The operation fails
/// where the stock text cannot be read or the units are refused, and
/// nowhere else; product and order then stay as they were.
pub fn ship_use_stock(product: &mut Product, order: &mut Order, want: &UseStock, now: Stamp) -> (result:
    Result<(), AeError>)
    ensures
        result is Err ==> *final(product) == *old(product) && *final(order) == *old(order),
        match json_counts(uppercase(old(product).stock_info@)) {
            None => result == Err::<(), AeError>(AeError(Failure::Malformed)),
            Some(stock) => match refusal(
                stock,
                uppercase(want.sku[0]@),
                uppercase(want.sku[1]@),
                want.quantity as int,
                old(product).stock_count as int,
            ) {
                Some(failure) => result == Err::<(), AeError>(AeError(failure)),
                None => {
                        &&& result is Ok
                        &&& final(product).stock_info@ == counts_json(
                            stock_less(
                                stock,
                                uppercase(want.sku[0]@),
                                uppercase(want.sku[1]@),
                                want.quantity as int,
                            ),
                        )
                        &&& final(product).stock_count == old(product).stock_count
                            - want.quantity
                        &&& final(product).updated_at == now
                        &&& final(order).used_stock@ == want.stk@
                        &&& *final(product) == (Product {
                            stock_info: final(product).stock_info,
                            stock_count: final(product).stock_count,
                            updated_at: final(product).updated_at,
                            ..*old(product)
                        })
                        &&& *final(order) == (Order {
                            used_stock: final(order).used_stock,
                            ..*old(order)
                        })
                },
            },
        },
{
    let first = upper(want.sku[0].as_str());
    let second = upper(want.sku[1].as_str());
    let raised = upper(product.stock_info.as_str());
    let stock = match parse_counts(raised.as_str()) {
        Ok(stock) => stock,
        Err(_) => {
            return Err(AeError(Failure::Malformed));
        },
    };
    let (rest, count) = match reserve(stock, product.stock_count, &first, &second, want.quantity) {
        Ok(reserved) => reserved,
        Err(failure) => {
            return Err(AeError(failure));
        },
    };
    let text = render_counts(&rest).unwrap();
    product.stock_info = text;
    product.stock_count = count;
    product.updated_at = now;
    order.used_stock = want.stk.clone();
    Ok(())
}

/// The operator writes the stock or the sold units of a product. The column
/// is checked first, then the text is read, and the count of the column is
/// the sum of all its units.
pub fn admin_product_update_info(product: &mut Product, req: &UpInfo) -> (result: Result<
    (),
    AeError,
>)
    ensures
        result is Err ==> *final(product) == *old(product),
        result == if req.column@ != "sale_info"@ && req.column@ != "stock_info"@ {
            Err::<(), AeError>(AeError(Failure::InvalidColumn))
        } else {
            match json_counts(req.info@) {
                None => Err(AeError(Failure::Malformed)),
                Some(units) => if units_fit(units) {
                    Ok(())
                } else {
                    Err(AeError(Failure::OutOfRange))
                },
            }
        },
        result is Ok ==> {
            &&& json_counts(req.info@) matches Some(units)
            &&& if req.column@ == "sale_info"@ {
                &&& final(product).sale_info@ == req.info@
                &&& final(product).sale_count == stock_total(units)
                &&& *final(product) == (Product {
                    sale_info: final(product).sale_info,
                    sale_count: final(product).sale_count,
                    ..*old(product)
                })
            } else {
                &&& final(product).stock_info@ == req.info@
                &&& final(product).stock_count == stock_total(units)
                &&& *final(product) == (Product {
                    stock_info: final(product).stock_info,
                    stock_count: final(product).stock_count,
                    ..*old(product)
                })
            }
        },
{
    let sales = req.column == String::from_str("sale_info");
    let stock = req.column == String::from_str("stock_info");
    if !sales && !stock {
        return Err(AeError(Failure::InvalidColumn));
    }
    let units = match parse_counts(req.info.as_str()) {
        Ok(units) => units,
        Err(_) => {
            return Err(AeError(Failure::Malformed));
        },
    };
    let count = match count_units(&units) {
        Some(count) => count,
        None => {
            return Err(AeError(Failure::OutOfRange));
        },
    };
    if sales {
        product.sale_info = req.info.clone();
        product.sale_count = count;
    } else {
        product.stock_info = req.info.clone();
        product.stock_count = count;
    }
    Ok(())
}

/// The operator gives a product a discount: what is asked for, but no more
/// than `MAX_DISCOUNT`.
pub fn admin_product_discount(product: &mut Product, discount: i64)
    ensures
        final(product).discount == if discount > MAX_DISCOUNT {
            MAX_DISCOUNT
        } else {
            discount
        },
        *final(product) == (Product { discount: final(product).discount, ..*old(product) }),
{
    product.discount = if discount > MAX_DISCOUNT {
        MAX_DISCOUNT
    } else {
        discount
    };
}

/// The operator sets the review flag of a product. Setting it to clear
/// keeps the sticky tips alone; any other flag is stored as it is.
pub fn admin_product_pending(product: &mut Product, pending: i64)
    ensures
        final(product).pending == pending,
        final(product).tips@ == if pending == CLEAR {
            sticky_only(old(product).tips@)
        } else {
            old(product).tips@
        },
        *final(product) == (Product {
            pending: final(product).pending,
            tips: final(product).tips,
            ..*old(product)
        }),
{
    if pending == CLEAR {
        product.tips = retain_sticky(product.tips.as_str());
    }
    product.pending = pending;
}

/// The operator says whether the weight of a product has been entered.
pub fn admin_product_inited_weight(product: &mut Product, inited: bool)
    ensures
        final(product).inited_weight == if inited {
            1i64
        } else {
            0i64
        },
        *final(product) == (Product {
            inited_weight: final(product).inited_weight,
            ..*old(product)
        }),
{
    product.inited_weight = if inited {
        1
    } else {
        0
    };
}

/// The operator deletes a product, or takes the deletion back.
pub fn admin_product_delete(product: &mut Product, deleted: bool, now: Stamp)
    ensures
        final(product).deleted_at == if deleted {
            Some(now)
        } else {
            None
        },
        *final(product) == (Product { deleted_at: final(product).deleted_at, ..*old(product) }),
{
    product.deleted_at = if deleted {
        Some(now)
    } else {
        None
    };
}

/// The operator writes the tips of a product.
pub fn admin_product_tips(product: &mut Product, req: &PTReq)
    ensures
        final(product).tips@ == req.tips@,
        *final(product) == (Product {
            tips: final(product).tips,
            ..*old(product)
        }),
{
    product.tips = req.tips.clone();
}

/// The operator links a product to an offer; 0 takes the link away.
pub fn admin_product_oid(product: &mut Product, offer_id: i64)
    ensures
        final(product).offer_id == offer_id,
        *final(product) == (Product {
            offer_id: final(product).offer_id,
            ..*old(product)
        }),
{
    product.offer_id = offer_id;
}

/// The operator empties the stock text of a product, so that the next
/// snapshot seeds it anew.
pub fn admin_product_clear_stock_info(product: &mut Product)
    ensures
        final(product).stock_info@.len() == 0,
        *final(product) == (Product {
            stock_info: final(product).stock_info,
            ..*old(product)
        }),
{
    product.stock_info = String::new();
}

/// Makes a draft available: a product that is a draft and not deleted
/// becomes clear, and every other product stays as it is.
pub fn admin_product_available(product: &mut Product)
    ensures
        final(product).pending == if old(product).pending == DRAFT && old(
            product,
        ).deleted_at.is_none() {
            CLEAR
        } else {
            old(product).pending
        },
        *final(product) == (Product { pending: final(product).pending, ..*old(product) }),
{
    if product.pending == DRAFT && product.deleted_at.is_none() {
        product.pending = CLEAR;
    }
}

/// Whether a request for products by their ids is answered: it names at
/// least one id and at most `MAX_IDS`.
pub fn accepts_ids(product_ids: &Vec<i64>) -> (answered: bool)
    ensures
        answered == (0 < product_ids@.len() <= MAX_IDS),
{
    product_ids.len() > 0 && product_ids.len() <= MAX_IDS
}

/// What a product's page shows of one of its offers.
#[derive(Debug)]
pub struct Of {
    pub offer_id: i64,
    pub better_price: i64,
    pub model_id: String,
    pub supplier: String,
    /// A cross for a deleted offer, else nothing.
    pub del: String,
    /// JSON text of the colours among the accepted SKU data.
    pub sku_props_colors: String,
}

/// The text writes a JSON list.
pub open spec fn is_list(text: Seq<char>) -> bool {
    text.len() > 0 && text[0] == '['
}

/// The colours among SKU data: the JSON text of the values of the first of
/// the listed properties; `null` where the data list no properties or the
/// first has no values; and `None` where the data are no JSON text.
pub open spec fn colors_in(sku_info: Seq<char>) -> Option<Seq<char>> {
    match json_at(sku_info, "/skuProps"@) {
        None => None,
        Some(None) => Some("null"@),
        Some(Some(props)) => if is_list(props) {
            match json_at(sku_info, "/skuProps/0/value"@) {
                None => None,
                Some(None) => Some("null"@),
                Some(Some(colors)) => Some(colors),
            }
        } else {
            Some("null"@)
        },
    }
}

/// `shown` is what a product's page shows of `offer`.
pub open spec fn shows(offer: Offer, shown: Of) -> bool {
    &&& shown.offer_id == offer.offer_id
    &&& shown.better_price == offer.better_price
    &&& shown.model_id@ == offer.model_id@
    &&& shown.supplier@ == offer.supplier@
    &&& shown.del@ == if offer.deleted_at.is_some() {
        "❌"@
    } else {
        ""@
    }
    &&& Some(shown.sku_props_colors@) == colors_in(offer.sku_info_use@)
}

/// The indices of the first `n` offers that are linked to the product, in
/// ascending order.
pub open spec fn linked(offers: Seq<Offer>, product_id: int, n: int) -> Seq<int>
    decreases n,
{
    if n <= 0 {
        Seq::empty()
    } else if offers[n - 1].product_id == product_id {
        linked(offers, product_id, n - 1).push(n - 1)
    } else {
        linked(offers, product_id, n - 1)
    }
}

/// `shown` holds what the product's page shows of each of the first `n`
/// offers that are linked to it, in their order.
pub open spec fn shows_linked(offers: Seq<Offer>, product_id: int, n: int, shown: Seq<Of>) -> bool {
    let of = linked(offers, product_id, n);
    &&& shown.len() == of.len()
    &&& forall|k: int|
        0 <= k < shown.len() ==> 0 <= #[trigger] of[k] < n && shows(offers[of[k]], shown[k])
}

/// Sums up an offer for a product's page. `None` where its accepted SKU data
/// are no JSON text.
pub fn sum_up(offer: &Offer) -> (shown: Option<Of>)
    ensures
        match shown {
            Some(of) => shows(*offer, of),
            None => colors_in(offer.sku_info_use@).is_none(),
        },
{
    let listed = match value_at(offer.sku_info_use.as_str(), "/skuProps") {
        None => {
            return None;
        },
        Some(None) => false,
        Some(Some(props)) => props.as_str().unicode_len() > 0 && props.as_str().get_char(0)
            == '[',
    };
    let colors = if listed {
        match value_at(offer.sku_info_use.as_str(), "/skuProps/0/value") {
            None => {
                return None;
            },
            Some(None) => String::from_str("null"),
            Some(Some(colors)) => colors,
        }
    } else {
        String::from_str("null")
    };
    let del = if offer.deleted_at.is_some() {
        String::from_str("❌")
    } else {
        String::from_str("")
    };
    Some(
        Of {
            offer_id: offer.offer_id,
            better_price: offer.better_price,
            model_id: offer.model_id.clone(),
            supplier: offer.supplier.clone(),
            del,
            sku_props_colors: colors,
        },
    )
}

/// Sums up the offers of one product, in their order. Refused where the
/// accepted SKU data of one of them are no JSON text.
pub fn offers_of(offers: &Vec<Offer>, product_id: i64) -> (result: Result<Vec<Of>, AeError>)
    ensures
        match result {
            Ok(shown) => shows_linked(offers@, product_id as int, offers@.len() as int, shown@),
            Err(e) => e == AeError(Failure::Malformed) && exists|i: int|
                0 <= i < offers@.len() && (#[trigger] offers@[i]).product_id == product_id
                    && colors_in(offers@[i].sku_info_use@).is_none(),
        },
{
    let mut shown: Vec<Of> = Vec::new();
    let mut i: usize = 0;
    while i < offers.len()
        invariant
            i <= offers.len(),
            shows_linked(offers@, product_id as int, i as int, shown@),
        decreases offers.len() - i,
    {
        let ghost before = linked(offers@, product_id as int, i as int);
        let ghost had = shown@;
        if offers[i].product_id == product_id {
            match sum_up(&offers[i]) {
                Some(of) => {
                    shown.push(of);
                },
                None => {
                    return Err(AeError(Failure::Malformed));
                },
            }
            proof {
                let of = before.push(i as int);
                assert(linked(offers@, product_id as int, i + 1) == of);
                assert forall|k: int| 0 <= k < shown@.len() implies 0 <= #[trigger] of[k] < i + 1
                    && shows(offers@[of[k]], shown@[k]) by {
                    if k < had.len() {
                        assert(of[k] == before[k]);
                        assert(shown@[k] == had[k]);
                    }
                }
            }
        } else {
            assert(linked(offers@, product_id as int, i + 1) == before);
        }
        i += 1;
    }
    Ok(shown)
}

/// The accepted SKU data of an offer that is linked to one of the products
/// are no JSON text.
pub open spec fn unreadable(products: Seq<Product>, offers: Seq<Offer>) -> bool {
    exists|p: int, i: int|
        0 <= p < products.len() && 0 <= i < offers.len() && (#[trigger] offers[i]).product_id == (
        #[trigger] products[p]).product_id && colors_in(offers[i].sku_info_use@).is_none()
}

/// Puts each product together with what its page shows of its offers,
/// products and offers in their order. Refused where the accepted SKU data
/// of a linked offer are no JSON text.
pub fn products_from_ids(products: Vec<Product>, offers: &Vec<Offer>) -> (result: Result<
    Vec<(Product, Vec<Of>)>,
    AeError,
>)
    ensures
        match result {
            Ok(pages) => {
                &&& pages@.len() == products@.len()
                &&& forall|i: int|
                    0 <= i < pages@.len() ==> (#[trigger] pages@[i]).0 == products@[i]
                        && shows_linked(
                        offers@,
                        products@[i].product_id as int,
                        offers@.len() as int,
                        pages@[i].1@,
                    )
            },
            Err(e) => e == AeError(Failure::Malformed) && unreadable(products@, offers@),
        },
{
    let mut pages: Vec<(Product, Vec<Of>)> = Vec::new();
    let mut rest = products;
    let ghost all = products@;
    let mut turned: Vec<Product> = Vec::new();
    while rest.len() > 0
        invariant
            rest@.len() + turned@.len() == all.len(),
            forall|i: int| 0 <= i < rest@.len() ==> rest@[i] == all[i],
            forall|i: int|
                0 <= i < turned@.len() ==> turned@[i] == all[all.len() - 1 - i],
        decreases rest.len(),
    {
        let product = rest.pop().unwrap();
        turned.push(product);
    }
    while turned.len() > 0
        invariant
            pages@.len() + turned@.len() == all.len(),
            forall|i: int|
                0 <= i < turned@.len() ==> turned@[i] == all[all.len() - 1 - i],
            all == products@,
            forall|i: int|
                0 <= i < pages@.len() ==> (#[trigger] pages@[i]).0 == all[i] && shows_linked(
                    offers@,
                    all[i].product_id as int,
                    offers@.len() as int,
                    pages@[i].1@,
                ),
        decreases turned.len(),
    {
        let ghost at = all.len() - turned@.len();
        let product = turned.pop().unwrap();
        assert(product == all[at]);
        let shown = match offers_of(offers, product.product_id) {
            Ok(shown) => shown,
            Err(e) => {
                proof {
                    let i = choose|i: int|
                        0 <= i < offers@.len() && (#[trigger] offers@[i]).product_id
                            == product.product_id && colors_in(offers@[i].sku_info_use@).is_none();
                    assert(offers@[i].product_id == all[at].product_id);
                }
                return Err(e);
            },
        };
        pages.push((product, shown));
    }
    Ok(pages)
}

/// Takes the sheet of one day into a product: the product's figures on the
/// sheet become the day's sample, as `Product::record_sample` takes it in,
/// and the result is `true`. A deleted product takes in nothing: it stays as
/// it is and the result is `false`. Refused, with nothing changed, where a
/// figure is beyond what a sample holds.
pub fn admin_product_upload_xlsx(
    product: &mut Product,
    rows: &Vec<ImportRow>,
    day: i32,
    policy: &ImportPolicy,
    now: Stamp,
) -> (result: Result<bool, AeError>)
    requires
        old(product).wf(),
    ensures
        final(product).wf(),
        result == if old(product).deleted_at.is_some() {
            Ok::<bool, AeError>(false)
        } else if sample_fits(figures_for(rows@, old(product).product_id as int, day)) {
            Ok(true)
        } else {
            Err(AeError(Failure::OutOfRange))
        },
        result != Ok::<bool, AeError>(true) ==> *final(product) == *old(product),
        result == Ok::<bool, AeError>(true) ==> {
            &&& final(product).sale_record.samples@ == merged(
                old(product).sale_record.samples@,
                figures_for(rows@, old(product).product_id as int, day),
                Merge::Keep,
            )
            &&& final(product).uv30 == sum_visitors(
                recent(final(product).sale_record.samples@, MONTH as int),
            )
            &&& final(product).sales30 == sum_sales(
                recent(final(product).sale_record.samples@, MONTH as int),
            )
            &&& final(product).updated_at == now
            &&& final(product).pending == if older_than(
                old(product).created_at,
                now,
                policy.analysis_before as int,
            ) && final(product).uv30 < policy.unpublish_barrier_uv30 {
                DRAFT
            } else {
                old(product).pending
            }
            &&& final(product).sale_record.remaining == old(product).sale_record.remaining
            &&& *final(product) == (Product {
                sale_record: final(product).sale_record,
                uv30: final(product).uv30,
                sales30: final(product).sales30,
                updated_at: final(product).updated_at,
                pending: final(product).pending,
                ..*old(product)
            })
        },
{
    if product.deleted_at.is_some() {
        return Ok(false);
    }
    match sample_for(rows, product.product_id, day) {
        Some(sample) => {
            product.record_sample(sample, policy, now);
            Ok(true)
        },
        None => Err(AeError(Failure::OutOfRange)),
    }
}

/// Largest magnitude of a discount in percent that the export works with.
pub const DISCOUNT_LIMIT: i64 = 1_000_000;

/// All three discounts are within the limit.
pub open spec fn discounts_fit(base: int, adjust: int, default_discount: int) -> bool {
    &&& -DISCOUNT_LIMIT <= base <= DISCOUNT_LIMIT
    &&& -DISCOUNT_LIMIT <= adjust <= DISCOUNT_LIMIT
    &&& -DISCOUNT_LIMIT <= default_discount <= DISCOUNT_LIMIT
}

/// The discount in percent that the export lists for a product: what the
/// offer's discount, the product's own and the default one leave of the
/// price when they are applied one after the other, taken from 100; the
/// division drops the remainder toward zero.
pub open spec fn listed_discount(base: int, adjust: int, default_discount: int) -> int {
    100 - trunc_div((100 - base) * (100 - adjust) * (100 - default_discount), 10000)
}

/// Computes the discount that the export lists. `None` where a discount is
/// beyond `DISCOUNT_LIMIT`.
pub fn admin_product_dl_discount_xslx(base: i64, adjust: i64, default_discount: i64) -> (listed:
    Option<i64>)
    ensures
        listed == if discounts_fit(base as int, adjust as int, default_discount as int) {
            Some(listed_discount(base as int, adjust as int, default_discount as int) as i64)
        } else {
            None
        },
{
    if base < -DISCOUNT_LIMIT || base > DISCOUNT_LIMIT || adjust < -DISCOUNT_LIMIT || adjust
        > DISCOUNT_LIMIT || default_discount < -DISCOUNT_LIMIT || default_discount
        > DISCOUNT_LIMIT {
        return None;
    }
    let a: i64 = 100 - base;
    let b: i64 = 100 - adjust;
    let c: i64 = 100 - default_discount;
    assert(-1_000_100 * 1_000_100 <= a * b <= 1_000_100 * 1_000_100) by (nonlinear_arith)
        requires
            -1_000_100 <= a <= 1_000_100,
            -1_000_100 <= b <= 1_000_100,
    ;
    let ab: i64 = a * b;
    assert(-1_000_100 * 1_000_100 * 1_000_100 <= ab * c <= 1_000_100 * 1_000_100 * 1_000_100)
        by (nonlinear_arith)
        requires
            -1_000_100 * 1_000_100 <= ab <= 1_000_100 * 1_000_100,
            -1_000_100 <= c <= 1_000_100,
    ;
    let left: i64 = ab * c;
    let off: i128 = divide(left, 10000);
    assert(-0x8000_0000_0000_0000 <= off <= 0x8000_0000_0000_0000);
    assert(-1_000_100 * 1_000_100 * 1_000_100 <= off <= 1_000_100 * 1_000_100 * 1_000_100) by {
        lemma_trunc_div_bounds(left as int, 10000);
    }
    Some((100 - off) as i64)
}

/// A deleted product has outlived its days of grace and can be purged.
pub fn is_purgeable(product: &Product, now: Stamp) -> (purge: bool)
    ensures
        purge == match product.deleted_at {
            Some(deleted) => older_than(deleted, now, GRACE_DAYS as int),
            None => false,
        },
{
    match product.deleted_at {
        Some(deleted) => is_older_than(deleted, now, GRACE_DAYS),
        None => false,
    }
}

/// The search shows the product: each id and flag that the search names is
/// the product's, and the product is deleted exactly where the search asks
/// for deleted ones. An id of 0 or less, a negative weight mark and the flag
/// `ANY_PENDING` name nothing.
pub open spec fn shown_by(search: SOReq, product: Product) -> bool {
    &&& search.offer_id > 0 ==> product.offer_id == search.offer_id
    &&& search.product_id > 0 ==> product.product_id == search.product_id
    &&& search.inited_weight > -1 ==> product.inited_weight == search.inited_weight
    &&& search.pending != ANY_PENDING ==> product.pending == search.pending
    &&& search.deleted == product.deleted_at.is_some()
}

/// Tells whether the search shows the product.
pub fn admin_product_show(search: &SOReq, product: &Product) -> (shown: bool)
    ensures
        shown == shown_by(*search, *product),
{
    if search.offer_id > 0 && product.offer_id != search.offer_id {
        return false;
    }
    if search.product_id > 0 && product.product_id != search.product_id {
        return false;
    }
    if search.inited_weight > -1 && product.inited_weight != search.inited_weight {
        return false;
    }
    if search.pending != ANY_PENDING && product.pending != search.pending {
        return false;
    }
    search.deleted == product.deleted_at.is_some()
}

} // verus!
