//! Operations on offers.

use vstd::prelude::*;
use vstd::string::*;
use crate::pattern::{first_match, regex_first};
use crate::models::{is_older_than, older_than, Offer, Stamp, GRACE_DAYS};
use crate::text::{decimal, decimal_text, replace_all, replaced, trim, trimmed};
use crate::tips::{sticky_only, CLEAR, NEEDS_REVIEW};
use crate::routes::{offset_of, page_of, per_page_of, window, Window, ANY_PENDING};

verus! {

/// A search for offers, page by page.
#[derive(Debug)]
pub struct SOReq {
    pub page: i64,
    pub per_page: i64,
    pub offer_id: i64,
    pub product_id: i64,
    pub model_id: String,
    pub supplier: String,
    pub pending: i64,
    pub deleted: bool,
}

/// New tips for an offer.
#[derive(Debug)]
pub struct OTReq {
    pub id: i64,
    pub tips: String,
}

impl SOReq {
    /// The page to show of the `total` offers that the search finds.
    pub fn window(&self, total: i64) -> (shown: Window)
        ensures
            shown.page == page_of(self.page as int, self.per_page as int, total as int),
            shown.per_page == per_page_of(self.per_page as int),
            shown.offset == offset_of(self.page as int, self.per_page as int, total as int),
    {
        window(self.page, self.per_page, total)
    }
}

/// The operator sets the review flag of an offer; see `Offer::set_pending`.
pub fn admin_offer_pending(offer: &mut Offer, pending: i64)
    ensures
        final(offer).pending == pending,
        final(offer).tips@ == if pending == CLEAR {
            sticky_only(old(offer).tips@)
        } else {
            old(offer).tips@
        },
        final(offer).sku_info_use@ == if pending == CLEAR {
            old(offer).sku_info@
        } else {
            old(offer).sku_info_use@
        },
        final(offer).detail_url_use@ == if pending == CLEAR {
            old(offer).detail_url@
        } else {
            old(offer).detail_url_use@
        },
        *final(offer) == (Offer {
            pending: final(offer).pending,
            tips: final(offer).tips,
            sku_info_use: final(offer).sku_info_use,
            detail_url_use: final(offer).detail_url_use,
            ..*old(offer)
        }),
{
    offer.set_pending(pending);
}

/// The operator deletes an offer, or takes the deletion back. A deleted
/// offer keeps all its data and carries the time of its deletion.
pub fn admin_offer_delete(offer: &mut Offer, deleted: bool, now: Stamp)
    ensures
        final(offer).deleted_at == if deleted {
            Some(now)
        } else {
            None
        },
        *final(offer) == (Offer { deleted_at: final(offer).deleted_at, ..*old(offer) }),
{
    offer.deleted_at = if deleted {
        Some(now)
    } else {
        None
    };
}

/// The operator writes the tips of an offer.
pub fn admin_offer_tips(offer: &mut Offer, req: &OTReq)
    ensures
        final(offer).tips@ == req.tips@,
        *final(offer) == (Offer {
            tips: final(offer).tips,
            ..*old(offer)
        }),
{
    offer.tips = req.tips.clone();
}

/// The operator links an offer to a product; 0 takes the link away.
pub fn admin_offer_pid(offer: &mut Offer, product_id: i64)
    ensures
        final(offer).product_id == product_id,
        *final(offer) == (Offer {
            product_id: final(offer).product_id,
            ..*old(offer)
        }),
{
    offer.product_id = product_id;
}

/// The operator names the model of an offer.
pub fn admin_offer_mid(offer: &mut Offer, model_id: String)
    ensures
        final(offer).model_id == model_id,
        *final(offer) == (Offer {
            model_id: final(offer).model_id,
            ..*old(offer)
        }),
{
    offer.model_id = model_id;
}

/// The tips hold nothing but one note on a changed better price, with
/// discounts of one or two digits: the `regex` crate finds a match for the
/// pattern of such a note, which spans the whole text.
pub open spec fn only_a_small_price_change(tips: Seq<char>) -> bool {
    regex_first("^\\d{1,2} => \\d{1,2} 折扣价变更;$"@, tips) matches Some(Some(_))
}

/// The offer is accepted without a look: it needs review, is not deleted,
/// and its tips hold nothing but a small change of the better price.
pub open spec fn accepted_unseen(offer: Offer) -> bool {
    &&& offer.pending == NEEDS_REVIEW
    &&& offer.deleted_at.is_none()
    &&& only_a_small_price_change(offer.tips@)
}

/// Accepts an offer whose only change is a small change of the better
/// price: its flag becomes clear and its tips empty. Every other offer
/// stays as it is.
pub fn all_better_price_chnage_is_ok(offer: &mut Offer) -> (accepted: bool)
    ensures
        accepted == accepted_unseen(*old(offer)),
        !accepted ==> *final(offer) == *old(offer),
        accepted ==> {
            &&& final(offer).pending == CLEAR
            &&& final(offer).tips@.len() == 0
            &&& *final(offer) == (Offer {
                pending: final(offer).pending,
                tips: final(offer).tips,
                ..*old(offer)
            })
        },
{
    if offer.pending != NEEDS_REVIEW || offer.deleted_at.is_some() {
        return false;
    }
    match first_match("^\\d{1,2} => \\d{1,2} 折扣价变更;$", offer.tips.as_str()) {
        Some(Some(_)) => {
            offer.pending = CLEAR;
            offer.tips = String::new();
            true
        },
        _ => false,
    }
}

/// The offer is due for a new snapshot: it was last updated before today,
/// is not deleted and is linked to a product.
pub open spec fn due(offer: Offer, now: Stamp) -> bool {
    &&& offer.updated_at.day < now.day
    &&& offer.deleted_at.is_none()
    &&& offer.product_id > 0
}

/// `at` is the index of the first offer that is due, or the length where
/// none is.
pub open spec fn first_due_at(offers: Seq<Offer>, now: Stamp, at: int) -> bool {
    &&& 0 <= at <= offers.len()
    &&& at < offers.len() ==> due(offers[at], now)
    &&& forall|j: int| 0 <= j < at ==> !due(#[trigger] offers[j], now)
}

/// Index of the first offer that is due; the length where none is.
pub open spec fn first_due(offers: Seq<Offer>, now: Stamp) -> int {
    choose|at: int| first_due_at(offers, now, at)
}

/// There is exactly one first offer that is due.
pub proof fn lemma_first_due(offers: Seq<Offer>, now: Stamp, at: int)
    requires
        first_due_at(offers, now, at),
    ensures
        first_due(offers, now) == at,
{
    let chosen = first_due(offers, now);
    assert(first_due_at(offers, now, chosen));
    if chosen < at {
        assert(!due(offers[chosen], now));
    } else if at < chosen {
        assert(!due(offers[at], now));
    }
}

/// The address at which the next snapshot is fetched: that of the first
/// offer that is due, made from `pattern` by writing the offer's id in place
/// of `{OFFER_ID}`. `None` where all the offers are done for today.
pub fn next(offers: &Vec<Offer>, pattern: &str, now: Stamp) -> (address: Option<String>)
    ensures
        match address {
            Some(url) => first_due(offers@, now) < offers@.len() && url@ == replaced(
                pattern@,
                "{OFFER_ID}"@,
                decimal_text(offers@[first_due(offers@, now)].offer_id as int),
            ),
            None => first_due(offers@, now) == offers@.len(),
        },
{
    let mut i: usize = 0;
    while i < offers.len()
        invariant
            i <= offers.len(),
            forall|j: int| 0 <= j < i ==> !due(#[trigger] offers@[j], now),
        decreases offers.len() - i,
    {
        let offer = &offers[i];
        if offer.updated_at.day < now.day && offer.deleted_at.is_none() && offer.product_id > 0 {
            proof {
                lemma_first_due(offers@, now, i as int);
            }
            let id = decimal(offer.offer_id);
            return Some(replace_all(pattern, "{OFFER_ID}", id.as_str()));
        }
        i += 1;
    }
    proof {
        lemma_first_due(offers@, now, i as int);
    }
    None
}

/// A deleted offer has outlived its days of grace and can be purged.
pub fn is_purgeable(offer: &Offer, now: Stamp) -> (purge: bool)
    ensures
        purge == match offer.deleted_at {
            Some(deleted) => older_than(deleted, now, GRACE_DAYS as int),
            None => false,
        },
{
    match offer.deleted_at {
        Some(deleted) => is_older_than(deleted, now, GRACE_DAYS),
        None => false,
    }
}

/// The search shows the offer: each id, name and flag that the search
/// names is the offer's, and the offer is deleted exactly where the search
/// asks for deleted ones. An id of 0 or less, a blank name and the flag
/// `ANY_PENDING` name nothing.
pub open spec fn shown_by(search: SOReq, offer: Offer) -> bool {
    &&& search.offer_id > 0 ==> offer.offer_id == search.offer_id
    &&& search.product_id > 0 ==> offer.product_id == search.product_id
    &&& trimmed(search.model_id@).len() > 0 ==> offer.model_id@ == search.model_id@
    &&& trimmed(search.supplier@).len() > 0 ==> offer.supplier@ == search.supplier@
    &&& search.pending != ANY_PENDING ==> offer.pending == search.pending
    &&& search.deleted == offer.deleted_at.is_some()
}

/// Tells whether the search shows the offer.
pub fn admin_offers_show(search: &SOReq, offer: &Offer) -> (shown: bool)
    ensures
        shown == shown_by(*search, *offer),
{
    if search.offer_id > 0 && offer.offer_id != search.offer_id {
        return false;
    }
    if search.product_id > 0 && offer.product_id != search.product_id {
        return false;
    }
    if trim(search.model_id.as_str()).as_str().unicode_len() > 0 && offer.model_id
        != search.model_id {
        return false;
    }
    if trim(search.supplier.as_str()).as_str().unicode_len() > 0 && offer.supplier
        != search.supplier {
        return false;
    }
    if search.pending != ANY_PENDING && offer.pending != search.pending {
        return false;
    }
    search.deleted == offer.deleted_at.is_some()
}

} // verus!
