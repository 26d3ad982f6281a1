//! The stock ledger: units in stock by colour and size, and their
//! reservation for an order.

use vstd::prelude::*;
use crate::delta::{
    copy_entries, counts_of, find, first_at, lemma_position, lemma_position_is_first, locate,
    position, sum_counts, total, Entry,
};
use crate::json::{dimension, groups_of, locate_group, names_of, Group};
use crate::types::Failure;

verus! {

/// The units in stock of the size `second` of the colour `first`, where the
/// stock records that pair.
pub open spec fn in_stock(
    stock: Seq<(Seq<char>, Seq<(Seq<char>, int)>)>,
    first: Seq<char>,
    second: Seq<char>,
) -> Option<int> {
    match dimension(stock, first) {
        Some(sizes) => find(sizes, second),
        None => None,
    }
}

/// Why `quantity` units of a pair cannot be taken from the stock, if they
/// cannot: the pair is not recorded, the stock holds less, or the rest would
/// leave the range of a 64-bit counter.
pub open spec fn shortage(
    stock: Seq<(Seq<char>, Seq<(Seq<char>, int)>)>,
    first: Seq<char>,
    second: Seq<char>,
    quantity: int,
) -> Option<Failure> {
    match in_stock(stock, first, second) {
        None => Some(Failure::MissingSku),
        Some(units) => if units < quantity {
            Some(Failure::InsufficientStock)
        } else if units - quantity > i64::MAX {
            Some(Failure::OutOfRange)
        } else {
            None
        },
    }
}

/// The stock after `quantity` units of a recorded pair have left: that
/// pair's count is lower by the quantity, and all the rest is as before.
pub open spec fn stock_less(
    stock: Seq<(Seq<char>, Seq<(Seq<char>, int)>)>,
    first: Seq<char>,
    second: Seq<char>,
    quantity: int,
) -> Seq<(Seq<char>, Seq<(Seq<char>, int)>)> {
    let at = position(names_of(stock), first);
    let sizes = stock[at].1;
    let size_at = position(sizes, second);
    stock.update(at, (first, sizes.update(size_at, (second, sizes[size_at].1 - quantity))))
}

/// Takes `quantity` units of the size `second` of the colour `first` out of
/// the stock, or refuses and leaves the stock as it is.
pub fn take_stock(stock: &mut Vec<Group>, first: &String, second: &String, quantity: i64) -> (result:
    Result<(), Failure>)
    ensures
        match result {
            Ok(()) => shortage(groups_of(old(stock)@), first@, second@, quantity as int).is_none()
                && groups_of(final(stock)@) == stock_less(
                groups_of(old(stock)@),
                first@,
                second@,
                quantity as int,
            ),
            Err(failure) => shortage(groups_of(old(stock)@), first@, second@, quantity as int)
                == Some(failure) && *final(stock) == *old(stock),
        },
{
    let at = locate_group(stock, first);
    if at >= stock.len() {
        return Err(Failure::MissingSku);
    }
    let size_at = locate(&stock[at].entries, second);
    if size_at >= stock[at].entries.len() {
        return Err(Failure::MissingSku);
    }
    let units = stock[at].entries[size_at].count;
    if units < quantity {
        return Err(Failure::InsufficientStock);
    }
    let rest = match units.checked_sub(quantity) {
        Some(rest) => rest,
        None => {
            return Err(Failure::OutOfRange);
        },
    };
    let ghost before = groups_of(stock@);
    let mut sizes = copy_entries(&stock[at].entries);
    sizes.set(size_at, Entry { key: second.clone(), count: rest });
    assert(counts_of(sizes@) =~= before[at as int].1.update(
        size_at as int,
        (second@, rest as int),
    ));
    stock.set(at, Group { name: first.clone(), entries: sizes });
    assert(groups_of(stock@) =~= stock_less(before, first@, second@, quantity as int));
    Ok(())
}

/// All the units of the stock.
pub open spec fn stock_total(stock: Seq<(Seq<char>, Seq<(Seq<char>, int)>)>) -> int
    decreases stock.len(),
{
    if stock.len() == 0 {
        0
    } else {
        stock_total(stock.drop_last()) + total(stock.last().1)
    }
}

/// Every colour's units, and the units of the whole stock, fit a 64-bit
/// counter.
pub open spec fn units_fit(stock: Seq<(Seq<char>, Seq<(Seq<char>, int)>)>) -> bool {
    &&& forall|i: int|
        0 <= i < stock.len() ==> i64::MIN <= total((#[trigger] stock[i]).1) <= i64::MAX
    &&& i64::MIN <= stock_total(stock) <= i64::MAX
}

/// Adds up all the units of the stock. `None` where a colour's units or the
/// whole do not fit a 64-bit counter.
pub fn count_units(stock: &Vec<Group>) -> (units: Option<i64>)
    ensures
        units == if units_fit(groups_of(stock@)) {
            Some(stock_total(groups_of(stock@)) as i64)
        } else {
            None
        },
{
    let ghost all = groups_of(stock@);
    let mut acc: i128 = 0;
    let mut i: usize = 0;
    while i < stock.len()
        invariant
            i <= stock.len(),
            all == groups_of(stock@),
            acc == stock_total(all.take(i as int)),
            forall|j: int| 0 <= j < i ==> i64::MIN <= total((#[trigger] all[j]).1) <= i64::MAX,
            -(i as int) * 0x8000_0000_0000_0000 <= acc <= (i as int) * 0x8000_0000_0000_0000,
        decreases stock.len() - i,
    {
        proof {
            assert(all.take(i + 1).drop_last() =~= all.take(i as int));
            assert(all.take(i + 1).last() == all[i as int]);
            assert((i as int + 1) * 0x8000_0000_0000_0000 == (i as int) * 0x8000_0000_0000_0000
                + 0x8000_0000_0000_0000) by (nonlinear_arith);
            assert((i as int + 1) * 0x8000_0000_0000_0000 <= 0x1_0000_0000_0000_0000
                * 0x8000_0000_0000_0000) by (nonlinear_arith)
                requires
                    i as int + 1 <= 0x1_0000_0000_0000_0000,
            ;
        }
        match sum_counts(&stock[i].entries) {
            Some(units) => {
                acc = acc + units as i128;
            },
            None => {
                assert(!(i64::MIN <= total(all[i as int].1) <= i64::MAX));
                return None;
            },
        }
        i += 1;
    }
    proof {
        assert(all.take(i as int) =~= all);
    }
    if acc < i64::MIN as i128 || acc > i64::MAX as i128 {
        None
    } else {
        Some(acc as i64)
    }
}

/// No SKU is in stock with less than nothing.
pub open spec fn non_negative(stock: Seq<(Seq<char>, Seq<(Seq<char>, int)>)>) -> bool {
    forall|i: int, j: int|
        0 <= i < stock.len() && 0 <= j < stock[i].1.len() ==> 0 <= (#[trigger] stock[i].1[j]).1
}

/// A stock without negative counts has none after units were taken from it:
/// what would go below nothing is refused. The taken SKU holds what it held
/// less the units.
pub proof fn lemma_stock_stays_non_negative(
    stock: Seq<(Seq<char>, Seq<(Seq<char>, int)>)>,
    first: Seq<char>,
    second: Seq<char>,
    quantity: int,
)
    requires
        non_negative(stock),
        shortage(stock, first, second, quantity).is_none(),
    ensures
        non_negative(stock_less(stock, first, second, quantity)),
        stock_less(stock, first, second, quantity).len() == stock.len(),
        in_stock(stock, first, second) is Some,
        in_stock(stock_less(stock, first, second, quantity), first, second) == Some(
            in_stock(stock, first, second).unwrap() - quantity,
        ),
{
    let names = names_of(stock);
    let at = position(names, first);
    lemma_position_is_first(names, first);
    assert(0 <= at < stock.len());
    let sizes = stock[at].1;
    let size_at = position(sizes, second);
    lemma_position_is_first(sizes, second);
    assert(0 <= size_at < sizes.len());
    let units = sizes[size_at].1;
    assert(0 <= units - quantity);
    let after_sizes = sizes.update(size_at, (second, units - quantity));
    let after = stock_less(stock, first, second, quantity);
    assert(after == stock.update(at, (first, after_sizes)));
    assert forall|i: int, j: int| 0 <= i < after.len() && 0 <= j < after[i].1.len() implies 0 <= (
    #[trigger] after[i].1[j]).1 by {
        if i == at {
            if j != size_at {
                assert(after[i].1[j] == stock[i].1[j]);
            }
        } else {
            assert(after[i].1[j] == stock[i].1[j]);
        }
    }
    let after_names = names_of(after);
    assert(first_at(after_names, first, at)) by {
        assert(names[at].0 == first);
        assert forall|k: int| 0 <= k < at implies (#[trigger] after_names[k]).0 != first by {
            assert(names[k].0 != first);
        }
    }
    lemma_position(after_names, first, at);
    assert(first_at(after_sizes, second, size_at)) by {
        assert forall|k: int| 0 <= k < size_at implies (#[trigger] after_sizes[k]).0
            != second by {
            assert(sizes[k].0 != second);
        }
    }
    lemma_position(after_sizes, second, size_at);
}

} // verus!
