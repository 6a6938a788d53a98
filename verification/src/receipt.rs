//! The receipt builder: resolve each ordered item against the catalog and
//! accumulate exact per-row and total figures.
use vstd::prelude::*;

verus! {

use crate::catalog::{Catalog, Category, find_id};
use crate::errors::AppError;
use crate::orders::OrderItem;
use crate::text::lit;

/// One computed receipt line.
pub struct ReceiptRow {
    pub id: Vec<u8>,
    pub name: Vec<u8>,
    pub count: u64,
    /// Row weight in milligrams.
    pub weight_mg: u128,
    /// Row price in hundred-millionths of a euro.
    pub price_e8: u128,
}

/// The accumulated totals of a receipt.
pub struct ReceiptTotals {
    pub pieces: u64,
    pub weight_mg: u128,
    pub price_e8: u128,
}

pub struct Receipt {
    pub rows: Vec<ReceiptRow>,
    pub totals: ReceiptTotals,
}

/// Row weight of one item (zero when the id is unknown).
pub open spec fn item_weight(cats: Seq<Category>, it: OrderItem) -> int {
    if find_id(cats, it.id@) >= 0 {
        cats[find_id(cats, it.id@)].grams_per_piece_mg * it.count
    } else {
        0
    }
}

/// Row price of one item (zero when the id is unknown).
pub open spec fn item_price(cats: Seq<Category>, it: OrderItem) -> int {
    if find_id(cats, it.id@) >= 0 {
        cats[find_id(cats, it.id@)].grams_per_piece_mg * it.count * cats[find_id(
            cats,
            it.id@,
        )].price_per_kg_cents
    } else {
        0
    }
}

pub open spec fn sum_pieces(items: Seq<OrderItem>) -> int
    decreases items.len(),
{
    if items.len() == 0 {
        0
    } else {
        sum_pieces(items.drop_last()) + items.last().count
    }
}

pub open spec fn sum_weight(cats: Seq<Category>, items: Seq<OrderItem>) -> int
    decreases items.len(),
{
    if items.len() == 0 {
        0
    } else {
        sum_weight(cats, items.drop_last()) + item_weight(cats, items.last())
    }
}

pub open spec fn sum_price(cats: Seq<Category>, items: Seq<OrderItem>) -> int
    decreases items.len(),
{
    if items.len() == 0 {
        0
    } else {
        sum_price(cats, items.drop_last()) + item_price(cats, items.last())
    }
}

pub open spec fn all_known(cats: Seq<Category>, items: Seq<OrderItem>) -> bool {
    forall|i: int|
        0 <= i < items.len() ==> find_id(cats, (#[trigger] items[i]).id@) >= 0
}

/// Index of the first item whose id the catalog lacks, or -1.
pub open spec fn first_unknown(cats: Seq<Category>, items: Seq<OrderItem>) -> int
    decreases items.len(),
{
    if items.len() == 0 {
        -1
    } else if find_id(cats, items[0].id@) < 0 {
        0
    } else {
        let r = first_unknown(cats, items.drop_first());
        if r < 0 {
            -1
        } else {
            r + 1
        }
    }
}

/// The exact totals stay within the fixed-point machine range.
pub open spec fn fits(cats: Seq<Category>, items: Seq<OrderItem>) -> bool {
    &&& sum_pieces(items) <= u64::MAX
    &&& sum_weight(cats, items) <= u128::MAX
    &&& sum_price(cats, items) <= u128::MAX
}

/// The row derived from one resolved item.
pub open spec fn row_matches(cats: Seq<Category>, it: OrderItem, row: ReceiptRow) -> bool {
    &&& find_id(cats, it.id@) >= 0
    &&& row.id@ == it.id@
    &&& row.name@ == cats[find_id(cats, it.id@)].name@
    &&& row.count == it.count
    &&& row.weight_mg == item_weight(cats, it)
    &&& row.price_e8 == item_price(cats, it)
}

proof fn lemma_terms_nonneg(cats: Seq<Category>, it: OrderItem)
    ensures
        item_weight(cats, it) >= 0,
        item_price(cats, it) >= 0,
{
    if find_id(cats, it.id@) >= 0 {
        let c = cats[find_id(cats, it.id@)];
        vstd::arithmetic::mul::lemma_mul_nonnegative(
            c.grams_per_piece_mg as int,
            it.count as int,
        );
        vstd::arithmetic::mul::lemma_mul_nonnegative(
            c.grams_per_piece_mg * it.count,
            c.price_per_kg_cents as int,
        );
    }
}

/// Prefix sums never exceed the sums of a longer prefix.
pub proof fn lemma_sums_monotone(cats: Seq<Category>, items: Seq<OrderItem>, a: int, b: int)
    requires
        0 <= a <= b <= items.len(),
    ensures
        sum_pieces(items.take(a)) <= sum_pieces(items.take(b)),
        sum_weight(cats, items.take(a)) <= sum_weight(cats, items.take(b)),
        sum_price(cats, items.take(a)) <= sum_price(cats, items.take(b)),
    decreases b - a,
{
    if a < b {
        lemma_sums_monotone(cats, items, a, b - 1);
        assert(items.take(b).drop_last() =~= items.take(b - 1));
        lemma_terms_nonneg(cats, items.take(b).last());
    }
}

proof fn lemma_first_unknown_is(cats: Seq<Category>, items: Seq<OrderItem>, k: nat)
    requires
        k < items.len(),
        forall|j: int| 0 <= j < k ==> find_id(cats, (#[trigger] items[j]).id@) >= 0,
        find_id(cats, items[k as int].id@) < 0,
    ensures
        first_unknown(cats, items) == k,
    decreases k,
{
    if k > 0 {
        lemma_first_unknown_is(cats, items.drop_first(), (k - 1) as nat);
    }
}

proof fn lemma_first_unknown_ge(cats: Seq<Category>, items: Seq<OrderItem>, k: nat)
    requires
        k <= items.len(),
        forall|j: int| 0 <= j < k ==> find_id(cats, (#[trigger] items[j]).id@) >= 0,
    ensures
        first_unknown(cats, items) == -1 || first_unknown(cats, items) >= k,
    decreases k,
{
    if k > 0 {
        lemma_first_unknown_ge(cats, items.drop_first(), (k - 1) as nat);
    }
}

/// The error that the receipt builder reports: the first unknown id, or a
/// total that left the fixed-point machine range.
pub open spec fn build_error_matches(cats: Seq<Category>, its: Seq<OrderItem>, e: AppError) -> bool {
    let k = first_unknown(cats, its);
    if k >= 0 && fits(cats, its.take(k)) {
        e matches AppError::ValidationError(m) && m@ == lit("Unknown category: ") + its[k].id@
    } else {
        e matches AppError::ValidationError(m) && m@ == lit(
            "Order total exceeds the supported range",
        )
    }
}

/// Resolve every item and accumulate rows and totals. The first unknown id
/// is reported; totals that leave the fixed-point machine range are
/// rejected rather than silently wrapped.
pub fn build_receipt(cat: &Catalog, items: &Vec<OrderItem>) -> (r: Result<Receipt, AppError>)
    ensures
        ({
            let cats = cat.categories@;
            let its = items@;
            match r {
                Ok(rec) => all_known(cats, its) && fits(cats, its) && rec.rows@.len() == its.len()
                    && (forall|i: int|
                    0 <= i < its.len() ==> row_matches(cats, #[trigger] its[i], rec.rows@[i]))
                    && rec.totals.pieces == sum_pieces(its) && rec.totals.weight_mg == sum_weight(
                    cats,
                    its,
                ) && rec.totals.price_e8 == sum_price(cats, its),
                Err(e) => !(all_known(cats, its) && fits(cats, its)) && build_error_matches(
                    cats,
                    its,
                    e,
                ),
            }
        }),
{
    let mut rows: Vec<ReceiptRow> = Vec::new();
    let mut pieces: u64 = 0;
    let mut tw: u128 = 0;
    let mut tp: u128 = 0;
    let n = items.len();
    let mut i: usize = 0;
    proof {
        assert(items@.take(0) =~= Seq::<OrderItem>::empty());
    }
    while i < n
        invariant
            i <= n,
            n == items@.len(),
            forall|j: int| 0 <= j < i ==> find_id(cat.categories@, (#[trigger] items@[j]).id@) >= 0,
            rows@.len() == i,
            forall|j: int|
                0 <= j < i ==> row_matches(cat.categories@, #[trigger] items@[j], rows@[j]),
            pieces == sum_pieces(items@.take(i as int)),
            tw == sum_weight(cat.categories@, items@.take(i as int)),
            tp == sum_price(cat.categories@, items@.take(i as int)),
        decreases n - i,
    {
        let ghost cats = cat.categories@;
        let ghost its = items@;
        let idx = match cat.find(items[i].id.as_slice()) {
            Some(ix) => ix,
            None => {
                let mut m: Vec<u8> = Vec::new();
                crate::text::push_lit(&mut m, "Unknown category: ");
                crate::text::push_bytes(&mut m, items[i].id.as_slice());
                proof {
                    lemma_first_unknown_is(cats, its, i as nat);
                    assert(!all_known(cats, its));
                }
                return Err(AppError::ValidationError(m));
            },
        };
        let count = items[i].count;
        let w = crate::calc::weight_mg(cat.categories[idx].grams_per_piece_mg, count);
        proof {
            assert(its.take(i + 1 as int).drop_last() =~= its.take(i as int));
            assert(its.take(i + 1 as int).last() == its[i as int]);
        }
        let p = match w.checked_mul(cat.categories[idx].price_per_kg_cents as u128) {
            Some(p) => p,
            None => {
                proof {
                    lemma_overflow_case(cats, its, i as nat);
                }
                return overflow_error();
            },
        };
        let pieces2 = match pieces.checked_add(count) {
            Some(x) => x,
            None => {
                proof {
                    lemma_overflow_case(cats, its, i as nat);
                }
                return overflow_error();
            },
        };
        let tw2 = match tw.checked_add(w) {
            Some(x) => x,
            None => {
                proof {
                    lemma_overflow_case(cats, its, i as nat);
                }
                return overflow_error();
            },
        };
        let tp2 = match tp.checked_add(p) {
            Some(x) => x,
            None => {
                proof {
                    lemma_overflow_case(cats, its, i as nat);
                }
                return overflow_error();
            },
        };
        let id_copy = crate::text::copy_bytes(items[i].id.as_slice());
        let name_copy = crate::text::copy_bytes(cat.categories[idx].name.as_slice());
        rows.push(
            ReceiptRow { id: id_copy, name: name_copy, count, weight_mg: w, price_e8: p },
        );
        pieces = pieces2;
        tw = tw2;
        tp = tp2;
        i = i + 1;
    }
    proof {
        assert(items@.take(n as int) =~= items@);
    }
    Ok(Receipt { rows, totals: ReceiptTotals { pieces, weight_mg: tw, price_e8: tp } })
}

/// One of the three running totals has left its machine range at item `k`.
proof fn lemma_overflow_case(cats: Seq<Category>, its: Seq<OrderItem>, k: nat)
    requires
        k < its.len(),
        forall|j: int| 0 <= j <= k ==> find_id(cats, (#[trigger] its[j]).id@) >= 0,
        sum_pieces(its.take(k + 1 as int)) > u64::MAX || sum_weight(cats, its.take(k + 1 as int))
            > u128::MAX || sum_price(cats, its.take(k + 1 as int)) > u128::MAX,
    ensures
        !fits(cats, its),
        !(first_unknown(cats, its) >= 0 && fits(cats, its.take(first_unknown(cats, its)))),
{
    lemma_sums_monotone(cats, its, k + 1 as int, its.len() as int);
    assert(its.take(its.len() as int) =~= its);
    lemma_first_unknown_ge(cats, its, k + 1 as nat);
    lemma_first_unknown_bounds(cats, its);
    let fu = first_unknown(cats, its);
    if fu >= 0 {
        lemma_sums_monotone(cats, its, k + 1 as int, fu);
    }
}

proof fn lemma_first_unknown_bounds(cats: Seq<Category>, items: Seq<OrderItem>)
    ensures
        first_unknown(cats, items) == -1 || (0 <= first_unknown(cats, items) < items.len()),
    decreases items.len(),
{
    if items.len() > 0 {
        lemma_first_unknown_bounds(cats, items.drop_first());
    }
}

fn overflow_error() -> (r: Result<Receipt, AppError>)
    ensures
        r matches Err(e) && (e matches AppError::ValidationError(m) && m@ == lit(
            "Order total exceeds the supported range",
        )),
{
    let mut m: Vec<u8> = Vec::new();
    crate::text::push_lit(&mut m, "Order total exceeds the supported range");
    Err(AppError::ValidationError(m))
}

} // verus!
