//! The order calculator: exact fixed-point weight and price.
//!
//! A weight is carried in milligrams (one millionth of a kilogram), a price
//! in hundred-millionths of a euro, so that
//! `weight_kg = grams_per_piece / 1000 * count` and
//! `price = weight_kg * price_per_kg` hold exactly:
//! `weight_mg = grams_per_piece_mg * count` and
//! `price_e8 = weight_mg * price_per_kg_cents`.
use vstd::prelude::*;

verus! {

use crate::catalog::Category;

/// Total weight in milligrams: grams-per-piece (in mg) times the count.
pub fn weight_mg(grams_per_piece_mg: u64, count: u64) -> (r: u128)
    ensures
        r == grams_per_piece_mg * count,
{
    proof {
        assert(grams_per_piece_mg * count <= u64::MAX * u64::MAX) by (nonlinear_arith)
            requires
                grams_per_piece_mg <= u64::MAX,
                count <= u64::MAX,
        ;
    }
    (grams_per_piece_mg as u128) * (count as u128)
}

/// Total price in hundred-millionths of a euro (the weight in milligrams
/// times the price in cents per kilogram).
pub fn price_for(cat: &Category, count: u64) -> (r: u128)
    requires
        cat.grams_per_piece_mg * count * cat.price_per_kg_cents <= u128::MAX,
    ensures
        r == cat.grams_per_piece_mg * count * cat.price_per_kg_cents,
{
    let w = weight_mg(cat.grams_per_piece_mg, count);
    w * (cat.price_per_kg_cents as u128)
}

} // verus!
