//! Piece-counted goods: catalog validation, exact fixed-point weight and
//! price computation, order collection, and receipt rendering.
//!
//! Weights are carried in milligrams and prices in cents per kilogram, so
//! that the order formulas hold exactly over the integers; all text is
//! handled as UTF-8 bytes.
use vstd::prelude::*;

pub mod calc;
pub mod catalog;
pub mod errors;
pub mod orders;
pub mod receipt;
pub mod render;
pub mod text;

verus! {

use crate::catalog::{Catalog, Category, catalog_ok, validate_error_matches};
use crate::errors::AppError;
use crate::orders::{
    OrderItem, item_views, collect_spec, csv_rows, row_id, row_count_field, first_bad_row,
    row_error_matches,
};
use crate::receipt::{
    ReceiptRow, ReceiptTotals, all_known, fits, sum_pieces, sum_weight, sum_price, row_matches,
    build_error_matches,
};
use crate::render::{TimeParts, console_receipt_spec, report_spec};
use crate::text::{lit, dec_value};

/// Where the ordered items come from: interactive lines, or batch bytes.
pub enum OrderSource {
    Interactive(Vec<Vec<u8>>),
    FromCsv(Vec<u8>),
}

/// What a run produces: nothing (interactive entry ended empty), or the
/// rendered console receipt together with the persisted report bytes.
pub enum RunOutput {
    NoItems,
    Receipt { console: Vec<u8>, file: Vec<u8> },
}

/// The item views a source yields against a catalog.
pub open spec fn run_items_spec(cats: Seq<Category>, source: OrderSource) -> Seq<(Seq<u8>, int)> {
    match source {
        OrderSource::Interactive(lines) => collect_spec(cats, lines.deep_view()),
        OrderSource::FromCsv(data) => Seq::new(
            csv_rows(data@).len(),
            |i: int|
                (row_id(csv_rows(data@)[i]), dec_value(row_count_field(csv_rows(data@)[i])) as int),
        ),
    }
}

/// The batch source fails before any receipt is built.
pub open spec fn csv_stage_error(data: Seq<u8>, e: AppError) -> bool {
    if first_bad_row(csv_rows(data)) >= 0 {
        row_error_matches(
            csv_rows(data)[first_bad_row(csv_rows(data))],
            (first_bad_row(csv_rows(data)) + 1) as nat,
            e,
        )
    } else {
        csv_rows(data).len() == 0 && (e matches AppError::ValidationError(m) && m@ == lit(
            "CSV file contains no valid orders",
        ))
    }
}

/// A built receipt whose rows and totals match the resolved items, and
/// whose two renderings are the specified bytes (the report carries some
/// well-formed clock reading).
pub open spec fn receipt_output_matches(
    cats: Seq<Category>,
    views: Seq<(Seq<u8>, int)>,
    console: Seq<u8>,
    file: Seq<u8>,
) -> bool {
    exists|its: Seq<OrderItem>, rows: Seq<ReceiptRow>, totals: ReceiptTotals|
        {
            &&& #[trigger] item_views(its) == views
            &&& all_known(cats, its)
            &&& fits(cats, its)
            &&& rows.len() == its.len()
            &&& forall|i: int| 0 <= i < its.len() ==> row_matches(cats, #[trigger] its[i], rows[i])
            &&& totals.pieces == sum_pieces(its)
            &&& totals.weight_mg == sum_weight(cats, its)
            &&& totals.price_e8 == sum_price(cats, its)
            &&& console == #[trigger] console_receipt_spec(rows, totals)
            &&& exists|p: TimeParts| p.wf() && file == #[trigger] report_spec(rows, totals, p)
        }
}

/// The receipt stage failed for an item sequence with the given views.
pub open spec fn receipt_stage_error(
    cats: Seq<Category>,
    views: Seq<(Seq<u8>, int)>,
    e: AppError,
) -> bool {
    exists|its: Seq<OrderItem>|
        #[trigger] item_views(its) == views && !(all_known(cats, its) && fits(cats, its))
            && build_error_matches(cats, its, e)
}

/// Load and validate the catalog, collect the order from the given source,
/// and build both renderings of the receipt.
pub fn run(categories: Vec<Category>, source: OrderSource) -> (r: Result<RunOutput, AppError>)
    ensures
        ({
            let cats = categories@;
            match r {
                Ok(RunOutput::NoItems) => catalog_ok(cats) && (source matches
                    OrderSource::Interactive(_)) && run_items_spec(cats, source).len() == 0,
                Ok(RunOutput::Receipt { console, file }) => catalog_ok(cats)
                    && receipt_output_matches(cats, run_items_spec(cats, source), console@, file@),
                Err(e) => {
                    if !catalog_ok(cats) {
                        validate_error_matches(cats, e)
                    } else {
                        match source {
                            OrderSource::Interactive(_) => receipt_stage_error(
                                cats,
                                run_items_spec(cats, source),
                                e,
                            ),
                            OrderSource::FromCsv(data) => csv_stage_error(data@, e)
                                || receipt_stage_error(cats, run_items_spec(cats, source), e),
                        }
                    }
                },
            }
        }),
{
    let ghost cats = categories@;
    let catalog = match Catalog::validate(categories) {
        Ok(c) => c,
        Err(e) => {
            return Err(e);
        },
    };
    proof {
        crate::catalog::lemma_first_invalid_bounds(cats);
        assert(catalog_ok(cats));
    }
    let ghost src = source;
    let (items, interactive): (Vec<OrderItem>, bool) = match source {
        OrderSource::Interactive(lines) => {
            let its = crate::orders::collect_from_lines(&catalog, &lines);
            (its, true)
        },
        OrderSource::FromCsv(data) => {
            let its = match crate::orders::parse_csv_orders(data.as_slice()) {
                Ok(v) => v,
                Err(e) => {
                    return Err(e);
                },
            };
            proof {
                assert(item_views(its@) =~= run_items_spec(cats, src));
            }
            (its, false)
        },
    };
    proof {
        assert(item_views(items@) == run_items_spec(cats, src));
    }
    if interactive && items.len() == 0 {
        return Ok(RunOutput::NoItems);
    }
    let receipt = match crate::receipt::build_receipt(&catalog, &items) {
        Ok(rec) => rec,
        Err(e) => {
            proof {
                assert(item_views(items@) == run_items_spec(cats, src) && !(all_known(cats, items@)
                    && fits(cats, items@)) && build_error_matches(cats, items@, e));
            }
            return Err(e);
        },
    };
    let console = crate::render::render_console_receipt(&receipt);
    let file = crate::render::render_report_now(&receipt);
    proof {
        let its = items@;
        let rows = receipt.rows@;
        let totals = receipt.totals;
        assert(item_views(its) == run_items_spec(cats, src) && all_known(cats, its) && fits(
            cats,
            its,
        ) && rows.len() == its.len() && (forall|i: int|
            0 <= i < its.len() ==> row_matches(cats, #[trigger] its[i], rows[i])) && totals.pieces
            == sum_pieces(its) && totals.weight_mg == sum_weight(cats, its) && totals.price_e8
            == sum_price(cats, its) && console@ == console_receipt_spec(rows, totals));
        assert(receipt_output_matches(cats, run_items_spec(cats, src), console@, file@));
    }
    Ok(RunOutput::Receipt { console, file })
}

} // verus!
