//! Order collection: interactive line entry and batch rows.
//!
//! A line or row is `id,count`. Interactive entry skips comments and keeps
//! going past bad lines; batch input fails the whole run on the first bad
//! row.
use vstd::prelude::*;

verus! {

use crate::catalog::{Catalog, Category, find_id};
use crate::errors::AppError;
use crate::text::{
    lit, trim_spec, split_at_byte, is_dec_number, dec_value, dec, B_COMMA, B_HASH, B_CR, B_LF,
};

/// A requested (category id, piece count) pair.
pub struct OrderItem {
    pub id: Vec<u8>,
    pub count: u64,
}

/// The id and count views of a sequence of items.
pub open spec fn item_views(items: Seq<OrderItem>) -> Seq<(Seq<u8>, int)> {
    items.map_values(|it: OrderItem| (it.id@, it.count as int))
}

/// What one interactive line leads to.
pub enum LineOutcome {
    /// A blank line: entry is over.
    Finish,
    /// A comment line: nothing changes.
    Skip,
    /// Not exactly two comma-separated fields.
    BadFormat,
    /// The count field is not a representable non-negative integer.
    BadCount,
    /// The count is zero.
    ZeroCount,
    /// The id is not in the catalog.
    UnknownId,
    /// A valid entry together with the resolved category name.
    Add { item: OrderItem, name: Vec<u8> },
}

pub open spec fn line_fields(line: Seq<u8>) -> Seq<Seq<u8>> {
    split_at_byte(trim_spec(line), B_COMMA)
}

pub open spec fn line_id(line: Seq<u8>) -> Seq<u8> {
    trim_spec(line_fields(line)[0])
}

pub open spec fn line_count_field(line: Seq<u8>) -> Seq<u8> {
    trim_spec(line_fields(line)[1])
}

/// The line neither ends entry nor is a comment.
pub open spec fn line_is_entry(line: Seq<u8>) -> bool {
    trim_spec(line).len() > 0 && trim_spec(line)[0] != B_HASH
}

pub open spec fn line_count_ok(line: Seq<u8>) -> bool {
    is_dec_number(line_count_field(line)) && dec_value(line_count_field(line)) <= u64::MAX
}

/// The line adds an item when run against `cats`.
pub open spec fn line_adds(cats: Seq<Category>, line: Seq<u8>) -> bool {
    &&& line_is_entry(line)
    &&& line_fields(line).len() == 2
    &&& line_count_ok(line)
    &&& dec_value(line_count_field(line)) > 0
    &&& find_id(cats, line_id(line)) >= 0
}

/// Process one interactive line against the catalog.
pub fn process_line(cat: &Catalog, line: &[u8]) -> (r: LineOutcome)
    ensures
        ({
            let cats = cat.categories@;
            let t = trim_spec(line@);
            let parts = line_fields(line@);
            match r {
                LineOutcome::Finish => t.len() == 0,
                LineOutcome::Skip => t.len() > 0 && t[0] == B_HASH,
                LineOutcome::BadFormat => line_is_entry(line@) && parts.len() != 2,
                LineOutcome::BadCount => line_is_entry(line@) && parts.len() == 2
                    && !line_count_ok(line@),
                LineOutcome::ZeroCount => line_is_entry(line@) && parts.len() == 2
                    && line_count_ok(line@) && dec_value(line_count_field(line@)) == 0,
                LineOutcome::UnknownId => line_is_entry(line@) && parts.len() == 2
                    && line_count_ok(line@) && dec_value(line_count_field(line@)) > 0 && find_id(
                    cats,
                    line_id(line@),
                ) == -1,
                LineOutcome::Add { item, name } => line_adds(cats, line@) && item.id@ == line_id(
                    line@,
                ) && item.count == dec_value(line_count_field(line@)) && name@ == cats[find_id(
                    cats,
                    line_id(line@),
                )].name@,
            }
        }),
{
    let t = crate::text::trim(line);
    if t.len() == 0 {
        return LineOutcome::Finish;
    }
    if t[0] == B_HASH {
        return LineOutcome::Skip;
    }
    let parts = crate::text::split_bytes(t.as_slice(), B_COMMA);
    if parts.len() != 2 {
        return LineOutcome::BadFormat;
    }
    let id = crate::text::trim(parts[0].as_slice());
    let cfield = crate::text::trim(parts[1].as_slice());
    let count = match crate::text::parse_u64(cfield.as_slice()) {
        Some(c) => c,
        None => {
            return LineOutcome::BadCount;
        },
    };
    if count == 0 {
        return LineOutcome::ZeroCount;
    }
    match cat.find(id.as_slice()) {
        None => LineOutcome::UnknownId,
        Some(i) => {
            let mut name: Vec<u8> = Vec::new();
            crate::text::push_bytes(&mut name, cat.categories[i].name.as_slice());
            LineOutcome::Add { item: OrderItem { id, count }, name }
        },
    }
}

/// The items that a sequence of interactive lines accumulates: entries are
/// taken in order until the first blank line; comments and bad lines leave
/// the state unchanged.
pub open spec fn collect_spec(cats: Seq<Category>, lines: Seq<Seq<u8>>) -> Seq<(Seq<u8>, int)>
    decreases lines.len(),
{
    if lines.len() == 0 {
        Seq::empty()
    } else if trim_spec(lines[0]).len() == 0 {
        Seq::empty()
    } else {
        (if line_adds(cats, lines[0]) {
            seq![(line_id(lines[0]), dec_value(line_count_field(lines[0])) as int)]
        } else {
            Seq::empty()
        }) + collect_spec(cats, lines.drop_first())
    }
}

/// Run the interactive collection over a whole sequence of lines.
pub fn collect_from_lines(cat: &Catalog, lines: &Vec<Vec<u8>>) -> (r: Vec<OrderItem>)
    ensures
        item_views(r@) == collect_spec(cat.categories@, lines.deep_view()),
{
    let ghost lviews = lines.deep_view();
    let mut items: Vec<OrderItem> = Vec::new();
    let n = lines.len();
    let mut i: usize = 0;
    proof {
        assert(lviews.skip(0) =~= lviews);
    }
    while i < n
        invariant
            i <= n,
            n == lines@.len(),
            lviews == lines.deep_view(),
            collect_spec(cat.categories@, lviews) == item_views(items@) + collect_spec(
                cat.categories@,
                lviews.skip(i as int),
            ),
        decreases n - i,
    {
        proof {
            assert(lviews[i as int] == lines@[i as int]@);
            assert(lviews.skip(i as int)[0] == lviews[i as int]);
        }
        match process_line(cat, lines[i].as_slice()) {
            LineOutcome::Finish => {
                proof {
                    assert(collect_spec(cat.categories@, lviews.skip(i as int)) =~= Seq::empty());
                    assert(item_views(items@) =~= item_views(items@) + Seq::empty());
                }
                return items;
            },
            LineOutcome::Add { item, name } => {
                proof {
                    assert(lviews.skip(i as int).drop_first() =~= lviews.skip(i + 1 as int));
                    assert(item_views(items@.push(item)) =~= item_views(items@) + seq![
                        (item.id@, item.count as int),
                    ]);
                }
                items.push(item);
            },
            _ => {
                proof {
                    assert(lviews.skip(i as int).drop_first() =~= lviews.skip(i + 1 as int));
                }
            },
        }
        i = i + 1;
    }
    proof {
        assert(lviews.skip(n as int) =~= Seq::<Seq<u8>>::empty());
        assert(item_views(items@) =~= item_views(items@) + Seq::empty());
    }
    items
}

/// A line with one trailing carriage return removed.
pub open spec fn strip_cr(l: Seq<u8>) -> Seq<u8> {
    if l.len() > 0 && l[l.len() - 1] == B_CR {
        l.drop_last()
    } else {
        l
    }
}

/// The non-empty rows of the raw lines, carriage returns stripped.
pub open spec fn rows_of(ls: Seq<Seq<u8>>) -> Seq<Seq<u8>>
    decreases ls.len(),
{
    if ls.len() == 0 {
        Seq::empty()
    } else {
        (if strip_cr(ls[0]).len() > 0 {
            seq![strip_cr(ls[0])]
        } else {
            Seq::empty()
        }) + rows_of(ls.drop_first())
    }
}

/// The data rows of a batch input: newline-separated, blank lines ignored.
pub open spec fn csv_rows(data: Seq<u8>) -> Seq<Seq<u8>> {
    rows_of(split_at_byte(data, B_LF))
}

pub open spec fn row_fields(row: Seq<u8>) -> Seq<Seq<u8>> {
    split_at_byte(row, B_COMMA)
}

pub open spec fn row_id(row: Seq<u8>) -> Seq<u8> {
    trim_spec(row_fields(row)[0])
}

pub open spec fn row_count_field(row: Seq<u8>) -> Seq<u8> {
    trim_spec(row_fields(row)[1])
}

pub open spec fn row_count_ok(row: Seq<u8>) -> bool {
    is_dec_number(row_count_field(row)) && dec_value(row_count_field(row)) <= u64::MAX
}

/// The row yields an item.
pub open spec fn row_ok(row: Seq<u8>) -> bool {
    &&& row_fields(row).len() == 2
    &&& row_id(row).len() > 0
    &&& row_count_ok(row)
    &&& dec_value(row_count_field(row)) > 0
}

/// Index of the first failing row, or -1 when every row is good.
pub open spec fn first_bad_row(rows: Seq<Seq<u8>>) -> int
    decreases rows.len(),
{
    if rows.len() == 0 {
        -1
    } else if !row_ok(rows[0]) {
        0
    } else {
        let r = first_bad_row(rows.drop_first());
        if r < 0 {
            -1
        } else {
            r + 1
        }
    }
}

/// The error reported for a failing row numbered `rn` (1-based).
pub open spec fn row_error_matches(row: Seq<u8>, rn: nat, e: AppError) -> bool {
    if row_fields(row).len() > 2 {
        e matches AppError::FileError(m) && m@ == lit("Error reading CSV row ") + dec(rn) + lit(
            ": wrong number of fields",
        )
    } else if row_fields(row).len() == 1 {
        e matches AppError::ParseError(m) && m@ == lit("Row ") + dec(rn) + lit(
            ": Missing count column",
        )
    } else if row_id(row).len() == 0 {
        e matches AppError::ValidationError(m) && m@ == lit("Row ") + dec(rn) + lit(
            ": ID cannot be empty",
        )
    } else if !row_count_ok(row) {
        e matches AppError::ParseError(m) && m@ == lit("Row ") + dec(rn) + lit(
            ": Invalid count value",
        )
    } else {
        e matches AppError::ValidationError(m) && m@ == lit("Row ") + dec(rn) + lit(
            ": Quantity must be greater than 0",
        )
    }
}

proof fn lemma_first_bad_row_is(rows: Seq<Seq<u8>>, k: nat)
    requires
        k < rows.len(),
        forall|j: int| 0 <= j < k ==> row_ok(#[trigger] rows[j]),
        !row_ok(rows[k as int]),
    ensures
        first_bad_row(rows) == k,
    decreases k,
{
    if k > 0 {
        lemma_first_bad_row_is(rows.drop_first(), (k - 1) as nat);
    }
}

proof fn lemma_first_bad_row_none(rows: Seq<Seq<u8>>)
    requires
        forall|j: int| 0 <= j < rows.len() ==> row_ok(#[trigger] rows[j]),
    ensures
        first_bad_row(rows) == -1,
    decreases rows.len(),
{
    if rows.len() > 0 {
        lemma_first_bad_row_none(rows.drop_first());
    }
}

/// Parse a whole batch input. Unknown category ids are not checked here:
/// they surface when the receipt is built.
pub fn parse_csv_orders(data: &[u8]) -> (r: Result<Vec<OrderItem>, AppError>)
    ensures
        ({
            let rows = csv_rows(data@);
            match r {
                Ok(items) => rows.len() > 0 && first_bad_row(rows) == -1 && items@.len()
                    == rows.len() && forall|m: int|
                    0 <= m < rows.len() ==> item_views(items@)[m] == (
                    row_id(#[trigger] rows[m]),
                    dec_value(row_count_field(rows[m])) as int,
                ),
                Err(e) => {
                    if first_bad_row(rows) >= 0 {
                        row_error_matches(
                            rows[first_bad_row(rows)],
                            (first_bad_row(rows) + 1) as nat,
                            e,
                        )
                    } else {
                        rows.len() == 0 && (e matches AppError::ValidationError(m) && m@ == lit(
                            "CSV file contains no valid orders",
                        ))
                    }
                },
            }
        }),
{
    let lines = crate::text::split_bytes(data, B_LF);
    let ghost all = split_at_byte(data@, B_LF);
    let mut items: Vec<OrderItem> = Vec::new();
    let ghost mut kept: Seq<Seq<u8>> = Seq::empty();
    let mut rn: usize = 0;
    let n = lines.len();
    let mut i: usize = 0;
    proof {
        assert(all.skip(0) =~= all);
        assert(kept + rows_of(all) =~= rows_of(all));
    }
    while i < n
        invariant
            i <= n,
            n == lines@.len(),
            n == all.len(),
            all == split_at_byte(data@, B_LF),
            forall|j: int| 0 <= j < n ==> lines@[j]@ == all[j],
            rows_of(all) == kept + rows_of(all.skip(i as int)),
            rn == kept.len(),
            rn <= i,
            forall|j: int| 0 <= j < kept.len() ==> row_ok(#[trigger] kept[j]),
            items@.len() == kept.len(),
            forall|m: int|
                0 <= m < kept.len() ==> item_views(items@)[m] == (
                row_id(#[trigger] kept[m]),
                dec_value(row_count_field(kept[m])) as int,
            ),
        decreases n - i,
    {
        proof {
            assert(all.skip(i as int)[0] == all[i as int]);
            assert(all.skip(i as int).drop_first() =~= all.skip(i + 1 as int));
        }
        // strip one trailing carriage return
        let llen = lines[i].len();
        let keep_len = if llen > 0 && lines[i][llen - 1] == B_CR {
            llen - 1
        } else {
            llen
        };
        let mut row: Vec<u8> = Vec::new();
        let mut c: usize = 0;
        while c < keep_len
            invariant
                c <= keep_len <= lines@[i as int]@.len(),
                i < lines@.len(),
                row@ == lines@[i as int]@.subrange(0, c as int),
            decreases keep_len - c,
        {
            let bv = lines[i][c];
            row.push(bv);
            proof {
                assert(row@ =~= lines@[i as int]@.subrange(0, c + 1 as int));
            }
            c = c + 1;
        }
        proof {
            assert(row@ =~= strip_cr(all[i as int]));
        }
        if row.len() == 0 {
            i = i + 1;
            continue;
        }
        proof {
            kept = kept.push(row@);
            assert(rows_of(all) =~= kept + rows_of(all.skip(i + 1 as int)));
        }
        let fields = crate::text::split_bytes(row.as_slice(), B_COMMA);
        if fields.len() > 2 {
            let mut m: Vec<u8> = Vec::new();
            crate::text::push_lit(&mut m, "Error reading CSV row ");
            crate::text::push_dec(&mut m, (rn as u128) + 1);
            crate::text::push_lit(&mut m, ": wrong number of fields");
            proof {
                lemma_first_bad_row_is(rows_of(all), rn as nat);
            }
            return Err(AppError::FileError(m));
        }
        if fields.len() < 2 {
            let mut m: Vec<u8> = Vec::new();
            crate::text::push_lit(&mut m, "Row ");
            crate::text::push_dec(&mut m, (rn as u128) + 1);
            crate::text::push_lit(&mut m, ": Missing count column");
            proof {
                lemma_first_bad_row_is(rows_of(all), rn as nat);
            }
            return Err(AppError::ParseError(m));
        }
        let id = crate::text::trim(fields[0].as_slice());
        if id.len() == 0 {
            let mut m: Vec<u8> = Vec::new();
            crate::text::push_lit(&mut m, "Row ");
            crate::text::push_dec(&mut m, (rn as u128) + 1);
            crate::text::push_lit(&mut m, ": ID cannot be empty");
            proof {
                lemma_first_bad_row_is(rows_of(all), rn as nat);
            }
            return Err(AppError::ValidationError(m));
        }
        let cfield = crate::text::trim(fields[1].as_slice());
        let count = match crate::text::parse_u64(cfield.as_slice()) {
            Some(ct) => ct,
            None => {
                let mut m: Vec<u8> = Vec::new();
                crate::text::push_lit(&mut m, "Row ");
                crate::text::push_dec(&mut m, (rn as u128) + 1);
                crate::text::push_lit(&mut m, ": Invalid count value");
                proof {
                    lemma_first_bad_row_is(rows_of(all), rn as nat);
                }
                return Err(AppError::ParseError(m));
            },
        };
        if count == 0 {
            let mut m: Vec<u8> = Vec::new();
            crate::text::push_lit(&mut m, "Row ");
            crate::text::push_dec(&mut m, (rn as u128) + 1);
            crate::text::push_lit(&mut m, ": Quantity must be greater than 0");
            proof {
                lemma_first_bad_row_is(rows_of(all), rn as nat);
            }
            return Err(AppError::ValidationError(m));
        }
        proof {
            assert(item_views(items@.push(OrderItem { id: id, count: count })) =~= item_views(
                items@,
            ) + seq![(id@, count as int)]);
        }
        items.push(OrderItem { id, count });
        rn = rn + 1;
        i = i + 1;
    }
    proof {
        assert(all.skip(n as int) =~= Seq::<Seq<u8>>::empty());
        assert(rows_of(all) =~= kept);
    }
    if items.len() == 0 {
        let mut m: Vec<u8> = Vec::new();
        crate::text::push_lit(&mut m, "CSV file contains no valid orders");
        proof {
            lemma_first_bad_row_none(rows_of(all));
        }
        return Err(AppError::ValidationError(m));
    }
    proof {
        lemma_first_bad_row_none(rows_of(all));
    }
    Ok(items)
}

} // verus!
