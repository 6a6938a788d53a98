//! Rendering: the console tables and the persisted fixed-width report.
//!
//! Every line is specified byte for byte. Data fields are padded by byte
//! width; displayed numbers are fixed-point values rounded half away from
//! zero to the displayed precision.
use vstd::prelude::*;

use chrono::{Datelike, Timelike};

verus! {

use crate::catalog::{Catalog, Category};
use crate::receipt::{Receipt, ReceiptRow, ReceiptTotals};
use crate::text::{
    lit, repeat_byte, pad_left, pad_right, center, dec, zpad, fixed, round_div, spaces, pow10,
    lemma_dec_len_le, B_EQ, B_DASH, B_COLON, B_SPACE,
};

pub open spec fn eq_line() -> Seq<u8> {
    repeat_byte(B_EQ, 80) + lit("\n")
}

pub open spec fn dash_line(n: nat) -> Seq<u8> {
    repeat_byte(B_DASH, n) + lit("\n")
}

/// The boxed header around a centred title.
pub open spec fn header_spec(title: Seq<u8>) -> Seq<u8> {
    lit("\n") + eq_line() + center(title, 80) + lit("\n") + eq_line() + lit("\n")
}

/// A title underlined with dashes.
pub open spec fn subheader_spec(title: Seq<u8>) -> Seq<u8> {
    lit("\n") + title + lit("\n") + repeat_byte(B_DASH, title.len()) + lit("\n\n")
}

/// Grams with one decimal, from milligrams.
pub open spec fn grams1(mg: int) -> Seq<u8> {
    fixed(round_div(mg, 100) as nat, 10, 1)
}

/// Kilograms with three decimals, from milligrams.
pub open spec fn weight3(mg: int) -> Seq<u8> {
    fixed(round_div(mg, 1000) as nat, 1000, 3)
}

/// Euros with two decimals, from hundred-millionths of a euro.
pub open spec fn money2(e8: int) -> Seq<u8> {
    fixed(round_div(e8, 1000000) as nat, 100, 2)
}

/// Euros with two decimals, straight from cents.
pub open spec fn cents2(cents: int) -> Seq<u8> {
    fixed(cents as nat, 100, 2)
}

pub open spec fn cat_line_spec(c: Category) -> Seq<u8> {
    pad_right(c.id@, 8) + lit(" | ") + pad_right(c.name@, 28) + lit(" | ") + pad_left(
        grams1(c.grams_per_piece_mg as int),
        10,
    ) + lit(" | ") + pad_left(cents2(c.price_per_kg_cents as int), 10) + lit("\n")
}

pub open spec fn cat_lines_spec(cats: Seq<Category>) -> Seq<u8>
    decreases cats.len(),
{
    if cats.len() == 0 {
        Seq::empty()
    } else {
        cat_lines_spec(cats.drop_last()) + cat_line_spec(cats.last())
    }
}

pub open spec fn categories_head() -> Seq<u8> {
    subheader_spec(lit("Available Categories")) + lit(
        "ID       | Name                         | g/piece    | \u{20ac}/kg      \n",
    ) + dash_line(70)
}

/// The category listing table shown before interactive entry.
pub open spec fn categories_spec(cats: Seq<Category>) -> Seq<u8> {
    categories_head() + cat_lines_spec(cats)
}

fn push_header(out: &mut Vec<u8>, title: &[u8])
    ensures
        final(out)@ == old(out)@ + header_spec(title@),
{
    crate::text::push_lit(out, "\n");
    crate::text::push_repeat(out, B_EQ, 80);
    crate::text::push_lit(out, "\n");
    crate::text::push_center(out, title, 80);
    crate::text::push_lit(out, "\n");
    crate::text::push_repeat(out, B_EQ, 80);
    crate::text::push_lit(out, "\n");
    crate::text::push_lit(out, "\n");
    proof {
        assert(out@ =~= old(out)@ + header_spec(title@));
    }
}

/// The boxed console header around a centred title.
pub fn render_header(title: &[u8]) -> (r: Vec<u8>)
    ensures
        r@ == header_spec(title@),
{
    let mut out: Vec<u8> = Vec::new();
    push_header(&mut out, title);
    proof {
        assert(out@ =~= header_spec(title@));
    }
    out
}

/// A console subheader: the title underlined with dashes.
pub fn render_subheader(title: &[u8]) -> (r: Vec<u8>)
    ensures
        r@ == subheader_spec(title@),
{
    let mut out: Vec<u8> = Vec::new();
    crate::text::push_lit(&mut out, "\n");
    crate::text::push_bytes(&mut out, title);
    crate::text::push_lit(&mut out, "\n");
    crate::text::push_repeat(&mut out, B_DASH, title.len());
    crate::text::push_lit(&mut out, "\n\n");
    proof {
        assert(out@ =~= subheader_spec(title@));
    }
    out
}

fn push_grams1(out: &mut Vec<u8>, mg: u64)
    ensures
        final(out)@ == old(out)@ + grams1(mg as int),
{
    let dg = crate::text::round_div_u128(mg as u128, 100);
    crate::text::push_fixed(out, dg, 10, 1);
}

fn push_weight3(out: &mut Vec<u8>, mg: u128)
    ensures
        final(out)@ == old(out)@ + weight3(mg as int),
{
    let g = crate::text::round_div_u128(mg, 1000);
    crate::text::push_fixed(out, g, 1000, 3);
}

fn push_money2(out: &mut Vec<u8>, e8: u128)
    ensures
        final(out)@ == old(out)@ + money2(e8 as int),
{
    let c = crate::text::round_div_u128(e8, 1000000);
    crate::text::push_fixed(out, c, 100, 2);
}

/// The category listing table.
#[verifier::rlimit(100)]
pub fn render_categories(cat: &Catalog) -> (r: Vec<u8>)
    ensures
        r@ == categories_spec(cat.categories@),
{
    let mut out: Vec<u8> = Vec::new();
    let tb = "Available Categories".as_bytes();
    crate::text::push_lit(&mut out, "\n");
    crate::text::push_bytes(&mut out, tb);
    crate::text::push_lit(&mut out, "\n");
    crate::text::push_repeat(&mut out, B_DASH, tb.len());
    crate::text::push_lit(&mut out, "\n\n");
    crate::text::push_lit(
        &mut out,
        "ID       | Name                         | g/piece    | \u{20ac}/kg      \n",
    );
    crate::text::push_repeat(&mut out, B_DASH, 70);
    crate::text::push_lit(&mut out, "\n");
    proof {
        assert(out@ =~= categories_head());
        assert(cat.categories@.take(0) =~= Seq::<Category>::empty());
    }
    let n = cat.categories.len();
    let mut i: usize = 0;
    while i < n
        invariant
            i <= n,
            n == cat.categories@.len(),
            out@ == categories_head() + cat_lines_spec(cat.categories@.take(i as int)),
        decreases n - i,
    {
        let c = &cat.categories[i];
        crate::text::push_pad_right(&mut out, c.id.as_slice(), 8);
        crate::text::push_lit(&mut out, " | ");
        crate::text::push_pad_right(&mut out, c.name.as_slice(), 28);
        crate::text::push_lit(&mut out, " | ");
        let mut num: Vec<u8> = Vec::new();
        push_grams1(&mut num, c.grams_per_piece_mg);
        crate::text::push_pad_left(&mut out, num.as_slice(), 10);
        crate::text::push_lit(&mut out, " | ");
        let mut num2: Vec<u8> = Vec::new();
        crate::text::push_fixed(&mut num2, c.price_per_kg_cents as u128, 100, 2);
        crate::text::push_pad_left(&mut out, num2.as_slice(), 10);
        crate::text::push_lit(&mut out, "\n");
        proof {
            assert(cat.categories@.take(i + 1 as int).drop_last() =~= cat.categories@.take(
                i as int,
            ));
            assert(out@ =~= categories_head() + cat_lines_spec(
                cat.categories@.take(i + 1 as int),
            ));
        }
        i = i + 1;
    }
    proof {
        assert(cat.categories@.take(n as int) =~= cat.categories@);
    }
    out
}

pub open spec fn console_row_spec(row: ReceiptRow) -> Seq<u8> {
    pad_right(row.name@, 20) + lit(" ") + pad_left(dec(row.count as nat), 8) + lit(" ") + pad_left(
        weight3(row.weight_mg as int),
        12,
    ) + lit(" ") + pad_left(money2(row.price_e8 as int), 12) + lit("\n")
}

pub open spec fn console_rows_spec(rows: Seq<ReceiptRow>) -> Seq<u8>
    decreases rows.len(),
{
    if rows.len() == 0 {
        Seq::empty()
    } else {
        console_rows_spec(rows.drop_last()) + console_row_spec(rows.last())
    }
}

pub open spec fn console_head() -> Seq<u8> {
    header_spec(lit("ORDER RECEIPT")) + lit(
        "Item                      Qty   Weight(kg)     Price(\u{20ac})\n",
    ) + dash_line(70)
}

pub open spec fn console_total_spec(t: ReceiptTotals) -> Seq<u8> {
    dash_line(70) + pad_right(lit("TOTAL"), 20) + lit(" ") + pad_left(dec(t.pieces as nat), 8)
        + lit(" ") + pad_left(weight3(t.weight_mg as int), 12) + lit(" ") + pad_left(
        money2(t.price_e8 as int),
        12,
    ) + lit("\n")
}

/// The whole console receipt: boxed header, one line per row, a TOTAL line.
pub open spec fn console_receipt_spec(rows: Seq<ReceiptRow>, t: ReceiptTotals) -> Seq<u8> {
    console_head() + console_rows_spec(rows) + console_total_spec(t)
}

#[verifier::rlimit(100)]
fn push_console_row(out: &mut Vec<u8>, row: &ReceiptRow)
    ensures
        final(out)@ == old(out)@ + console_row_spec(*row),
{
    crate::text::push_pad_right(out, row.name.as_slice(), 20);
    crate::text::push_lit(out, " ");
    let mut num: Vec<u8> = Vec::new();
    crate::text::push_dec(&mut num, row.count as u128);
    crate::text::push_pad_left(out, num.as_slice(), 8);
    crate::text::push_lit(out, " ");
    let mut w: Vec<u8> = Vec::new();
    push_weight3(&mut w, row.weight_mg);
    crate::text::push_pad_left(out, w.as_slice(), 12);
    crate::text::push_lit(out, " ");
    let mut p: Vec<u8> = Vec::new();
    push_money2(&mut p, row.price_e8);
    crate::text::push_pad_left(out, p.as_slice(), 12);
    crate::text::push_lit(out, "\n");
    proof {
        assert(out@ =~= old(out)@ + console_row_spec(*row));
    }
}

#[verifier::rlimit(100)]
fn push_console_total(out: &mut Vec<u8>, t: &ReceiptTotals)
    ensures
        final(out)@ == old(out)@ + console_total_spec(*t),
{
    crate::text::push_repeat(out, B_DASH, 70);
    crate::text::push_lit(out, "\n");
    crate::text::push_pad_right(out, "TOTAL".as_bytes(), 20);
    crate::text::push_lit(out, " ");
    let mut num: Vec<u8> = Vec::new();
    crate::text::push_dec(&mut num, t.pieces as u128);
    crate::text::push_pad_left(out, num.as_slice(), 8);
    crate::text::push_lit(out, " ");
    let mut w: Vec<u8> = Vec::new();
    push_weight3(&mut w, t.weight_mg);
    crate::text::push_pad_left(out, w.as_slice(), 12);
    crate::text::push_lit(out, " ");
    let mut p: Vec<u8> = Vec::new();
    push_money2(&mut p, t.price_e8);
    crate::text::push_pad_left(out, p.as_slice(), 12);
    crate::text::push_lit(out, "\n");
    proof {
        assert(out@ =~= old(out)@ + console_total_spec(*t));
    }
}

/// Render the console receipt table.
#[verifier::rlimit(100)]
pub fn render_console_receipt(rec: &Receipt) -> (r: Vec<u8>)
    ensures
        r@ == console_receipt_spec(rec.rows@, rec.totals),
{
    let mut out: Vec<u8> = Vec::new();
    let title = "ORDER RECEIPT";
    push_header(&mut out, title.as_bytes());
    crate::text::push_lit(
        &mut out,
        "Item                      Qty   Weight(kg)     Price(\u{20ac})\n",
    );
    crate::text::push_repeat(&mut out, B_DASH, 70);
    crate::text::push_lit(&mut out, "\n");
    proof {
        assert(out@ =~= console_head());
        assert(rec.rows@.take(0) =~= Seq::<ReceiptRow>::empty());
    }
    let n = rec.rows.len();
    let mut i: usize = 0;
    while i < n
        invariant
            i <= n,
            n == rec.rows@.len(),
            out@ == console_head() + console_rows_spec(rec.rows@.take(i as int)),
        decreases n - i,
    {
        push_console_row(&mut out, &rec.rows[i]);
        proof {
            assert(rec.rows@.take(i + 1 as int).drop_last() =~= rec.rows@.take(i as int));
            assert(out@ =~= console_head() + console_rows_spec(rec.rows@.take(i + 1 as int)));
        }
        i = i + 1;
    }
    proof {
        assert(rec.rows@.take(n as int) =~= rec.rows@);
    }
    push_console_total(&mut out, &rec.totals);
    proof {
        assert(out@ =~= console_receipt_spec(rec.rows@, rec.totals));
    }
    out
}

/// A local calendar timestamp, split into plain fields.
pub struct TimeParts {
    pub year: i32,
    pub month: u8,
    pub day: u8,
    pub hour: u8,
    pub minute: u8,
    pub second: u8,
}

impl TimeParts {
    pub open spec fn wf(&self) -> bool {
        &&& 1 <= self.month <= 12
        &&& 1 <= self.day <= 31
        &&& self.hour <= 23
        &&& self.minute <= 59
        &&& self.second <= 59
    }
}

/// A year, zero-padded to four digits, with a sign when negative.
pub open spec fn year4(y: int) -> Seq<u8> {
    if y >= 0 {
        zpad(y as nat, 4)
    } else {
        seq![B_DASH] + zpad((-y) as nat, 4)
    }
}

/// `YYYY-MM-DD HH:MM:SS`.
pub open spec fn timestamp_spec(p: TimeParts) -> Seq<u8> {
    year4(p.year as int) + seq![B_DASH] + zpad(p.month as nat, 2) + seq![B_DASH] + zpad(
        p.day as nat,
        2,
    ) + seq![B_SPACE] + zpad(p.hour as nat, 2) + seq![B_COLON] + zpad(p.minute as nat, 2) + seq![
        B_COLON,
    ] + zpad(p.second as nat, 2)
}

/// Append the formatted timestamp.
#[verifier::rlimit(100)]
pub fn push_timestamp(out: &mut Vec<u8>, p: &TimeParts)
    ensures
        final(out)@ == old(out)@ + timestamp_spec(*p),
{
    if p.year >= 0 {
        crate::text::push_zpad(out, p.year as u128, 4);
    } else {
        out.push(B_DASH);
        let mag = -(p.year as i64);
        crate::text::push_zpad(out, mag as u128, 4);
    }
    out.push(B_DASH);
    crate::text::push_zpad(out, p.month as u128, 2);
    out.push(B_DASH);
    crate::text::push_zpad(out, p.day as u128, 2);
    out.push(B_SPACE);
    crate::text::push_zpad(out, p.hour as u128, 2);
    out.push(B_COLON);
    crate::text::push_zpad(out, p.minute as u128, 2);
    out.push(B_COLON);
    crate::text::push_zpad(out, p.second as u128, 2);
    proof {
        assert(out@ =~= old(out)@ + timestamp_spec(*p));
    }
}

/// Everything of the report that precedes the timestamp.
pub open spec fn report_prefix() -> Seq<u8> {
    eq_line() + lit("                      PIECEWEIGHT - ORDER RECEIPT                      \n")
        + eq_line() + lit("Date: ")
}

/// The timestamp field: padded to its column and closed with a newline.
pub open spec fn date_field(p: TimeParts) -> Seq<u8> {
    pad_right(timestamp_spec(p), 65) + lit("\n")
}

pub open spec fn report_sep() -> Seq<u8> {
    lit(
        "  \u{2500}\u{2500}\u{2500}\u{2500}\u{2500}\u{2500}\u{2500}\u{2500}\u{2500}\u{2500}\u{2500}\u{2500}\u{2500}\u{2500}\u{2500}\u{2500}\u{2500}\u{2500}\u{2500}\u{2500}\u{2500}\u{2500}\u{2500}\u{2500}\u{2500}\u{2500}\u{2500}\u{2500}\u{2500}\u{2500}\u{2500}\u{2500}\u{2500}\u{2500}\u{2500}\u{2500}\u{2500}\u{2500}\u{2500}\u{2500}\u{2500}\u{2500}\u{2500}\u{2500}\u{2500}\u{2500}\u{2500}\u{2500}\u{2500}\u{2500}\u{2500}\u{2500}\u{2500}\u{2500}\u{2500}\u{2500}\u{2500}\u{2500}\u{2500}\u{2500}\u{2500}\u{2500}\u{2500}\u{2500}\u{2500}\u{2500}\u{2500}\u{2500}\u{2500}\u{2500}\u{2500}\u{2500}\u{2500}\u{2500}\u{2500}\u{2500}\u{2500}\u{2500}\u{2500}\n",
    )
}

pub open spec fn report_row_spec(row: ReceiptRow) -> Seq<u8> {
    lit("  ") + pad_right(row.id@, 12) + lit("    ") + pad_right(row.name@, 24) + lit("    ")
        + pad_left(dec(row.count as nat), 6) + lit("       ") + pad_left(
        weight3(row.weight_mg as int),
        12,
    ) + lit("       ") + pad_left(money2(row.price_e8 as int), 10) + lit("\n")
}

pub open spec fn report_rows_spec(rows: Seq<ReceiptRow>) -> Seq<u8>
    decreases rows.len(),
{
    if rows.len() == 0 {
        Seq::empty()
    } else {
        report_rows_spec(rows.drop_last()) + report_row_spec(rows.last())
    }
}

pub open spec fn report_total_spec(t: ReceiptTotals) -> Seq<u8> {
    lit("  ") + pad_right(lit("TOTAL"), 12) + lit("    ") + spaces(24) + lit("    ") + pad_left(
        dec(t.pieces as nat),
        6,
    ) + lit("       ") + pad_left(weight3(t.weight_mg as int), 12) + lit("       ") + pad_left(
        money2(t.price_e8 as int),
        10,
    ) + lit("\n")
}

/// Average price per item in cents; zero when there are no pieces.
pub open spec fn avg_price_cents_spec(t: ReceiptTotals) -> int {
    if t.pieces == 0 {
        0
    } else {
        round_div(t.price_e8 as int, t.pieces * 1000000)
    }
}

/// Average weight per item in tenths of a gram; zero when there are no
/// pieces.
pub open spec fn avg_weight_dg_spec(t: ReceiptTotals) -> int {
    if t.pieces == 0 {
        0
    } else {
        round_div(t.weight_mg as int, t.pieces * 100)
    }
}

/// Average price per item in cents.
pub fn avg_price_cents(t: &ReceiptTotals) -> (r: u128)
    ensures
        r == avg_price_cents_spec(*t),
{
    if t.pieces == 0 {
        0
    } else {
        crate::text::round_div_u128(t.price_e8, (t.pieces as u128) * 1000000)
    }
}

/// Average weight per item in tenths of a gram.
pub fn avg_weight_dg(t: &ReceiptTotals) -> (r: u128)
    ensures
        r == avg_weight_dg_spec(*t),
{
    if t.pieces == 0 {
        0
    } else {
        crate::text::round_div_u128(t.weight_mg, (t.pieces as u128) * 100)
    }
}

pub open spec fn summary_totals_spec(t: ReceiptTotals) -> Seq<u8> {
    lit("  SUMMARY\n") + report_sep() + lit("  Total Items (pieces)           ") + pad_left(
        dec(t.pieces as nat),
        50,
    ) + lit("\n") + lit("  Total Weight                   ") + pad_left(
        weight3(t.weight_mg as int),
        45,
    ) + lit(" kg\n") + lit("  Total Price                    ") + pad_left(
        money2(t.price_e8 as int),
        47,
    ) + lit(" \u{20ac}\n")
}

pub open spec fn summary_avgs_spec(t: ReceiptTotals) -> Seq<u8> {
    lit("  Average Price per Item         ") + pad_left(cents2(avg_price_cents_spec(t)), 47) + lit(
        " \u{20ac}\n",
    ) + lit("  Average Weight per Item        ") + pad_left(
        fixed(avg_weight_dg_spec(t) as nat, 10, 1),
        46,
    ) + lit(" g\n")
}

pub open spec fn report_summary_spec(t: ReceiptTotals) -> Seq<u8> {
    summary_totals_spec(t) + summary_avgs_spec(t)
}

/// Everything of the report that follows the timestamp line.
pub open spec fn report_rest(rows: Seq<ReceiptRow>, t: ReceiptTotals) -> Seq<u8> {
    eq_line() + lit("\n") + lit(
        "  ID              Item Name                   Qty      Weight (kg)     Price (\u{20ac})  \n",
    ) + report_sep() + report_rows_spec(rows) + report_sep() + report_total_spec(t) + report_sep()
        + lit("\n") + report_summary_spec(t) + report_sep() + eq_line()
}

/// The persisted report, byte for byte.
pub open spec fn report_spec(rows: Seq<ReceiptRow>, t: ReceiptTotals, p: TimeParts) -> Seq<u8> {
    report_prefix() + date_field(p) + report_rest(rows, t)
}

/// The report up to and including the table header.
pub open spec fn report_head(p: TimeParts) -> Seq<u8> {
    report_prefix() + date_field(p) + eq_line() + lit("\n") + lit(
        "  ID              Item Name                   Qty      Weight (kg)     Price (\u{20ac})  \n",
    ) + report_sep()
}

/// The report from the closing separator of the data rows on.
pub open spec fn report_tail(t: ReceiptTotals) -> Seq<u8> {
    report_sep() + report_total_spec(t) + report_sep() + lit("\n") + report_summary_spec(t)
        + report_sep() + eq_line()
}

#[verifier::rlimit(100)]
proof fn lemma_report_parts(rows: Seq<ReceiptRow>, t: ReceiptTotals, p: TimeParts)
    ensures
        report_spec(rows, t, p) == report_head(p) + report_rows_spec(rows) + report_tail(t),
{
    assert(report_spec(rows, t, p) =~= report_head(p) + report_rows_spec(rows) + report_tail(t));
}

#[verifier::rlimit(100)]
fn push_report_row(out: &mut Vec<u8>, row: &ReceiptRow)
    ensures
        final(out)@ == old(out)@ + report_row_spec(*row),
{
    crate::text::push_lit(out, "  ");
    crate::text::push_pad_right(out, row.id.as_slice(), 12);
    crate::text::push_lit(out, "    ");
    crate::text::push_pad_right(out, row.name.as_slice(), 24);
    crate::text::push_lit(out, "    ");
    let mut num: Vec<u8> = Vec::new();
    crate::text::push_dec(&mut num, row.count as u128);
    crate::text::push_pad_left(out, num.as_slice(), 6);
    crate::text::push_lit(out, "       ");
    let mut w: Vec<u8> = Vec::new();
    push_weight3(&mut w, row.weight_mg);
    crate::text::push_pad_left(out, w.as_slice(), 12);
    crate::text::push_lit(out, "       ");
    let mut p: Vec<u8> = Vec::new();
    push_money2(&mut p, row.price_e8);
    crate::text::push_pad_left(out, p.as_slice(), 10);
    crate::text::push_lit(out, "\n");
    proof {
        assert(out@ =~= old(out)@ + report_row_spec(*row));
    }
}

fn push_report_sep(out: &mut Vec<u8>)
    ensures
        final(out)@ == old(out)@ + report_sep(),
{
    crate::text::push_lit(
        out,
        "  \u{2500}\u{2500}\u{2500}\u{2500}\u{2500}\u{2500}\u{2500}\u{2500}\u{2500}\u{2500}\u{2500}\u{2500}\u{2500}\u{2500}\u{2500}\u{2500}\u{2500}\u{2500}\u{2500}\u{2500}\u{2500}\u{2500}\u{2500}\u{2500}\u{2500}\u{2500}\u{2500}\u{2500}\u{2500}\u{2500}\u{2500}\u{2500}\u{2500}\u{2500}\u{2500}\u{2500}\u{2500}\u{2500}\u{2500}\u{2500}\u{2500}\u{2500}\u{2500}\u{2500}\u{2500}\u{2500}\u{2500}\u{2500}\u{2500}\u{2500}\u{2500}\u{2500}\u{2500}\u{2500}\u{2500}\u{2500}\u{2500}\u{2500}\u{2500}\u{2500}\u{2500}\u{2500}\u{2500}\u{2500}\u{2500}\u{2500}\u{2500}\u{2500}\u{2500}\u{2500}\u{2500}\u{2500}\u{2500}\u{2500}\u{2500}\u{2500}\u{2500}\u{2500}\u{2500}\n",
    );
}

#[verifier::rlimit(100)]
fn push_report_total(out: &mut Vec<u8>, t: &ReceiptTotals)
    ensures
        final(out)@ == old(out)@ + report_total_spec(*t),
{
    crate::text::push_lit(out, "  ");
    crate::text::push_pad_right(out, "TOTAL".as_bytes(), 12);
    crate::text::push_lit(out, "    ");
    crate::text::push_repeat(out, B_SPACE, 24);
    crate::text::push_lit(out, "    ");
    let mut num: Vec<u8> = Vec::new();
    crate::text::push_dec(&mut num, t.pieces as u128);
    crate::text::push_pad_left(out, num.as_slice(), 6);
    crate::text::push_lit(out, "       ");
    let mut w: Vec<u8> = Vec::new();
    push_weight3(&mut w, t.weight_mg);
    crate::text::push_pad_left(out, w.as_slice(), 12);
    crate::text::push_lit(out, "       ");
    let mut pr: Vec<u8> = Vec::new();
    push_money2(&mut pr, t.price_e8);
    crate::text::push_pad_left(out, pr.as_slice(), 10);
    crate::text::push_lit(out, "\n");
    proof {
        assert(out@ =~= old(out)@ + report_total_spec(*t));
    }
}

#[verifier::rlimit(100)]
fn push_summary_totals(out: &mut Vec<u8>, t: &ReceiptTotals)
    ensures
        final(out)@ == old(out)@ + summary_totals_spec(*t),
{
    crate::text::push_lit(out, "  SUMMARY\n");
    push_report_sep(out);
    crate::text::push_lit(out, "  Total Items (pieces)           ");
    let mut num: Vec<u8> = Vec::new();
    crate::text::push_dec(&mut num, t.pieces as u128);
    crate::text::push_pad_left(out, num.as_slice(), 50);
    crate::text::push_lit(out, "\n");
    crate::text::push_lit(out, "  Total Weight                   ");
    let mut w: Vec<u8> = Vec::new();
    push_weight3(&mut w, t.weight_mg);
    crate::text::push_pad_left(out, w.as_slice(), 45);
    crate::text::push_lit(out, " kg\n");
    crate::text::push_lit(out, "  Total Price                    ");
    let mut p: Vec<u8> = Vec::new();
    push_money2(&mut p, t.price_e8);
    crate::text::push_pad_left(out, p.as_slice(), 47);
    crate::text::push_lit(out, " \u{20ac}\n");
    proof {
        assert(out@ =~= old(out)@ + summary_totals_spec(*t));
    }
}

#[verifier::rlimit(100)]
fn push_summary_avgs(out: &mut Vec<u8>, t: &ReceiptTotals)
    ensures
        final(out)@ == old(out)@ + summary_avgs_spec(*t),
{
    crate::text::push_lit(out, "  Average Price per Item         ");
    let ap = avg_price_cents(t);
    let mut apv: Vec<u8> = Vec::new();
    crate::text::push_fixed(&mut apv, ap, 100, 2);
    crate::text::push_pad_left(out, apv.as_slice(), 47);
    crate::text::push_lit(out, " \u{20ac}\n");
    crate::text::push_lit(out, "  Average Weight per Item        ");
    let aw = avg_weight_dg(t);
    let mut awv: Vec<u8> = Vec::new();
    crate::text::push_fixed(&mut awv, aw, 10, 1);
    crate::text::push_pad_left(out, awv.as_slice(), 46);
    crate::text::push_lit(out, " g\n");
    proof {
        assert(out@ =~= old(out)@ + summary_avgs_spec(*t));
    }
}

fn push_report_summary(out: &mut Vec<u8>, t: &ReceiptTotals)
    ensures
        final(out)@ == old(out)@ + report_summary_spec(*t),
{
    push_summary_totals(out, t);
    push_summary_avgs(out, t);
    proof {
        assert(out@ =~= old(out)@ + report_summary_spec(*t));
    }
}

#[verifier::rlimit(100)]
fn push_report_head(out: &mut Vec<u8>, ts: &TimeParts)
    ensures
        final(out)@ == old(out)@ + report_head(*ts),
{
    crate::text::push_repeat(out, B_EQ, 80);
    crate::text::push_lit(out, "\n");
    crate::text::push_lit(
        out,
        "                      PIECEWEIGHT - ORDER RECEIPT                      \n",
    );
    crate::text::push_repeat(out, B_EQ, 80);
    crate::text::push_lit(out, "\n");
    crate::text::push_lit(out, "Date: ");
    let mut tsv: Vec<u8> = Vec::new();
    push_timestamp(&mut tsv, ts);
    crate::text::push_pad_right(out, tsv.as_slice(), 65);
    crate::text::push_lit(out, "\n");
    crate::text::push_repeat(out, B_EQ, 80);
    crate::text::push_lit(out, "\n");
    crate::text::push_lit(out, "\n");
    crate::text::push_lit(
        out,
        "  ID              Item Name                   Qty      Weight (kg)     Price (\u{20ac})  \n",
    );
    push_report_sep(out);
    proof {
        assert(out@ =~= old(out)@ + report_head(*ts));
    }
}

#[verifier::rlimit(100)]
fn push_report_tail(out: &mut Vec<u8>, t: &ReceiptTotals)
    ensures
        final(out)@ == old(out)@ + report_tail(*t),
{
    push_report_sep(out);
    push_report_total(out, t);
    push_report_sep(out);
    crate::text::push_lit(out, "\n");
    push_report_summary(out, t);
    push_report_sep(out);
    crate::text::push_repeat(out, B_EQ, 80);
    crate::text::push_lit(out, "\n");
    proof {
        assert(out@ =~= old(out)@ + report_tail(*t));
    }
}

/// Render the persisted report for a given timestamp.
#[verifier::rlimit(100)]
pub fn render_report(rec: &Receipt, ts: &TimeParts) -> (r: Vec<u8>)
    ensures
        r@ == report_spec(rec.rows@, rec.totals, *ts),
{
    let mut out: Vec<u8> = Vec::new();
    push_report_head(&mut out, ts);
    proof {
        assert(rec.rows@.take(0) =~= Seq::<ReceiptRow>::empty());
        assert(out@ =~= report_head(*ts) + report_rows_spec(rec.rows@.take(0)));
    }
    let n = rec.rows.len();
    let mut i: usize = 0;
    while i < n
        invariant
            i <= n,
            n == rec.rows@.len(),
            out@ == report_head(*ts) + report_rows_spec(rec.rows@.take(i as int)),
        decreases n - i,
    {
        push_report_row(&mut out, &rec.rows[i]);
        proof {
            assert(rec.rows@.take(i + 1 as int).drop_last() =~= rec.rows@.take(i as int));
            assert(out@ =~= report_head(*ts) + report_rows_spec(rec.rows@.take(i + 1 as int)));
        }
        i = i + 1;
    }
    proof {
        assert(rec.rows@.take(n as int) =~= rec.rows@);
    }
    push_report_tail(&mut out, &rec.totals);
    proof {
        assert(out@ =~= report_head(*ts) + report_rows_spec(rec.rows@) + report_tail(rec.totals));
        lemma_report_parts(rec.rows@, rec.totals, *ts);
    }
    out
}

/// Relies on chrono's local clock: `Local::now` with the `Datelike` and
/// `Timelike` accessors, whose documented ranges are months 1 to 12, days
/// 1 to 31, hours 0 to 23, minutes and seconds 0 to 59.
#[verifier::external_body]
fn local_now_parts() -> (r: TimeParts)
    ensures
        r.wf(),
{
    let now = chrono::Local::now();
    TimeParts {
        year: now.year(),
        month: now.month() as u8,
        day: now.day() as u8,
        hour: now.hour() as u8,
        minute: now.minute() as u8,
        second: now.second() as u8,
    }
}

/// Render the persisted report stamped with the current local time.
pub fn render_report_now(rec: &Receipt) -> (r: Vec<u8>)
    ensures
        exists|p: TimeParts| p.wf() && r@ == report_spec(rec.rows@, rec.totals, p),
{
    let p = local_now_parts();
    let out = render_report(rec, &p);
    proof {
        assert(p.wf() && out@ == report_spec(rec.rows@, rec.totals, p));
    }
    out
}

proof fn lemma_nl_len()
    ensures
        lit("\n") =~= seq![10u8],
{
    reveal_strlit("\n");
    assert("\n"@ =~= seq!['\n']);
    assert(('\n' as u32) == 10);
    assert(10u32 & 0x7F == 10) by (bit_vector);
    assert(vstd::utf8::encode_scalar('\n' as u32) =~= seq![10u8]);
    assert("\n"@.drop_first() =~= Seq::<char>::empty());
    assert(vstd::utf8::encode_utf8(Seq::<char>::empty()) =~= Seq::<u8>::empty());
    assert(lit("\n") =~= seq![10u8]);
}

/// A well-formed timestamp always fills the same 66 bytes of the report.
#[verifier::rlimit(100)]
pub proof fn lemma_date_field_len(p: TimeParts)
    requires
        p.wf(),
    ensures
        date_field(p).len() == 66,
{
    reveal_with_fuel(pow10, 11);
    assert(pow10(10) == 10000000000);
    assert(pow10(3) == 1000);
    if p.year >= 0 {
        lemma_dec_len_le(p.year as nat, 10);
    } else {
        lemma_dec_len_le((-(p.year as int)) as nat, 10);
    }
    assert(year4(p.year as int).len() <= 11);
    lemma_dec_len_le(p.month as nat, 3);
    lemma_dec_len_le(p.day as nat, 3);
    lemma_dec_len_le(p.hour as nat, 3);
    lemma_dec_len_le(p.minute as nat, 3);
    lemma_dec_len_le(p.second as nat, 3);
    assert(zpad(p.month as nat, 2).len() <= 3);
    assert(zpad(p.day as nat, 2).len() <= 3);
    assert(zpad(p.hour as nat, 2).len() <= 3);
    assert(zpad(p.minute as nat, 2).len() <= 3);
    assert(zpad(p.second as nat, 2).len() <= 3);
    assert(timestamp_spec(p).len() <= 65);
    assert(pad_right(timestamp_spec(p), 65).len() == 65);
    lemma_nl_len();
}

/// Rebuilding the report from the same receipt leaves every byte outside
/// the timestamp field unchanged: the part before the date and the part
/// after it are identical, whatever the two clock readings were.
pub proof fn lemma_rerun_differs_only_in_timestamp(
    rows: Seq<ReceiptRow>,
    t: ReceiptTotals,
    p1: TimeParts,
    p2: TimeParts,
)
    requires
        p1.wf(),
        p2.wf(),
    ensures
        report_spec(rows, t, p1).len() == report_spec(rows, t, p2).len(),
        report_spec(rows, t, p1).take(report_prefix().len() as int) == report_spec(
            rows,
            t,
            p2,
        ).take(report_prefix().len() as int),
        report_spec(rows, t, p1).skip(report_prefix().len() + 66 as int) == report_spec(
            rows,
            t,
            p2,
        ).skip(report_prefix().len() + 66 as int),
        p1 == p2 ==> report_spec(rows, t, p1) == report_spec(rows, t, p2),
{
    lemma_date_field_len(p1);
    lemma_date_field_len(p2);
    assert(report_spec(rows, t, p1).take(report_prefix().len() as int) =~= report_prefix());
    assert(report_spec(rows, t, p2).take(report_prefix().len() as int) =~= report_prefix());
    assert(report_spec(rows, t, p1).skip(report_prefix().len() + 66 as int) =~= report_rest(rows, t));
    assert(report_spec(rows, t, p2).skip(report_prefix().len() + 66 as int) =~= report_rest(rows, t));
}

} // verus!
