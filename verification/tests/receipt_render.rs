use pieceweight::catalog::{Catalog, Category};
use pieceweight::orders::OrderItem;
use pieceweight::receipt::{build_receipt, ReceiptTotals};
use pieceweight::render::{
    avg_price_cents, avg_weight_dg, push_timestamp, render_categories, render_console_receipt,
    render_header, render_report, TimeParts,
};

fn cat(id: &str, name: &str, mg: u64, cents: u64) -> Category {
    Category {
        id: id.as_bytes().to_vec(),
        name: name.as_bytes().to_vec(),
        grams_per_piece_mg: mg,
        price_per_kg_cents: cents,
    }
}

fn catalog() -> Catalog {
    Catalog::validate(vec![
        cat("pistachio", "Pistachio", 5000, 2000),
        cat("almond", "Almond", 3000, 1500),
    ])
    .unwrap()
}

fn item(id: &str, count: u64) -> OrderItem {
    OrderItem { id: id.as_bytes().to_vec(), count }
}

fn ts(year: i32, month: u8, day: u8, hour: u8, minute: u8, second: u8) -> TimeParts {
    TimeParts { year, month, day, hour, minute, second }
}

#[test]
fn receipt_totals_match_expected_values() {
    let c = catalog();
    let items = vec![item("pistachio", 10), item("almond", 5)];
    let rec = build_receipt(&c, &items).unwrap();
    assert_eq!(rec.rows.len(), 2);
    // row 1: 0.05 kg and 1.00 euro
    assert_eq!(rec.rows[0].name, b"Pistachio".to_vec());
    assert_eq!(rec.rows[0].count, 10);
    assert_eq!(rec.rows[0].weight_mg, 50_000);
    assert_eq!(rec.rows[0].price_e8, 100_000_000);
    // row 2: 0.015 kg and 0.225 euro
    assert_eq!(rec.rows[1].weight_mg, 15_000);
    assert_eq!(rec.rows[1].price_e8, 22_500_000);
    // totals: 15 pieces, 0.065 kg, 1.225 euros
    assert_eq!(rec.totals.pieces, 15);
    assert_eq!(rec.totals.weight_mg, 65_000);
    assert_eq!(rec.totals.price_e8, 122_500_000);
}

#[test]
fn price_beyond_machine_range_is_rejected() {
    let c = Catalog::validate(vec![cat("dense", "Dense", u64::MAX, u64::MAX)]).unwrap();
    let items = vec![item("dense", u64::MAX)];
    match build_receipt(&c, &items) {
        Err(pieceweight::errors::AppError::ValidationError(m)) => {
            assert_eq!(m, b"Order total exceeds the supported range".to_vec());
        },
        _ => panic!("expected the total to be rejected"),
    }
}

#[test]
fn piece_total_beyond_machine_range_is_rejected() {
    let c = catalog();
    let items = vec![item("pistachio", u64::MAX), item("almond", 1)];
    match build_receipt(&c, &items) {
        Err(pieceweight::errors::AppError::ValidationError(m)) => {
            assert_eq!(m, b"Order total exceeds the supported range".to_vec());
        },
        _ => panic!("expected the total to be rejected"),
    }
}

#[test]
fn averages_guard_division_by_zero() {
    let t = ReceiptTotals { pieces: 0, weight_mg: 123, price_e8: 456 };
    assert_eq!(avg_price_cents(&t), 0);
    assert_eq!(avg_weight_dg(&t), 0);
}

#[test]
fn averages_round_half_away_from_zero() {
    // 1.225 euros over 15 pieces: 8.1666 cents rounds to 8
    let t = ReceiptTotals { pieces: 15, weight_mg: 65_000, price_e8: 122_500_000 };
    assert_eq!(avg_price_cents(&t), 8);
    // 65 g over 15 pieces: 43.33 tenths of a gram rounds to 43
    assert_eq!(avg_weight_dg(&t), 43);
    // exact half rounds up: 15 mg over 1 piece is 0.15 g -> 2 tenths
    let t2 = ReceiptTotals { pieces: 1, weight_mg: 150, price_e8: 0 };
    assert_eq!(avg_weight_dg(&t2), 2);
}

#[test]
fn subheader_underlines_the_title() {
    let out = String::from_utf8(pieceweight::render::render_subheader(b"Available Categories"))
        .unwrap();
    assert_eq!(out, format!("\n{}\n{}\n\n", "Available Categories", "-".repeat(20)));
}

#[test]
fn header_is_boxed_and_centred() {
    let h = String::from_utf8(render_header(b"ORDER RECEIPT")).unwrap();
    let eq = "=".repeat(80);
    let expected = format!("\n{}\n{:^80}\n{}\n\n", eq, "ORDER RECEIPT", eq);
    assert_eq!(h, expected);
}

#[test]
fn category_table_lists_each_category() {
    let out = String::from_utf8(render_categories(&catalog())).unwrap();
    assert!(out.contains("Available Categories"));
    assert!(out.contains("ID       | Name                         | g/piece    | \u{20ac}/kg"));
    assert!(out.contains(&format!(
        "{:<8} | {:<28} | {:>10} | {:>10}\n",
        "pistachio", "Pistachio", "5.0", "20.00"
    )));
    assert!(out.contains(&format!(
        "{:<8} | {:<28} | {:>10} | {:>10}\n",
        "almond", "Almond", "3.0", "15.00"
    )));
}

#[test]
fn console_receipt_matches_expected_text() {
    let c = catalog();
    let items = vec![item("pistachio", 10), item("almond", 5)];
    let rec = build_receipt(&c, &items).unwrap();
    let out = String::from_utf8(render_console_receipt(&rec)).unwrap();
    let eq = "=".repeat(80);
    let dash = "-".repeat(70);
    let mut expected = format!("\n{}\n{:^80}\n{}\n\n", eq, "ORDER RECEIPT", eq);
    expected += "Item                      Qty   Weight(kg)     Price(\u{20ac})\n";
    expected += &format!("{}\n", dash);
    expected += &format!("{:<20} {:>8} {:>12} {:>12}\n", "Pistachio", 10, "0.050", "1.00");
    expected += &format!("{:<20} {:>8} {:>12} {:>12}\n", "Almond", 5, "0.015", "0.23");
    expected += &format!("{}\n", dash);
    expected += &format!("{:<20} {:>8} {:>12} {:>12}\n", "TOTAL", 15, "0.065", "1.23");
    assert_eq!(out, expected);
}

#[test]
fn timestamp_is_zero_padded() {
    let mut out: Vec<u8> = Vec::new();
    push_timestamp(&mut out, &ts(2025, 1, 2, 3, 4, 5));
    assert_eq!(String::from_utf8(out).unwrap(), "2025-01-02 03:04:05");
    let mut out2: Vec<u8> = Vec::new();
    push_timestamp(&mut out2, &ts(985, 12, 31, 23, 59, 58));
    assert_eq!(String::from_utf8(out2).unwrap(), "0985-12-31 23:59:58");
}

#[test]
fn report_carries_date_line_and_summary() {
    let c = catalog();
    let items = vec![item("pistachio", 10), item("almond", 5)];
    let rec = build_receipt(&c, &items).unwrap();
    let out = String::from_utf8(render_report(&rec, &ts(2025, 6, 7, 8, 9, 10))).unwrap();
    assert!(out.contains(&format!("Date: {:<65}\n", "2025-06-07 08:09:10")));
    assert!(out.contains("                      PIECEWEIGHT - ORDER RECEIPT                      \n"));
    assert!(out.contains(&format!(
        "  {:<12}    {:<24}    {:>6}       {:>12}       {:>10}\n",
        "pistachio", "Pistachio", 10, "0.050", "1.00"
    )));
    assert!(out.contains(&format!(
        "  {:<12}    {:<24}    {:>6}       {:>12}       {:>10}\n",
        "TOTAL", "", 15, "0.065", "1.23"
    )));
    assert!(out.contains(&format!("  Total Items (pieces)           {:>50}\n", 15)));
    assert!(out.contains(&format!("  Total Weight                   {:>45} kg\n", "0.065")));
    assert!(out.contains(&format!("  Total Price                    {:>47} \u{20ac}\n", "1.23")));
    assert!(out.contains(&format!(
        "  Average Price per Item         {:>47} \u{20ac}\n",
        "0.08"
    )));
    assert!(out.contains(&format!("  Average Weight per Item        {:>46} g\n", "4.3")));
}

#[test]
fn report_is_identical_except_for_the_timestamp() {
    let c = catalog();
    let items = vec![item("pistachio", 10), item("almond", 5)];
    let rec = build_receipt(&c, &items).unwrap();
    let a = render_report(&rec, &ts(2025, 6, 7, 8, 9, 10));
    let b = render_report(&rec, &ts(1999, 12, 31, 23, 59, 59));
    let again = render_report(&rec, &ts(2025, 6, 7, 8, 9, 10));
    assert_eq!(a, again);
    assert_eq!(a.len(), b.len());
    let marker = b"Date: ";
    let pos = a.windows(marker.len()).position(|w| w == marker).unwrap();
    let date_start = pos + marker.len();
    let date_end = date_start + 66;
    assert_eq!(a[..date_start], b[..date_start]);
    assert_eq!(a[date_end..], b[date_end..]);
    assert_ne!(a[date_start..date_end], b[date_start..date_end]);
}
