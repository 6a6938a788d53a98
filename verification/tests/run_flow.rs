use pieceweight::catalog::Category;
use pieceweight::errors::AppError;
use pieceweight::render::render_report_now;
use pieceweight::receipt::build_receipt;
use pieceweight::orders::OrderItem;
use pieceweight::catalog::Catalog;
use pieceweight::{run, OrderSource, RunOutput};

fn cat(id: &str, name: &str, mg: u64, cents: u64) -> Category {
    Category {
        id: id.as_bytes().to_vec(),
        name: name.as_bytes().to_vec(),
        grams_per_piece_mg: mg,
        price_per_kg_cents: cents,
    }
}

fn cats() -> Vec<Category> {
    vec![cat("pistachio", "Pistachio", 5000, 2000), cat("almond", "Almond", 3000, 1500)]
}

#[test]
fn run_from_csv_produces_both_renderings() {
    let r = run(cats(), OrderSource::FromCsv(b"pistachio,10\nalmond,5\n".to_vec())).unwrap();
    match r {
        RunOutput::Receipt { console, file } => {
            let console = String::from_utf8(console).unwrap();
            assert!(console.contains("ORDER RECEIPT"));
            assert!(console.contains(&format!(
                "{:<20} {:>8} {:>12} {:>12}\n",
                "TOTAL", 15, "0.065", "1.23"
            )));
            let file = String::from_utf8(file).unwrap();
            assert!(file.contains("PIECEWEIGHT - ORDER RECEIPT"));
            assert!(file.contains(&format!("  Total Items (pieces)           {:>50}\n", 15)));
        },
        _ => panic!("expected a receipt"),
    }
}

#[test]
fn run_interactive_with_no_items_is_a_noop() {
    let lines: Vec<Vec<u8>> = vec![b"#only a comment".to_vec(), b"".to_vec()];
    let r = run(cats(), OrderSource::Interactive(lines)).unwrap();
    assert!(matches!(r, RunOutput::NoItems));
}

#[test]
fn run_interactive_collects_and_builds() {
    let lines: Vec<Vec<u8>> = vec![
        b"pistachio,10".to_vec(),
        b"nonsense line".to_vec(),
        b"almond,5".to_vec(),
        b"".to_vec(),
    ];
    let r = run(cats(), OrderSource::Interactive(lines)).unwrap();
    match r {
        RunOutput::Receipt { console, .. } => {
            let console = String::from_utf8(console).unwrap();
            assert!(console.contains(&format!(
                "{:<20} {:>8} {:>12} {:>12}\n",
                "TOTAL", 15, "0.065", "1.23"
            )));
        },
        _ => panic!("expected a receipt"),
    }
}

#[test]
fn run_rejects_invalid_catalog_first() {
    let r = run(Vec::new(), OrderSource::FromCsv(b"pistachio,10\n".to_vec()));
    match r {
        Err(AppError::ValidationError(m)) => {
            assert_eq!(m, b"Configuration must contain at least one category".to_vec());
        },
        _ => panic!("expected a validation error"),
    }
}

#[test]
fn run_reports_csv_errors() {
    let r = run(cats(), OrderSource::FromCsv(b"pistachio\n".to_vec()));
    match r {
        Err(AppError::ParseError(m)) => {
            assert_eq!(m, b"Row 1: Missing count column".to_vec());
        },
        _ => panic!("expected a parse error"),
    }
}

#[test]
fn live_timestamp_fills_the_date_field() {
    let c = Catalog::validate(cats()).unwrap();
    let items = vec![OrderItem { id: b"almond".to_vec(), count: 2 }];
    let rec = build_receipt(&c, &items).unwrap();
    let out = render_report_now(&rec);
    let marker = b"Date: ";
    let pos = out.windows(marker.len()).position(|w| w == marker).unwrap();
    let field = &out[pos + marker.len()..pos + marker.len() + 19];
    // shape YYYY-MM-DD HH:MM:SS with a plausible calendar reading
    assert!(field[..4].iter().all(|b| b.is_ascii_digit()));
    assert_eq!(field[4], b'-');
    assert!(field[5..7].iter().all(|b| b.is_ascii_digit()));
    assert_eq!(field[7], b'-');
    assert_eq!(field[10], b' ');
    assert_eq!(field[13], b':');
    assert_eq!(field[16], b':');
    let month: u32 = std::str::from_utf8(&field[5..7]).unwrap().parse().unwrap();
    assert!((1..=12).contains(&month));
    let year: u32 = std::str::from_utf8(&field[..4]).unwrap().parse().unwrap();
    assert!(year >= 2020);
}
