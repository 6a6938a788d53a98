use pieceweight::catalog::{Catalog, Category};
use pieceweight::errors::AppError;
use pieceweight::orders::{collect_from_lines, parse_csv_orders, process_line, LineOutcome};
use pieceweight::receipt::build_receipt;

fn cat(id: &str, name: &str, mg: u64, cents: u64) -> Category {
    Category {
        id: id.as_bytes().to_vec(),
        name: name.as_bytes().to_vec(),
        grams_per_piece_mg: mg,
        price_per_kg_cents: cents,
    }
}

fn catalog() -> Catalog {
    Catalog::validate(vec![
        cat("pistachio", "Pistachio", 5000, 2000),
        cat("almond", "Almond", 3000, 1500),
    ])
    .unwrap()
}

#[test]
fn comment_line_is_skipped() {
    let c = catalog();
    assert!(matches!(process_line(&c, b"#comment"), LineOutcome::Skip));
}

#[test]
fn blank_line_finishes() {
    let c = catalog();
    assert!(matches!(process_line(&c, b""), LineOutcome::Finish));
    assert!(matches!(process_line(&c, b"   \t "), LineOutcome::Finish));
}

#[test]
fn bad_format_is_rejected() {
    let c = catalog();
    assert!(matches!(process_line(&c, b"bad,line,format"), LineOutcome::BadFormat));
    assert!(matches!(process_line(&c, b"justoneword"), LineOutcome::BadFormat));
}

#[test]
fn bad_quantity_is_rejected() {
    let c = catalog();
    assert!(matches!(process_line(&c, b"pistachio,abc"), LineOutcome::BadCount));
    assert!(matches!(process_line(&c, b"pistachio,-3"), LineOutcome::BadCount));
    assert!(matches!(
        process_line(&c, b"pistachio,99999999999999999999999"),
        LineOutcome::BadCount
    ));
}

#[test]
fn zero_quantity_is_rejected() {
    let c = catalog();
    assert!(matches!(process_line(&c, b"pistachio,0"), LineOutcome::ZeroCount));
}

#[test]
fn unknown_id_is_rejected() {
    let c = catalog();
    assert!(matches!(process_line(&c, b"unknown_id,5"), LineOutcome::UnknownId));
}

#[test]
fn valid_line_is_added() {
    let c = catalog();
    match process_line(&c, b" pistachio , 10 ") {
        LineOutcome::Add { item, name } => {
            assert_eq!(item.id, b"pistachio".to_vec());
            assert_eq!(item.count, 10);
            assert_eq!(name, b"Pistachio".to_vec());
        },
        _ => panic!("expected the line to be accepted"),
    }
}

#[test]
fn collection_stops_at_blank_and_skips_bad_lines() {
    let c = catalog();
    let lines: Vec<Vec<u8>> = vec![
        b"#header".to_vec(),
        b"pistachio,10".to_vec(),
        b"nosuch,2".to_vec(),
        b"almond,0".to_vec(),
        b"almond,5".to_vec(),
        b"".to_vec(),
        b"pistachio,99".to_vec(),
    ];
    let items = collect_from_lines(&c, &lines);
    assert_eq!(items.len(), 2);
    assert_eq!(items[0].id, b"pistachio".to_vec());
    assert_eq!(items[0].count, 10);
    assert_eq!(items[1].id, b"almond".to_vec());
    assert_eq!(items[1].count, 5);
}

#[test]
fn csv_missing_count_column_fails_run() {
    let r = parse_csv_orders(b"pistachio,10\nalmond\n");
    match r {
        Err(AppError::ParseError(m)) => {
            assert_eq!(m, b"Row 2: Missing count column".to_vec());
        },
        _ => panic!("expected a parse error"),
    }
}

#[test]
fn csv_unknown_id_passes_parse_and_fails_at_receipt() {
    let c = catalog();
    let items = parse_csv_orders(b"pistachio,10\nnosuch,5\n").unwrap();
    assert_eq!(items.len(), 2);
    match build_receipt(&c, &items) {
        Err(AppError::ValidationError(m)) => {
            assert_eq!(m, b"Unknown category: nosuch".to_vec());
        },
        _ => panic!("expected the unknown id to fail the receipt build"),
    }
}

#[test]
fn csv_empty_input_is_rejected() {
    match parse_csv_orders(b"") {
        Err(AppError::ValidationError(m)) => {
            assert_eq!(m, b"CSV file contains no valid orders".to_vec());
        },
        _ => panic!("expected a validation error"),
    }
}

#[test]
fn csv_zero_count_is_fatal() {
    match parse_csv_orders(b"pistachio,0\n") {
        Err(AppError::ValidationError(m)) => {
            assert_eq!(m, b"Row 1: Quantity must be greater than 0".to_vec());
        },
        _ => panic!("expected a validation error"),
    }
}

#[test]
fn csv_bad_count_is_fatal() {
    match parse_csv_orders(b"pistachio,ten\n") {
        Err(AppError::ParseError(m)) => {
            assert_eq!(m, b"Row 1: Invalid count value".to_vec());
        },
        _ => panic!("expected a parse error"),
    }
}

#[test]
fn csv_empty_id_is_fatal() {
    match parse_csv_orders(b" ,5\n") {
        Err(AppError::ValidationError(m)) => {
            assert_eq!(m, b"Row 1: ID cannot be empty".to_vec());
        },
        _ => panic!("expected a validation error"),
    }
}

#[test]
fn csv_wrong_field_count_is_fatal() {
    match parse_csv_orders(b"a,1,extra\n") {
        Err(AppError::FileError(m)) => {
            assert_eq!(m, b"Error reading CSV row 1: wrong number of fields".to_vec());
        },
        _ => panic!("expected a file error"),
    }
}

#[test]
fn csv_accepts_crlf_and_blank_lines() {
    let items = parse_csv_orders(b"pistachio,10\r\n\r\n almond , 5 \r\n").unwrap();
    assert_eq!(items.len(), 2);
    assert_eq!(items[0].id, b"pistachio".to_vec());
    assert_eq!(items[1].id, b"almond".to_vec());
    assert_eq!(items[1].count, 5);
}
