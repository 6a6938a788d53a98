use pieceweight::calc::{price_for, weight_mg};
use pieceweight::catalog::{Catalog, Category};
use pieceweight::errors::AppError;

fn cat(id: &str, name: &str, mg: u64, cents: u64) -> Category {
    Category {
        id: id.as_bytes().to_vec(),
        name: name.as_bytes().to_vec(),
        grams_per_piece_mg: mg,
        price_per_kg_cents: cents,
    }
}

fn err_message(e: &AppError) -> String {
    String::from_utf8(e.message().clone()).unwrap()
}

#[test]
fn weight_formula_exact() {
    // 5 g per piece, 10 pieces: 50 g = 0.05 kg = 50_000 mg
    assert_eq!(weight_mg(5000, 10), 50_000);
    assert_eq!(weight_mg(3000, 5), 15_000);
    assert_eq!(weight_mg(1, 0), 0);
    assert_eq!(weight_mg(u64::MAX, u64::MAX), (u64::MAX as u128) * (u64::MAX as u128));
}

#[test]
fn price_formula_exact() {
    // 0.05 kg at 20 euros/kg: exactly 1 euro = 100_000_000 e8 units
    let p = cat("pistachio", "Pistachio", 5000, 2000);
    assert_eq!(price_for(&p, 10), 100_000_000);
    // 0.015 kg at 15 euros/kg: exactly 0.225 euro
    let a = cat("almond", "Almond", 3000, 1500);
    assert_eq!(price_for(&a, 5), 22_500_000);
}

#[test]
fn catalog_rejects_empty_list() {
    let r = Catalog::validate(Vec::new());
    match r {
        Err(AppError::ValidationError(m)) => {
            assert_eq!(m, b"Configuration must contain at least one category".to_vec());
        },
        _ => panic!("expected a validation error"),
    }
}

#[test]
fn catalog_rejects_empty_id() {
    let r = Catalog::validate(vec![cat("ok", "Fine", 1, 1), cat("", "NoId", 1, 1)]);
    match r {
        Err(e) => assert_eq!(err_message(&e), "Category ID cannot be empty"),
        _ => panic!("expected a validation error"),
    }
}

#[test]
fn catalog_rejects_empty_name() {
    let r = Catalog::validate(vec![cat("x", "", 1, 1), cat("ok", "Fine", 1, 1)]);
    match r {
        Err(e) => assert_eq!(err_message(&e), "Category name cannot be empty"),
        _ => panic!("expected a validation error"),
    }
}

#[test]
fn catalog_rejects_zero_weight() {
    let r = Catalog::validate(vec![cat("ok", "Fine", 1, 1), cat("x", "X", 0, 1)]);
    match r {
        Err(e) => assert_eq!(err_message(&e), "Invalid weight for x: must be positive"),
        _ => panic!("expected a validation error"),
    }
}

#[test]
fn catalog_rejects_zero_price() {
    let r = Catalog::validate(vec![cat("x", "X", 5, 0)]);
    match r {
        Err(e) => assert_eq!(err_message(&e), "Invalid price for x: must be positive"),
        _ => panic!("expected a validation error"),
    }
}

#[test]
fn catalog_rejects_duplicate_ids() {
    let r = Catalog::validate(vec![
        cat("a", "First", 1, 1),
        cat("b", "Second", 1, 1),
        cat("a", "Third", 1, 1),
    ]);
    match r {
        Err(e) => assert_eq!(err_message(&e), "Duplicate category IDs found"),
        _ => panic!("expected a validation error"),
    }
}

#[test]
fn catalog_accepts_valid_records() {
    let c = Catalog::validate(vec![
        cat("pistachio", "Pistachio", 5000, 2000),
        cat("almond", "Almond", 3000, 1500),
    ])
    .unwrap();
    assert_eq!(c.categories.len(), 2);
    assert_eq!(c.find(b"almond"), Some(1));
    assert_eq!(c.find(b"nosuch"), None);
}

#[test]
fn error_render_prefixes_taxonomy() {
    let e = AppError::ValidationError(b"boom".to_vec());
    assert_eq!(e.render(), b"Validation Error: boom".to_vec());
    let e = AppError::FileError(b"gone".to_vec());
    assert_eq!(e.render(), b"File Error: gone".to_vec());
    let e = AppError::ParseError(b"bad".to_vec());
    assert_eq!(e.render(), b"Parse Error: bad".to_vec());
    let e = AppError::IoError(b"pipe".to_vec());
    assert_eq!(e.render(), b"I/O Error: pipe".to_vec());
    let e = AppError::ConfigError(b"toml".to_vec());
    assert_eq!(e.render(), b"Configuration Error: toml".to_vec());
}
