//! The category catalog: validated product records and lookup by id.
//!
//! Weights and prices are fixed-point integers: grams per piece is kept in
//! milligrams, price per kilogram in cents, so every computation is exact.
use vstd::prelude::*;

verus! {

use crate::errors::AppError;
use crate::text::lit;

pub struct Category {
    pub id: Vec<u8>,
    pub name: Vec<u8>,
    /// Unit weight, in milligrams per piece.
    pub grams_per_piece_mg: u64,
    /// Unit price, in cents per kilogram.
    pub price_per_kg_cents: u64,
}

impl Category {
    /// A category is valid when both strings are non-empty and both
    /// quantities are positive.
    pub open spec fn valid(&self) -> bool {
        &&& self.id@.len() > 0
        &&& self.name@.len() > 0
        &&& self.grams_per_piece_mg > 0
        &&& self.price_per_kg_cents > 0
    }

    /// The message reported for the first failing field.
    pub open spec fn error_msg_spec(&self) -> Seq<u8> {
        if self.id@.len() == 0 {
            lit("Category ID cannot be empty")
        } else if self.name@.len() == 0 {
            lit("Category name cannot be empty")
        } else if self.grams_per_piece_mg == 0 {
            lit("Invalid weight for ") + self.id@ + lit(": must be positive")
        } else {
            lit("Invalid price for ") + self.id@ + lit(": must be positive")
        }
    }

    pub fn validate(&self) -> (r: Result<(), AppError>)
        ensures
            match r {
                Ok(_) => self.valid(),
                Err(e) => !self.valid() && (e matches AppError::ValidationError(m) && m@
                    == self.error_msg_spec()),
            },
    {
        if self.id.len() == 0 {
            let mut m: Vec<u8> = Vec::new();
            crate::text::push_lit(&mut m, "Category ID cannot be empty");
            return Err(AppError::ValidationError(m));
        }
        if self.name.len() == 0 {
            let mut m: Vec<u8> = Vec::new();
            crate::text::push_lit(&mut m, "Category name cannot be empty");
            return Err(AppError::ValidationError(m));
        }
        if self.grams_per_piece_mg == 0 {
            let mut m: Vec<u8> = Vec::new();
            crate::text::push_lit(&mut m, "Invalid weight for ");
            crate::text::push_bytes(&mut m, self.id.as_slice());
            crate::text::push_lit(&mut m, ": must be positive");
            return Err(AppError::ValidationError(m));
        }
        if self.price_per_kg_cents == 0 {
            let mut m: Vec<u8> = Vec::new();
            crate::text::push_lit(&mut m, "Invalid price for ");
            crate::text::push_bytes(&mut m, self.id.as_slice());
            crate::text::push_lit(&mut m, ": must be positive");
            return Err(AppError::ValidationError(m));
        }
        Ok(())
    }
}

/// All categories pairwise carry distinct ids.
pub open spec fn unique_ids(cats: Seq<Category>) -> bool {
    forall|i: int, j: int| 0 <= i < j < cats.len() ==> #[trigger] cats[i].id@ != #[trigger] cats[j].id@
}

/// Index of the first invalid category (the length when all are valid).
pub open spec fn first_invalid(cats: Seq<Category>) -> nat
    decreases cats.len(),
{
    if cats.len() == 0 {
        0
    } else if !cats[0].valid() {
        0
    } else {
        1 + first_invalid(cats.drop_first())
    }
}

/// Index of the first category carrying `id`, or -1 when none does.
pub open spec fn find_id(cats: Seq<Category>, id: Seq<u8>) -> int
    decreases cats.len(),
{
    if cats.len() == 0 {
        -1
    } else if cats[0].id@ == id {
        0
    } else {
        let r = find_id(cats.drop_first(), id);
        if r < 0 {
            -1
        } else {
            r + 1
        }
    }
}

/// The whole record list passes validation.
pub open spec fn catalog_ok(cats: Seq<Category>) -> bool {
    &&& cats.len() > 0
    &&& first_invalid(cats) == cats.len()
    &&& unique_ids(cats)
}

/// The error that catalog validation reports for a failing record list.
pub open spec fn validate_error_matches(cats: Seq<Category>, e: AppError) -> bool {
    if cats.len() == 0 {
        e matches AppError::ValidationError(m) && m@ == lit(
            "Configuration must contain at least one category",
        )
    } else if first_invalid(cats) < cats.len() {
        e matches AppError::ValidationError(m) && m@ == cats[first_invalid(
            cats,
        ) as int].error_msg_spec()
    } else {
        !unique_ids(cats) && (e matches AppError::ValidationError(m) && m@ == lit(
            "Duplicate category IDs found",
        ))
    }
}

pub proof fn lemma_first_invalid_bounds(cats: Seq<Category>)
    ensures
        first_invalid(cats) <= cats.len(),
        forall|j: int| 0 <= j < first_invalid(cats) ==> (#[trigger] cats[j]).valid(),
        first_invalid(cats) < cats.len() ==> !cats[first_invalid(cats) as int].valid(),
    decreases cats.len(),
{
    if cats.len() > 0 && cats[0].valid() {
        lemma_first_invalid_bounds(cats.drop_first());
        assert(forall|i: int|
            1 <= i < cats.len() ==> #[trigger] cats[i] == cats.drop_first()[i - 1]);
    }
}

/// The validated catalog: non-empty, individually valid, unique ids.
pub struct Catalog {
    pub categories: Vec<Category>,
}

impl Catalog {
    pub open spec fn wf(&self) -> bool {
        &&& self.categories@.len() > 0
        &&& forall|i: int|
            0 <= i < self.categories@.len() ==> (#[trigger] self.categories@[i]).valid()
        &&& unique_ids(self.categories@)
    }

    /// Build a catalog from raw records: the list must be non-empty, each
    /// record valid (the first offender is reported), and ids must be
    /// unique.
    pub fn validate(categories: Vec<Category>) -> (r: Result<Catalog, AppError>)
        ensures
            match r {
                Ok(c) => c.wf() && c.categories == categories,
                Err(e) => !catalog_ok(categories@) && validate_error_matches(categories@, e),
            },
    {
        let n = categories.len();
        if n == 0 {
            let mut m: Vec<u8> = Vec::new();
            crate::text::push_lit(&mut m, "Configuration must contain at least one category");
            return Err(AppError::ValidationError(m));
        }
        let mut i: usize = 0;
        while i < n
            invariant
                i <= n,
                n == categories@.len(),
                forall|j: int| 0 <= j < i ==> (#[trigger] categories@[j]).valid(),
            decreases n - i,
        {
            match categories[i].validate() {
                Ok(_) => {},
                Err(e) => {
                    proof {
                        lemma_first_invalid_is(categories@, i as nat);
                    }
                    return Err(e);
                },
            }
            i = i + 1;
        }
        proof {
            lemma_first_invalid_is(categories@, n as nat);
        }
        let mut a: usize = 1;
        while a < n
            invariant
                1 <= a <= n,
                n == categories@.len(),
                forall|j: int| 0 <= j < n ==> (#[trigger] categories@[j]).valid(),
                forall|p: int, q: int|
                    0 <= p < q < a ==> #[trigger] categories@[p].id@ != #[trigger] categories@[q].id@,
            decreases n - a,
        {
            let mut b: usize = 0;
            while b < a
                invariant
                    b <= a < n,
                    n == categories@.len(),
                    forall|j: int| 0 <= j < n ==> (#[trigger] categories@[j]).valid(),
                    forall|q: int| 0 <= q < b ==> #[trigger] categories@[q].id@ != categories@[a as int].id@,
                decreases a - b,
            {
                if crate::text::bytes_eq(categories[b].id.as_slice(), categories[a].id.as_slice()) {
                    let mut m: Vec<u8> = Vec::new();
                    crate::text::push_lit(&mut m, "Duplicate category IDs found");
                    proof {
                        lemma_first_invalid_is(categories@, n as nat);
                        assert(categories@[b as int].id@ == categories@[a as int].id@);
                        assert(!unique_ids(categories@));
                    }
                    return Err(AppError::ValidationError(m));
                }
                b = b + 1;
            }
            a = a + 1;
        }
        Ok(Catalog { categories })
    }

    /// Index of the category carrying `id`, if any.
    pub fn find(&self, id: &[u8]) -> (r: Option<usize>)
        ensures
            match r {
                Some(i) => i < self.categories@.len() && self.categories@[i as int].id@ == id@
                    && find_id(self.categories@, id@) == i,
                None => find_id(self.categories@, id@) == -1,
            },
    {
        let n = self.categories.len();
        let mut i: usize = 0;
        while i < n
            invariant
                i <= n,
                n == self.categories@.len(),
                forall|j: int| 0 <= j < i ==> #[trigger] self.categories@[j].id@ != id@,
            decreases n - i,
        {
            if crate::text::bytes_eq(self.categories[i].id.as_slice(), id) {
                proof {
                    lemma_find_id_first(self.categories@, id@, i as nat);
                }
                return Some(i);
            }
            i = i + 1;
        }
        proof {
            lemma_find_id_none(self.categories@, id@);
        }
        None
    }
}

proof fn lemma_first_invalid_is(cats: Seq<Category>, k: nat)
    requires
        k <= cats.len(),
        forall|j: int| 0 <= j < k ==> (#[trigger] cats[j]).valid(),
        k == cats.len() || !cats[k as int].valid(),
    ensures
        first_invalid(cats) == k,
    decreases k,
{
    if k > 0 {
        lemma_first_invalid_is(cats.drop_first(), (k - 1) as nat);
    }
}

proof fn lemma_find_id_first(cats: Seq<Category>, id: Seq<u8>, k: nat)
    requires
        k < cats.len(),
        forall|j: int| 0 <= j < k ==> #[trigger] cats[j].id@ != id,
        cats[k as int].id@ == id,
    ensures
        find_id(cats, id) == k,
    decreases k,
{
    if k > 0 {
        lemma_find_id_first(cats.drop_first(), id, (k - 1) as nat);
    }
}

proof fn lemma_find_id_none(cats: Seq<Category>, id: Seq<u8>)
    requires
        forall|j: int| 0 <= j < cats.len() ==> #[trigger] cats[j].id@ != id,
    ensures
        find_id(cats, id) == -1,
    decreases cats.len(),
{
    if cats.len() > 0 {
        lemma_find_id_none(cats.drop_first(), id);
    }
}

} // verus!
