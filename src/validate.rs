use vstd::prelude::*;
use vstd::string::StringExecFns;

verus! {

/// Why the phenotypes of a run cannot be used; the run stops before any block is read.
#[derive(Debug, Clone, Copy, PartialEq, Eq, Structural)]
pub enum ValidationError {
    /// No phenotype file was given.
    NoPhenotypes,
    /// Phenotype `index` has `found` rows where the first one has `expected`.
    RowCountMismatch { index: usize, expected: usize, found: usize },
    /// Phenotype `index` holds a missing value.
    MissingValues { index: usize },
}

impl ValidationError {
    /// A sentence that describes the error.
    pub fn message(&self) -> (r: String)
        ensures
            self is NoPhenotypes ==> r@ == "At least one phenotype is required"@,
            self is RowCountMismatch ==> r@ == "Phenotypes must have the same number of rows"@,
            self is MissingValues ==> r@ == "Phenotypes must not contain NaN values"@,
    {
        match self {
            ValidationError::NoPhenotypes => String::from_str("At least one phenotype is required"),
            ValidationError::RowCountMismatch { .. } => String::from_str(
                "Phenotypes must have the same number of rows",
            ),
            ValidationError::MissingValues { .. } => String::from_str(
                "Phenotypes must not contain NaN values",
            ),
        }
    }
}

/// Phenotype `i` passes: it has the row count of the first phenotype and no missing value.
pub open spec fn phenotype_ok(rows: Seq<usize>, has_nan: Seq<bool>, i: int) -> bool {
    rows[i] == rows[0] && !has_nan[i]
}

/// Checks the phenotypes in order, from their row counts and whether each holds a missing
/// value, and gives the cohort size: the common row count.
pub fn validate_phenotypes(rows: &Vec<usize>, has_nan: &Vec<bool>) -> (r: Result<
    usize,
    ValidationError,
>)
    requires
        rows@.len() == has_nan@.len(),
    ensures
        rows@.len() == 0 <==> r == Err::<usize, ValidationError>(ValidationError::NoPhenotypes),
        r is Ok <==> rows@.len() > 0 && forall|i: int|
            0 <= i < rows@.len() ==> #[trigger] phenotype_ok(rows@, has_nan@, i),
        r is Ok ==> r->Ok_0 == rows@[0],
        r matches Err(ValidationError::RowCountMismatch { index, expected, found }) ==> {
            &&& index < rows@.len()
            &&& expected == rows@[0]
            &&& found == rows@[index as int]
            &&& found != expected
            &&& forall|j: int| 0 <= j < index ==> #[trigger] phenotype_ok(rows@, has_nan@, j)
        },
        r matches Err(ValidationError::MissingValues { index }) ==> {
            &&& index < rows@.len()
            &&& rows@[index as int] == rows@[0]
            &&& has_nan@[index as int]
            &&& forall|j: int| 0 <= j < index ==> #[trigger] phenotype_ok(rows@, has_nan@, j)
        },
{
    if rows.len() == 0 {
        return Err(ValidationError::NoPhenotypes);
    }
    let expected = rows[0];
    let mut i: usize = 0;
    while i < rows.len()
        invariant
            rows@.len() == has_nan@.len(),
            rows@.len() > 0,
            expected == rows@[0],
            i <= rows@.len(),
            forall|j: int| 0 <= j < i ==> #[trigger] phenotype_ok(rows@, has_nan@, j),
        decreases rows@.len() - i,
    {
        if rows[i] != expected {
            assert(!phenotype_ok(rows@, has_nan@, i as int));
            return Err(ValidationError::RowCountMismatch { index: i, expected, found: rows[i] });
        }
        if has_nan[i] {
            assert(!phenotype_ok(rows@, has_nan@, i as int));
            return Err(ValidationError::MissingValues { index: i });
        }
        i = i + 1;
    }
    Ok(expected)
}

} // verus!
