use vstd::prelude::*;

verus! {

/// Why the statistics of a block cannot be formed.
#[derive(Debug, Clone, Copy, PartialEq, Eq, Structural)]
pub enum StatsError {
    /// The block kept no variant column.
    NoVariants,
    /// `n - m - 1` is not positive: the regression has no residual degrees of freedom.
    NoResidualFreedom,
    /// `(n^2 - 1) * (n + 3)` does not fit in 128 bits.
    TooLarge,
}

/// Residual degrees of freedom `n - m - 1` of a regression of `n` individuals on `m` variants.
pub open spec fn residual_dof(n: int, m: int) -> int {
    n - m - 1
}

/// Denominator `(n^2 - 1) * (n + 3)` of the asymptotic variance of R^2.
pub open spec fn var_denominator(n: int) -> int {
    (n * n - 1) * (n + 3)
}

/// The exact integer parts of the block statistics for `n` individuals and `m` variants.
///
/// With `r2` the raw R^2 of a trait:
/// - `adj_r2 = 1 - (1 - r2) * adj_num / dof`
/// - `adj_r2_per_var = adj_r2 / nb_rvs`
/// - `block_var_r2 = 4 * r2 * (1 - r2)^2 * dof_sq / var_den`
/// - `block_var_adj_r2 = (adj_num / dof)^2 * block_var_r2`
#[derive(Debug, Clone, Copy, PartialEq, Eq, Structural)]
pub struct VarianceFactors {
    pub nb_individuals: u64,
    pub nb_rvs: u64,
    /// `n - m - 1`
    pub dof: u64,
    /// `n - 1`
    pub adj_num: u64,
    /// `(n - m - 1)^2`
    pub dof_sq: u128,
    /// `(n^2 - 1) * (n + 3)`
    pub var_den: u128,
}

impl VarianceFactors {
    /// The factors agree with the formulas for their `n` and `m`.
    pub open spec fn wf(self) -> bool {
        let n = self.nb_individuals as int;
        let m = self.nb_rvs as int;
        &&& m > 0
        &&& residual_dof(n, m) > 0
        &&& self.dof as int == residual_dof(n, m)
        &&& self.adj_num as int == n - 1
        &&& self.dof_sq as int == residual_dof(n, m) * residual_dof(n, m)
        &&& self.var_den as int == var_denominator(n)
    }
}

/// The guard of the statistics: `n - m - 1`, when it is positive and `m > 0`.
pub fn residual_freedom(n: u64, m: u64) -> (r: Result<u64, StatsError>)
    ensures
        m == 0 ==> r == Err::<u64, StatsError>(StatsError::NoVariants),
        m > 0 && residual_dof(n as int, m as int) <= 0 ==> r == Err::<u64, StatsError>(
            StatsError::NoResidualFreedom,
        ),
        m > 0 && residual_dof(n as int, m as int) > 0 ==> r == Ok::<u64, StatsError>(
            (n - m - 1) as u64,
        ),
{
    if m == 0 {
        Err(StatsError::NoVariants)
    } else if n <= m || n - m <= 1 {
        Err(StatsError::NoResidualFreedom)
    } else {
        Ok(n - m - 1)
    }
}

/// The factors for `n` individuals and `m` variants, or why there are none.
pub open spec fn factors_of(n: u64, m: u64) -> Result<VarianceFactors, StatsError> {
    if m == 0 {
        Err(StatsError::NoVariants)
    } else if residual_dof(n as int, m as int) <= 0 {
        Err(StatsError::NoResidualFreedom)
    } else if var_denominator(n as int) > u128::MAX {
        Err(StatsError::TooLarge)
    } else {
        Ok(
            VarianceFactors {
                nb_individuals: n,
                nb_rvs: m,
                dof: (n - m - 1) as u64,
                adj_num: (n - 1) as u64,
                dof_sq: (residual_dof(n as int, m as int) * residual_dof(n as int, m as int)) as u128,
                var_den: var_denominator(n as int) as u128,
            },
        )
    }
}

/// The integer factors of the statistics of a block of `n` individuals and `m` retained variants.
pub fn variance_factors(n: u64, m: u64) -> (r: Result<VarianceFactors, StatsError>)
    ensures
        r == factors_of(n, m),
        r is Ok ==> r->Ok_0.wf(),
{
    let dof = match residual_freedom(n, m) {
        Ok(d) => d,
        Err(e) => return Err(e),
    };
    let n_wide = n as u128;
    let dof_wide = dof as u128;
    assert(n as int * n as int <= u128::MAX) by (nonlinear_arith)
        requires n <= u64::MAX;
    assert(dof as int * dof as int <= n as int * n as int) by (nonlinear_arith)
        requires dof < n;
    assert(n as int * n as int >= 1) by (nonlinear_arith)
        requires n >= 1;
    let sq = n_wide * n_wide;
    let dof_sq = dof_wide * dof_wide;
    let sq_minus_one = sq - 1;
    let n_plus_three = n_wide + 3;
    match sq_minus_one.checked_mul(n_plus_three) {
        Some(var_den) => Ok(
            VarianceFactors {
                nb_individuals: n,
                nb_rvs: m,
                dof,
                adj_num: n - 1,
                dof_sq,
                var_den,
            },
        ),
        None => Err(StatsError::TooLarge),
    }
}

} // verus!
