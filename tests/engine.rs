use rarity::config::{set_blocks_per_chunk, set_log_level, set_num_threads, RunConfig};
use rarity::naming::{chromosome_dir_name, decimal_string, trait_names};
use rarity::plan::{check_block_rows, plan_records, BlockSkip};
use rarity::schedule::{collect_jobs, worker_count_for, GeneBlock, Scheduler};
use rarity::stats::{residual_freedom, variance_factors, StatsError};
use rarity::validate::{validate_phenotypes, ValidationError};

fn names(v: &[&str]) -> Vec<String> {
    v.iter().map(|s| s.to_string()).collect()
}

fn sample_groups() -> Vec<Vec<String>> {
    let mut groups = vec![Vec::new(); 23];
    groups[1] = names(&["BRCA1", "TP53"]);
    groups[3] = names(&["APOE"]);
    groups[22] = names(&["CYP2D6", "COMT", "MAPK1"]);
    groups
}

fn drain(jobs: Vec<GeneBlock>, workers: usize) -> Vec<(usize, String)> {
    let mut s = Scheduler::new(jobs, workers);
    let n = s.worker_count();
    let mut done = Vec::new();
    let mut active = vec![true; n];
    let mut w = 0;
    while active.iter().any(|a| *a) {
        if active[w] {
            match s.next_job(w) {
                Some(job) => done.push((job.chromosome, job.identifier)),
                None => active[w] = false,
            }
        }
        w = (w + 1) % n;
    }
    done.sort();
    done
}

#[test]
fn variance_factors_of_hundred_by_five() {
    let f = variance_factors(100, 5).unwrap();
    assert_eq!(f.dof, 94);
    assert_eq!(f.adj_num, 99);
    assert_eq!(f.dof_sq, 94 * 94);
    assert_eq!(f.var_den, (100 * 100 - 1) * 103);
    let r2 = 0.3f64;
    let block_var_r2 = 4.0 * r2 * (1.0 - r2).powi(2) * f.dof_sq as f64 / f.var_den as f64;
    let expected = (4.0 * 0.3 * 0.7f64.powi(2) * 94f64.powi(2)) / ((100f64.powi(2) - 1.0) * 103.0);
    assert!((block_var_r2 - expected).abs() < 1e-9);
    let ratio = f.adj_num as f64 / f.dof as f64;
    let block_var_adj_r2 = ratio.powi(2) * block_var_r2;
    assert!((block_var_adj_r2 - (99.0f64 / 94.0).powi(2) * expected).abs() < 1e-9);
    let adj_r2 = 1.0 - (1.0 - r2) * ratio;
    assert!((adj_r2 - (1.0 - 0.7 * 99.0 / 94.0)).abs() < 1e-12);
}

#[test]
fn residual_freedom_guard() {
    assert_eq!(residual_freedom(10, 0), Err(StatsError::NoVariants));
    assert_eq!(residual_freedom(6, 5), Err(StatsError::NoResidualFreedom));
    assert_eq!(residual_freedom(3, 5), Err(StatsError::NoResidualFreedom));
    assert_eq!(residual_freedom(7, 5), Ok(1));
}

#[test]
fn variance_factors_too_large() {
    assert_eq!(variance_factors(u64::MAX, 1), Err(StatsError::TooLarge));
    assert_eq!(variance_factors(6, 5), Err(StatsError::NoResidualFreedom));
    assert!(variance_factors(1 << 40, 3).is_ok());
}

#[test]
fn decimal_strings() {
    assert_eq!(decimal_string(0), "0");
    assert_eq!(decimal_string(9), "9");
    assert_eq!(decimal_string(10), "10");
    assert_eq!(decimal_string(12345), "12345");
}

#[test]
fn chromosome_directories() {
    assert_eq!(chromosome_dir_name(0), None);
    assert_eq!(chromosome_dir_name(1), Some("chr_01".to_string()));
    assert_eq!(chromosome_dir_name(9), Some("chr_09".to_string()));
    assert_eq!(chromosome_dir_name(22), Some("chr_22".to_string()));
    assert_eq!(chromosome_dir_name(23), None);
}

#[test]
fn default_and_given_trait_names() {
    assert_eq!(trait_names(None, 3), names(&["1", "2", "3"]));
    assert_eq!(trait_names(None, 0), Vec::<String>::new());
    assert_eq!(trait_names(Some(names(&["height", "bmi"])), 2), names(&["height", "bmi"]));
}

#[test]
fn jobs_follow_discovery() {
    let jobs = collect_jobs(&sample_groups());
    let seen: Vec<(usize, &str, usize)> =
        jobs.iter().map(|j| (j.chromosome, j.identifier.as_str(), j.slot)).collect();
    assert_eq!(
        seen,
        vec![
            (1, "BRCA1", 0),
            (1, "TP53", 1),
            (3, "APOE", 2),
            (22, "CYP2D6", 3),
            (22, "COMT", 4),
            (22, "MAPK1", 5)
        ]
    );
    assert!(collect_jobs(&vec![Vec::new(); 23]).is_empty());
}

#[test]
fn worker_counts_are_clamped() {
    assert_eq!(worker_count_for(16, 3), 3);
    assert_eq!(worker_count_for(4, 10), 4);
    assert_eq!(worker_count_for(0, 5), 1);
    assert_eq!(worker_count_for(4, 0), 1);
}

#[test]
fn scheduler_pops_last_first() {
    let mut s = Scheduler::new(collect_jobs(&sample_groups()), 2);
    assert_eq!(s.worker_count(), 2);
    assert_eq!(s.pending_count(), 6);
    let first = s.next_job(0).unwrap();
    assert_eq!(first.identifier, "MAPK1");
    let second = s.next_job(1).unwrap();
    assert_eq!(second.identifier, "COMT");
    assert_eq!(s.pending_count(), 4);
    for _ in 0..4 {
        assert!(s.next_job(0).is_some());
    }
    assert!(s.next_job(0).is_none());
    assert!(s.next_job(1).is_none());
}

#[test]
fn worker_count_does_not_change_jobs_done() {
    let one = drain(collect_jobs(&sample_groups()), 1);
    let four = drain(collect_jobs(&sample_groups()), 4);
    let many = drain(collect_jobs(&sample_groups()), 64);
    assert_eq!(one.len(), 6);
    assert_eq!(one, four);
    assert_eq!(one, many);
}

#[test]
fn discovery_order_does_not_change_jobs_done() {
    let mut permuted = sample_groups();
    permuted[22].reverse();
    permuted[1].swap(0, 1);
    assert_eq!(drain(collect_jobs(&sample_groups()), 3), drain(collect_jobs(&permuted), 3));
}

#[test]
fn same_input_same_jobs_done() {
    assert_eq!(drain(collect_jobs(&sample_groups()), 5), drain(collect_jobs(&sample_groups()), 5));
}

#[test]
fn phenotype_row_mismatch_aborts() {
    let r = validate_phenotypes(&vec![500, 501], &vec![false, false]);
    assert_eq!(r, Err(ValidationError::RowCountMismatch { index: 1, expected: 500, found: 501 }));
    assert_eq!(r.unwrap_err().message(), "Phenotypes must have the same number of rows");
}

#[test]
fn phenotype_missing_values_abort() {
    let r = validate_phenotypes(&vec![500, 500, 500], &vec![false, true, false]);
    assert_eq!(r, Err(ValidationError::MissingValues { index: 1 }));
    assert_eq!(r.unwrap_err().message(), "Phenotypes must not contain NaN values");
}

#[test]
fn phenotypes_first_failure_wins() {
    let r = validate_phenotypes(&vec![500, 500, 499], &vec![false, true, false]);
    assert_eq!(r, Err(ValidationError::MissingValues { index: 1 }));
    let r = validate_phenotypes(&vec![500, 499, 500], &vec![false, false, true]);
    assert_eq!(r, Err(ValidationError::RowCountMismatch { index: 1, expected: 500, found: 499 }));
}

#[test]
fn phenotypes_valid_or_absent() {
    assert_eq!(validate_phenotypes(&vec![500, 500], &vec![false, false]), Ok(500));
    assert_eq!(validate_phenotypes(&vec![], &vec![]), Err(ValidationError::NoPhenotypes));
    assert_eq!(ValidationError::NoPhenotypes.message(), "At least one phenotype is required");
}

#[test]
fn block_row_check() {
    assert_eq!(check_block_rows(500, 500), Ok(()));
    assert_eq!(
        check_block_rows(500, 499),
        Err(BlockSkip::RowCountMismatch { expected: 500, found: 499 })
    );
}

#[test]
fn degenerate_block_gives_no_record() {
    let job = GeneBlock { chromosome: 4, identifier: "EMPTY".to_string(), slot: 0 };
    assert_eq!(plan_records(&job, 500, 0, &vec![2, 3]).unwrap_err(), BlockSkip::NoInformativeColumns);
}

#[test]
fn block_too_wide_gives_no_record() {
    let job = GeneBlock { chromosome: 4, identifier: "WIDE".to_string(), slot: 0 };
    assert_eq!(
        plan_records(&job, 6, 5, &vec![1]).unwrap_err(),
        BlockSkip::Statistics(StatsError::NoResidualFreedom)
    );
}

#[test]
fn records_carry_block_size() {
    let job = GeneBlock { chromosome: 7, identifier: "CFTR".to_string(), slot: 12 };
    let (f, plans) = plan_records(&job, 100, 5, &vec![2, 0, 1]).unwrap();
    assert_eq!(f.dof, 94);
    let pairs: Vec<(usize, usize)> = plans.iter().map(|p| (p.pheno, p.trait_index)).collect();
    assert_eq!(pairs, vec![(0, 0), (0, 1), (2, 0)]);
    for p in &plans {
        assert_eq!(p.nb_individuals, 100);
        assert_eq!(p.nb_rvs, 5);
        assert_eq!(p.chromosome, 7);
        assert_eq!(p.slot, 12);
    }
}

#[test]
fn config_defaults_and_setters() {
    let mut c = RunConfig::new();
    assert_eq!(c.blocks_per_chunk, 16);
    assert_eq!(c.num_threads, 0);
    assert_eq!(c.log_level, "info");
    set_blocks_per_chunk(&mut c, 4);
    set_num_threads(&mut c, 8);
    set_log_level(&mut c, "debug");
    assert_eq!((c.blocks_per_chunk, c.num_threads, c.log_level.as_str()), (4, 8, "debug"));
}
